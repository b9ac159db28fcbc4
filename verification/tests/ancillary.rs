use async_ping::control::{
    cmsg_firsthdr, cmsg_len, decode_hlim, order_from_probe, ByteOrder, ControlHeader,
    ControlLayout,
};

fn linux64() -> ControlLayout {
    ControlLayout {
        order: ByteOrder::Little,
        header_size: 16,
        data_offset: 16,
        level: 41,
        hop_limit_type: 52,
    }
}

fn message(len: u64, level: i32, typ: i32, value: i32) -> Vec<u8> {
    let mut buf = Vec::new();
    buf.extend_from_slice(&len.to_le_bytes());
    buf.extend_from_slice(&level.to_le_bytes());
    buf.extend_from_slice(&typ.to_le_bytes());
    buf.extend_from_slice(&value.to_le_bytes());
    buf
}

#[test]
fn hop_limit_is_decoded() {
    let layout = linux64();
    assert_eq!(decode_hlim(&layout, &message(20, 41, 52, 64)), Some(64));
    assert_eq!(decode_hlim(&layout, &message(20, 41, 52, 0)), Some(0));
    assert_eq!(decode_hlim(&layout, &message(20, 41, 52, 255)), Some(255));
    let mut padded = message(20, 41, 52, 3);
    padded.extend_from_slice(&[0xee; 4]);
    assert_eq!(decode_hlim(&layout, &padded), Some(3));
}

#[test]
fn other_messages_hold_no_hop_limit() {
    let layout = linux64();
    // wrong level, wrong type, wrong length
    assert_eq!(decode_hlim(&layout, &message(20, 0, 52, 64)), None);
    assert_eq!(decode_hlim(&layout, &message(20, 41, 51, 64)), None);
    assert_eq!(decode_hlim(&layout, &message(24, 41, 52, 64)), None);
    // no byte
    assert_eq!(decode_hlim(&layout, &message(20, 41, 52, 256)), None);
    assert_eq!(decode_hlim(&layout, &message(20, 41, 52, -1)), None);
    // cut short
    let whole = message(20, 41, 52, 64);
    assert_eq!(decode_hlim(&layout, &whole[..19]), None);
    assert_eq!(decode_hlim(&layout, &whole[..16]), None);
    assert_eq!(decode_hlim(&layout, &whole[..15]), None);
    assert_eq!(decode_hlim(&layout, &[]), None);
}

#[test]
fn header_is_read_from_its_bytes() {
    let layout = linux64();
    let buf = message(0x1_0000_0002, -2, i32::MIN, 0);
    assert_eq!(
        cmsg_firsthdr(&layout, &buf[..16]),
        Some(ControlHeader { cmsg_len: 0x1_0000_0002, cmsg_level: -2, cmsg_type: i32::MIN })
    );
    assert_eq!(cmsg_firsthdr(&layout, &buf[..15]), None);
    assert_eq!(cmsg_len(&layout, 4), 20);
}

#[test]
fn big_endian_short_header() {
    let layout = ControlLayout {
        order: ByteOrder::Big,
        header_size: 12,
        data_offset: 16,
        level: 41,
        hop_limit_type: 47,
    };
    let mut buf = vec![0, 0, 0, 20, 0, 0, 0, 41, 0, 0, 0, 47];
    buf.extend_from_slice(&[9, 9, 9, 9]);
    buf.extend_from_slice(&[0, 0, 0, 61]);
    assert_eq!(decode_hlim(&layout, &buf), Some(61));
}

#[test]
fn native_layout_reads_native_bytes() {
    let size = size_of::<libc::cmsghdr>();
    assert_eq!(ControlLayout::native(size - 1), None);
    assert_eq!(ControlLayout::native(usize::MAX), None);
    let layout = ControlLayout::native(size).unwrap();
    assert_eq!(layout.header_size, size);
    assert_eq!(layout.data_offset, size);
    assert_eq!(layout.level, libc::IPPROTO_IPV6);
    assert_eq!(layout.hop_limit_type, libc::IPV6_HOPLIMIT);

    let mut buf = Vec::new();
    if size == 16 {
        buf.extend_from_slice(&20u64.to_ne_bytes());
    } else {
        buf.extend_from_slice(&16u32.to_ne_bytes());
    }
    buf.extend_from_slice(&libc::IPPROTO_IPV6.to_ne_bytes());
    buf.extend_from_slice(&libc::IPV6_HOPLIMIT.to_ne_bytes());
    buf.extend_from_slice(&57i32.to_ne_bytes());
    assert_eq!(decode_hlim(&layout, &buf), Some(57));
}

#[test]
fn byte_order_of_this_machine() {
    assert_eq!(order_from_probe(1), ByteOrder::Little);
    assert_eq!(order_from_probe(256), ByteOrder::Big);
    let layout = ControlLayout::native(16).unwrap();
    let little = 0x0102u16.to_ne_bytes() == [2, 1];
    assert_eq!(layout.order == ByteOrder::Little, little);
}

#[test]
fn message_length_is_header_and_data() {
    let layout = linux64();
    assert_eq!(cmsg_len(&layout, 0), 16);
    assert_eq!(cmsg_len(&layout, 4), 20);
    assert_eq!(cmsg_len(&layout, 65_535), 65_551);
}
