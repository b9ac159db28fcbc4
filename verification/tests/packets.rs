use async_ping::echo::{EchoAction, EchoEvent, EchoRequest, IpVersion};
use async_ping::{add_icmp_header, calculate_checksum, generate_payload, PingError, Timestamp};

#[test]
fn add_icmp_header_writes_8_bytes() {
    let mut buf = Vec::new();
    add_icmp_header(&mut buf, 8, 0, 0);
    assert_eq!(buf.len(), 8);
}

#[test]
fn add_icmp_header_type_field() {
    let mut buf = Vec::new();
    add_icmp_header(&mut buf, 0x08, 0, 0);
    assert_eq!(buf[0], 0x08);
}

#[test]
fn add_icmp_header_code_is_zero() {
    let mut buf = Vec::new();
    add_icmp_header(&mut buf, 8, 0xffff, 0xffff);
    assert_eq!(buf[1], 0);
}

#[test]
fn add_icmp_header_id_big_endian() {
    let mut buf = Vec::new();
    add_icmp_header(&mut buf, 8, 0x1234, 0);
    assert_eq!(buf[4], 0x12);
    assert_eq!(buf[5], 0x34);
}

#[test]
fn add_icmp_header_seq_big_endian() {
    let mut buf = Vec::new();
    add_icmp_header(&mut buf, 8, 0, 1);
    assert_eq!(buf[6], 0);
    assert_eq!(buf[7], 1);
}

#[test]
fn add_icmp_header_appends_to_existing_content() {
    let mut buf = vec![0xde, 0xad];
    add_icmp_header(&mut buf, 8, 0, 0);
    assert_eq!(buf.len(), 10);
    assert_eq!(&buf[..2], &[0xde, 0xad]);
}

#[test]
fn header_bytes_in_full() {
    let mut buf = Vec::new();
    add_icmp_header(&mut buf, 128, 0xabcd, 0x0102);
    assert_eq!(buf, vec![128, 0, 0, 0, 0xab, 0xcd, 0x01, 0x02]);
}

#[test]
fn test_checksum() {
    // Test with known ICMP echo request header (checksum field zeroed)
    // Type=8, Code=0, Checksum=0, ID=0, Sequence=0
    let data = vec![0x08, 0x00, 0x00, 0x00, 0x00, 0x00, 0x00, 0x00];
    let checksum = calculate_checksum(&data);
    // Expected: ~(0x0800) = 0xf7ff
    assert_eq!(checksum, 0xf7ff);

    // Test with odd length data
    let data = vec![0x00, 0x01, 0x02];
    let checksum = calculate_checksum(&data);
    // Sum: 0x0001 + 0x0200 = 0x0201, ~0x0201 = 0xfdfe
    assert_eq!(checksum, 0xfdfe);
}

#[test]
fn checksum_carries_around() {
    // 0xffff + 0x0001 = 0x1_0000, folded to 0x0001
    assert_eq!(calculate_checksum(&[0xff, 0xff, 0x00, 0x01]), 0xfffe);
    // 0x8000 + 0x8000 + 0x0003 = 0x1_0003, folded to 0x0004
    assert_eq!(calculate_checksum(&[0x80, 0, 0x80, 0, 0, 3]), 0xfffb);
    // one byte is the high half of a word
    assert_eq!(calculate_checksum(&[0x01]), 0xfeff);
    // zero stays zero
    assert_eq!(calculate_checksum(&[0, 0]), 0xffff);
}

#[test]
fn checksum_of_a_long_message() {
    // More 16-bit words than a 32-bit sum of them can hold.
    let data = vec![0xffu8; 200_001];
    // 100_000 times 0xffff counts as 0xffff; 0xffff + 0xff00 folds to 0xff00
    assert_eq!(calculate_checksum(&data), 0x00ff);
}

#[test]
fn checksummed_message_verifies() {
    let mut data = vec![8, 0, 0, 0, 0x12, 0x34, 0, 9, 1, 2, 3];
    let checksum = calculate_checksum(&data);
    data[2] = (checksum >> 8) as u8;
    data[3] = (checksum & 0xff) as u8;
    assert_eq!(calculate_checksum(&data), 0);
}

#[test]
fn payload_counts_up_and_wraps() {
    assert_eq!(generate_payload(0), Vec::<u8>::new());
    assert_eq!(generate_payload(4), vec![0, 1, 2, 3]);
    let long = generate_payload(600);
    assert_eq!(long.len(), 600);
    assert_eq!(long[255], 255);
    assert_eq!(long[256], 0);
    assert_eq!(long[599], 87);
}

fn v4(id: u16, seq: u16) -> EchoRequest {
    EchoRequest { version: IpVersion::V4, id, seq }
}

fn v6(id: u16, seq: u16) -> EchoRequest {
    EchoRequest { version: IpVersion::V6, id, seq }
}

fn ip_header() -> Vec<u8> {
    let mut header = vec![0x45, 0, 0, 84, 0, 0, 0, 0, 61, 1, 0, 0];
    header.extend_from_slice(&[127, 0, 0, 1]);
    header.extend_from_slice(&[10, 0, 0, 7]);
    header
}

#[test]
fn v4_request_bytes() {
    let sent = Timestamp { nanos: 0x0102_0304_0506_0708 };
    let packet = v4(0x1234, 5).packet(sent, &[0xaa, 0xbb, 0xcc]);
    assert_eq!(packet.len(), 19);
    assert_eq!(&packet[..2], &[8, 0]);
    assert_eq!(&packet[4..8], &[0x12, 0x34, 0, 5]);
    assert_eq!(&packet[8..16], &[1, 2, 3, 4, 5, 6, 7, 8]);
    assert_eq!(&packet[16..], &[0xaa, 0xbb, 0xcc]);
    // 0800 + 1234 + 0005 + 0102 + 0304 + 0506 + 0708 + aabb + cc00 = 1a108, folded a109
    assert_eq!(&packet[2..4], &[0x5e, 0xf6]);
    assert_eq!(calculate_checksum(&packet), 0);
}

#[test]
fn v6_request_bytes() {
    let packet = v6(0x1234, 5).packet(Timestamp { nanos: 1 }, &[]);
    assert_eq!(packet, vec![128, 0, 0, 0, 0x12, 0x34, 0, 5, 0, 0, 0, 0, 0, 0, 0, 1]);
}

#[test]
fn v4_echo_round_trip() {
    let request = v4(77, 1);
    let payload = generate_payload(48);
    let mut echo = request.packet(Timestamp { nanos: 1_000 }, &payload);
    echo[0] = 0;
    let mut datagram = ip_header();
    datagram.extend_from_slice(&echo);

    assert!(request.accepts(&datagram));
    let reply = request.reply_v4(&datagram, Timestamp { nanos: 5_500 });
    assert_eq!(reply.src_addr, [127, 0, 0, 1]);
    assert_eq!(reply.len, 64);
    assert_eq!(reply.seq, 1);
    assert_eq!(reply.ttl, 61);
    assert_eq!(reply.rtt.nanos, 4_500);
}

#[test]
fn v6_echo_round_trip() {
    let request = v6(0xffff, 0x0203);
    let mut echo = request.packet(Timestamp { nanos: u64::MAX - 9 }, &[]);
    echo[0] = 129;
    assert!(request.accepts(&echo));
    let mut localhost = [0u8; 16];
    localhost[15] = 1;
    let reply = request.reply_v6(&echo, localhost, 64, Timestamp { nanos: u64::MAX });
    assert_eq!(reply.src_addr, localhost);
    assert_eq!(reply.len, 16);
    assert_eq!(reply.seq, 0x0203);
    assert_eq!(reply.hlim, 64);
    assert_eq!(reply.rtt.nanos, 9);
}

#[test]
fn clock_that_runs_backwards_gives_zero() {
    let early = Timestamp { nanos: 10 };
    let late = Timestamp { nanos: 25 };
    assert_eq!(late.since(early).nanos, 15);
    assert_eq!(early.since(late).nanos, 0);
}

#[test]
fn strays_are_not_accepted() {
    let request = v6(300, 7);
    let sent = Timestamp { nanos: 0 };
    let mut reply = request.packet(sent, &[]);
    // its own request, read back
    assert!(!request.accepts(&reply));
    reply[0] = 129;
    assert!(request.accepts(&reply));
    // another identifier, another sequence number, another family
    assert!(!v6(301, 7).accepts(&reply));
    assert!(!v6(300, 8).accepts(&reply));
    assert!(!v4(300, 7).accepts(&reply));
    // too short for a timestamp
    assert!(!request.accepts(&reply[..15]));
    assert!(!request.accepts(&[]));
}

#[test]
fn v4_needs_ip_header_and_timestamp() {
    let request = v4(1, 1);
    let mut echo = request.packet(Timestamp { nanos: 3 }, &[]);
    echo[0] = 0;
    let mut datagram = ip_header();
    datagram.extend_from_slice(&echo);
    assert_eq!(datagram.len(), 36);
    assert!(request.accepts(&datagram));
    assert!(!request.accepts(&datagram[..35]));
    assert!(!request.accepts(&echo));
}

#[test]
fn listening_goes_on_until_answer_or_timeout() {
    let request = v6(9, 2);
    let mut reply = request.packet(Timestamp { nanos: 0 }, &[]);
    assert_eq!(request.on_event(EchoEvent::Datagram(&reply)), EchoAction::Receive);
    reply[0] = 129;
    assert_eq!(request.on_event(EchoEvent::Datagram(&reply)), EchoAction::Decode);
    assert_eq!(
        request.on_event(EchoEvent::Elapsed),
        EchoAction::Fail(PingError::TimedOut)
    );
}

#[test]
fn receive_buffer_sizes() {
    assert_eq!(v4(0, 0).receive_len(56), 92);
    assert_eq!(v6(0, 0).receive_len(56), 72);
}

#[test]
fn timestamp_round_trip() {
    let t = Timestamp { nanos: 0xfedc_ba98_7654_3210 };
    assert_eq!(t.as_bytes(), [0xfe, 0xdc, 0xba, 0x98, 0x76, 0x54, 0x32, 0x10]);
    assert_eq!(Timestamp::len(), 8);
    let request = v6(0, 0);
    let mut reply = request.packet(t, &[]);
    reply[0] = 129;
    assert_eq!(request.reply_v6(&reply, [0; 16], 1, t).rtt.nanos, 0);
}

#[test]
fn error_messages() {
    assert_eq!(
        PingError::InvalidSize.message(),
        "size must be greater than 8 (timestamp bytes)"
    );
    assert_eq!(PingError::TimedOut.message(), "timed out");
}
