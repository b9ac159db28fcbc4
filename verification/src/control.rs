//! Ancillary data of received IPv6 datagrams: the hop limit.
//!
//! A socket hands ancillary data over as a buffer of control messages, each a
//! `cmsghdr` followed by its data, laid out as the C library of the system has
//! it. The layout is described by [`ControlLayout`].

use vstd::prelude::*;

verus! {

/// Order of the bytes of a number in memory.
#[derive(Clone, Copy, Debug, PartialEq, Eq, Structural)]
pub enum ByteOrder {
    /// Least significant byte first.
    Little,
    /// Most significant byte first.
    Big,
}

/// How the system lays out a control message, and by which numbers it marks one
/// that holds the hop limit of a datagram.
#[derive(Clone, Copy, Debug, PartialEq, Eq, Structural)]
pub struct ControlLayout {
    /// Byte order of the machine.
    pub order: ByteOrder,
    /// Size of a `cmsghdr`: its length field, then two 32-bit numbers.
    pub header_size: usize,
    /// Where the data of a control message starts, and the length field of a
    /// message without data.
    pub data_offset: usize,
    /// Protocol level of IPv6.
    pub level: i32,
    /// Type of a control message that holds the hop limit.
    pub hop_limit_type: i32,
}

/// Header of a control message.
#[derive(Clone, Copy, Debug, PartialEq, Eq, Structural)]
pub struct ControlHeader {
    /// Length of the message, header included.
    pub cmsg_len: u64,
    /// Protocol level that the message comes from.
    pub cmsg_level: i32,
    /// Type of the message within that level.
    pub cmsg_type: i32,
}

// ---------------------------------------------------------------------------
// Model
// ---------------------------------------------------------------------------

/// The 32-bit number at position `at`.
pub open spec fn u32_at(order: ByteOrder, s: Seq<u8>, at: int) -> u32 {
    match order {
        ByteOrder::Little => (s[at] + 0x100 * s[at + 1] + 0x1_0000 * s[at + 2] + 0x100_0000 * s[at
            + 3]) as u32,
        ByteOrder::Big => (s[at + 3] + 0x100 * s[at + 2] + 0x1_0000 * s[at + 1] + 0x100_0000
            * s[at]) as u32,
    }
}

/// The 64-bit number at position `at`.
pub open spec fn u64_at(order: ByteOrder, s: Seq<u8>, at: int) -> u64 {
    match order {
        ByteOrder::Little => (u32_at(order, s, at) + 0x1_0000_0000 * u32_at(
            order,
            s,
            at + 4,
        )) as u64,
        ByteOrder::Big => (u32_at(order, s, at + 4) + 0x1_0000_0000 * u32_at(
            order,
            s,
            at,
        )) as u64,
    }
}

/// The signed number with the same two's-complement bits.
pub open spec fn as_signed(x: u32) -> i32 {
    if x < 0x8000_0000 {
        x as i32
    } else {
        (x - 0x1_0000_0000) as i32
    }
}

impl ControlLayout {
    /// The layout is one that a `cmsghdr` can have: the length field takes four
    /// or eight bytes, and the data comes after the header, at a place that
    /// leaves room for any data of a practical size.
    pub open spec fn valid(self) -> bool {
        &&& self.header_size == 12 || self.header_size == 16
        &&& self.header_size <= self.data_offset <= usize::MAX - 0xffff
    }

    /// Length of a control message with `len` bytes of data, header included.
    pub open spec fn control_len(self, len: nat) -> nat {
        self.data_offset as nat + len
    }

    /// Header of the first control message in the buffer `s`, if the buffer is
    /// large enough to hold one.
    pub open spec fn first_header(self, s: Seq<u8>) -> Option<ControlHeader> {
        if s.len() >= self.header_size {
            Some(
                ControlHeader {
                    cmsg_len: if self.header_size == 12 {
                        u32_at(self.order, s, 0) as u64
                    } else {
                        u64_at(self.order, s, 0)
                    },
                    cmsg_level: as_signed(u32_at(self.order, s, self.header_size - 8)),
                    cmsg_type: as_signed(u32_at(self.order, s, self.header_size - 4)),
                },
            )
        } else {
            None
        }
    }

    /// `header` is that of a control message with a hop limit: an IPv6 message of
    /// the right type that holds exactly one 32-bit number.
    pub open spec fn announces_hop_limit(self, header: ControlHeader) -> bool {
        &&& header.cmsg_level == self.level
        &&& header.cmsg_type == self.hop_limit_type
        &&& header.cmsg_len == self.control_len(4)
    }

    /// The hop limit in the buffer `s`: there is one if the first control message
    /// announces it, its data is there, and the number fits in a byte.
    pub open spec fn hop_limit(self, s: Seq<u8>) -> Option<u8> {
        match self.first_header(s) {
            Some(header) => {
                let value = as_signed(u32_at(self.order, s, self.data_offset as int));
                if self.announces_hop_limit(header) && s.len() >= self.data_offset + 4 && 0 <= value
                    <= 255 {
                    Some(value as u8)
                } else {
                    None
                }
            },
            None => None,
        }
    }
}

// ---------------------------------------------------------------------------
// Decoding
// ---------------------------------------------------------------------------

fn read_u32(order: ByteOrder, buf: &[u8], at: usize) -> (x: u32)
    requires
        at + 4 <= buf.len(),
    ensures
        x == u32_at(order, buf@, at as int),
{
    let a: u32 = buf[at] as u32;
    let b: u32 = buf[at + 1] as u32;
    let c: u32 = buf[at + 2] as u32;
    let d: u32 = buf[at + 3] as u32;
    match order {
        ByteOrder::Little => a + 0x100 * b + 0x1_0000 * c + 0x100_0000 * d,
        ByteOrder::Big => d + 0x100 * c + 0x1_0000 * b + 0x100_0000 * a,
    }
}

fn read_u64(order: ByteOrder, buf: &[u8], at: usize) -> (x: u64)
    requires
        at + 8 <= buf.len(),
    ensures
        x == u64_at(order, buf@, at as int),
{
    let first: u64 = read_u32(order, buf, at) as u64;
    let second: u64 = read_u32(order, buf, at + 4) as u64;
    match order {
        ByteOrder::Little => first + 0x1_0000_0000 * second,
        ByteOrder::Big => second + 0x1_0000_0000 * first,
    }
}

fn read_i32(order: ByteOrder, buf: &[u8], at: usize) -> (x: i32)
    requires
        at + 4 <= buf.len(),
    ensures
        x == as_signed(u32_at(order, buf@, at as int)),
{
    let x: u32 = read_u32(order, buf, at);
    if x < 0x8000_0000 {
        x as i32
    } else {
        -((0xffff_ffff - x) as i32) - 1
    }
}

/// Length of a control message with `len` bytes of data, header included.
pub fn cmsg_len(layout: &ControlLayout, len: usize) -> (n: usize)
    requires
        layout.control_len(len as nat) <= usize::MAX,
    ensures
        n == layout.control_len(len as nat),
        n == layout.data_offset + len,
{
    layout.data_offset + len
}

/// Return the first control message header in `control_buf`, or `None` if
/// the buffer is too small to hold a complete header.
pub fn cmsg_firsthdr(layout: &ControlLayout, control_buf: &[u8]) -> (header: Option<ControlHeader>)
    requires
        layout.valid(),
    ensures
        header == layout.first_header(control_buf@),
{
    if control_buf.len() < layout.header_size {
        return None;
    }
    let cmsg_len: u64 = if layout.header_size == 12 {
        read_u32(layout.order, control_buf, 0) as u64
    } else {
        read_u64(layout.order, control_buf, 0)
    };
    Some(
        ControlHeader {
            cmsg_len,
            cmsg_level: read_i32(layout.order, control_buf, layout.header_size - 8),
            cmsg_type: read_i32(layout.order, control_buf, layout.header_size - 4),
        },
    )
}

/// Extract the IPv6 hop-limit ancillary data value from a `recvmsg` control buffer.
///
/// Returns `None` if the control buffer does not contain a valid
/// `IPV6_HOPLIMIT` control message.
pub fn decode_hlim(layout: &ControlLayout, control_buf: &[u8]) -> (hlim: Option<u8>)
    requires
        layout.valid(),
    ensures
        hlim == layout.hop_limit(control_buf@),
{
    match cmsg_firsthdr(layout, control_buf) {
        Some(header) => {
            if header.cmsg_level == layout.level && header.cmsg_type == layout.hop_limit_type
                && header.cmsg_len == cmsg_len(layout, 4) as u64 && control_buf.len() >= cmsg_len(
                layout,
                4,
            ) {
                let value: i32 = read_i32(layout.order, control_buf, layout.data_offset);
                if 0 <= value && value <= 255 {
                    return Some(value as u8);
                }
            }
            None
        },
        None => None,
    }
}

// ---------------------------------------------------------------------------
// The layout of this system
// ---------------------------------------------------------------------------

/// Header of a control message as the C library declares it.
#[verifier::external_type_specification]
#[verifier::external_body]
pub struct ExCmsghdr(libc::cmsghdr);

/// Protocol number of IPv6, `libc::IPPROTO_IPV6`: it is 41 on every system.
#[verifier::external_body]
fn ipproto_ipv6() -> (level: i32)
    ensures
        level == 41,
{
    libc::IPPROTO_IPV6
}

/// Type of a hop-limit control message, `libc::IPV6_HOPLIMIT`: 52 on Linux and
/// Hurd, 47 on Apple systems, FreeBSD, DragonFly and QNX, 40 on AIX, 33 on
/// Haiku, 21 on Cygwin, 12 on Solaris and illumos.
#[verifier::external_body]
fn ipv6_hoplimit() -> (typ: i32)
    ensures
        typ == 52 || typ == 47 || typ == 40 || typ == 33 || typ == 21 || typ == 12,
{
    libc::IPV6_HOPLIMIT
}

/// The number that two bytes in memory make on this machine,
/// `u16::from_ne_bytes`: the bytes are read in the order of the hardware.
#[verifier::external_body]
fn u16_from_memory(bytes: [u8; 2]) -> (x: u16)
    ensures
        x == (match vstd::endian::endianness() {
            vstd::endian::Endian::Little => bytes[0] + 0x100 * bytes[1],
            vstd::endian::Endian::Big => bytes[1] + 0x100 * bytes[0],
        }),
{
    u16::from_ne_bytes(bytes)
}

/// Byte order of the machine.
pub open spec fn native_order() -> ByteOrder {
    match vstd::endian::endianness() {
        vstd::endian::Endian::Little => ByteOrder::Little,
        vstd::endian::Endian::Big => ByteOrder::Big,
    }
}

/// Byte order of a machine on which the bytes 1 and 0 in memory make the number
/// `probe`: 1 if the first byte is the least significant one, 256 if it is the
/// most significant one.
pub fn order_from_probe(probe: u16) -> (order: ByteOrder)
    ensures
        order == (if probe == 1 {
            ByteOrder::Little
        } else {
            ByteOrder::Big
        }),
{
    if probe == 1 {
        ByteOrder::Little
    } else {
        ByteOrder::Big
    }
}

impl ControlLayout {
    /// `layout` is one that the system may have, given where it puts the data of
    /// a control message.
    pub open spec fn may_be_native(self, data_offset: usize) -> bool {
        &&& self.order == native_order()
        &&& self.header_size == vstd::layout::size_of::<libc::cmsghdr>()
        &&& self.data_offset == data_offset
        &&& self.level == 41
        &&& {
            ||| self.hop_limit_type == 52
            ||| self.hop_limit_type == 47
            ||| self.hop_limit_type == 40
            ||| self.hop_limit_type == 33
            ||| self.hop_limit_type == 21
            ||| self.hop_limit_type == 12
        }
    }

    /// The layout of this system, where a control message without data has the
    /// length `data_offset`. There is none when that length has no room for a
    /// header or none behind it, or when the header is not one of the known forms.
    pub fn native(data_offset: usize) -> (layout: Option<ControlLayout>)
        ensures
            layout is Some <==> {
                let size = vstd::layout::size_of::<libc::cmsghdr>();
                (size == 12 || size == 16) && size <= data_offset <= usize::MAX - 0xffff
            },
            layout matches Some(l) ==> l.valid() && l.may_be_native(data_offset),
            layout matches Some(l) ==> {
                &&& l.order == ByteOrder::Little <==> vstd::endian::endianness()
                    == vstd::endian::Endian::Little
                &&& l.header_size == vstd::layout::size_of::<libc::cmsghdr>()
                &&& l.data_offset == data_offset
                &&& l.level == 41
            },
    {
        let header_size: usize = core::mem::size_of::<libc::cmsghdr>();
        if (header_size != 12 && header_size != 16) || data_offset < header_size || data_offset
            > usize::MAX - 0xffff {
            return None;
        }
        let order = order_from_probe(u16_from_memory([1, 0]));
        Some(
            ControlLayout {
                order,
                header_size,
                data_offset,
                level: ipproto_ipv6(),
                hop_limit_type: ipv6_hoplimit(),
            },
        )
    }
}

// ---------------------------------------------------------------------------
// Laws
// ---------------------------------------------------------------------------

/// A control message is as long as one without data and its data together, with
/// no padding at the end, and one without data has room for the header. Any data
/// of up to 65535 bytes has a length that `cmsg_len` can give.
pub proof fn law_control_message_length(layout: ControlLayout, len: nat)
    requires
        layout.valid(),
        len <= 0xffff,
    ensures
        layout.control_len(0) == layout.data_offset,
        layout.control_len(len) == layout.control_len(0) + len,
        layout.control_len(0) >= layout.header_size,
        layout.control_len(len) <= usize::MAX,
{
}

/// A 32-bit number as it stands in memory.
#[verifier::opaque]
pub open spec fn u32_bytes(order: ByteOrder, x: u32) -> Seq<u8> {
    let a = (x % 0x100) as u8;
    let b = (x / 0x100 % 0x100) as u8;
    let c = (x / 0x1_0000 % 0x100) as u8;
    let d = (x / 0x100_0000) as u8;
    match order {
        ByteOrder::Little => seq![a, b, c, d],
        ByteOrder::Big => seq![d, c, b, a],
    }
}

/// A 64-bit number as it stands in memory.
pub open spec fn u64_bytes(order: ByteOrder, x: u64) -> Seq<u8> {
    let low = u32_bytes(order, (x % 0x1_0000_0000) as u32);
    let high = u32_bytes(order, (x / 0x1_0000_0000) as u32);
    match order {
        ByteOrder::Little => low + high,
        ByteOrder::Big => high + low,
    }
}

/// The unsigned number with the same two's-complement bits.
pub open spec fn as_unsigned(x: i32) -> u32 {
    if x >= 0 {
        x as u32
    } else {
        (x + 0x1_0000_0000) as u32
    }
}

impl ControlLayout {
    /// A control message that holds the hop limit `value`, with `padding` between
    /// the header and the data.
    pub open spec fn hop_limit_message(self, value: i32, padding: Seq<u8>) -> Seq<u8> {
        let len = (self.data_offset + 4) as u64;
        let len_field = if self.header_size == 12 {
            u32_bytes(self.order, len as u32)
        } else {
            u64_bytes(self.order, len)
        };
        len_field + u32_bytes(self.order, as_unsigned(self.level)) + u32_bytes(
            self.order,
            as_unsigned(self.hop_limit_type),
        ) + padding + u32_bytes(self.order, as_unsigned(value))
    }
}

/// A 32-bit number takes four bytes.
proof fn lemma_u32_bytes_len(order: ByteOrder, x: u32)
    ensures
        u32_bytes(order, x).len() == 4,
{
    reveal(u32_bytes);
}

/// A 32-bit number is read back from where its bytes stand.
proof fn lemma_u32_at(order: ByteOrder, s: Seq<u8>, at: int, x: u32)
    requires
        0 <= at,
        at + 4 <= s.len(),
        s.subrange(at, at + 4) == u32_bytes(order, x),
    ensures
        u32_at(order, s, at) == x,
{
    reveal(u32_bytes);
    let t = s.subrange(at, at + 4);
    assert(s[at] == t[0] && s[at + 1] == t[1] && s[at + 2] == t[2] && s[at + 3] == t[3]);
    assert(x == x % 0x100 + 0x100 * (x / 0x100 % 0x100) + 0x1_0000 * (x / 0x1_0000 % 0x100)
        + 0x100_0000 * (x / 0x100_0000) && x / 0x100_0000 < 0x100) by (bit_vector);
}

/// The hop limit that a system puts into the first control message is read back
/// from it, whatever follows; a number that is no hop limit, because it does not
/// fit in a byte, is refused.
pub proof fn law_hop_limit_is_read_back(
    layout: ControlLayout,
    value: i32,
    padding: Seq<u8>,
    rest: Seq<u8>,
)
    requires
        layout.valid(),
        layout.header_size == 12 ==> layout.data_offset + 4 <= u32::MAX,
        padding.len() == layout.data_offset - layout.header_size,
    ensures
        layout.hop_limit(layout.hop_limit_message(value, padding) + rest) == (if 0 <= value
            <= 255 {
            Some(value as u8)
        } else {
            None::<u8>
        }),
{
    let order = layout.order;
    let size = layout.header_size as int;
    let at = layout.data_offset as int;
    let len = (layout.data_offset + 4) as u64;
    let len_field = if size == 12 {
        u32_bytes(order, len as u32)
    } else {
        u64_bytes(order, len)
    };
    let level = u32_bytes(order, as_unsigned(layout.level));
    let typ = u32_bytes(order, as_unsigned(layout.hop_limit_type));
    let data = u32_bytes(order, as_unsigned(value));
    let s = layout.hop_limit_message(value, padding) + rest;
    lemma_u32_bytes_len(order, len as u32);
    lemma_u32_bytes_len(order, (len % 0x1_0000_0000) as u32);
    lemma_u32_bytes_len(order, (len / 0x1_0000_0000) as u32);
    lemma_u32_bytes_len(order, as_unsigned(layout.level));
    lemma_u32_bytes_len(order, as_unsigned(layout.hop_limit_type));
    lemma_u32_bytes_len(order, as_unsigned(value));
    lemma_parts(len_field, level, typ, padding, data, rest);
    lemma_len_field(layout, s, len);
    lemma_u32_at(order, s, size - 8, as_unsigned(layout.level));
    lemma_u32_at(order, s, size - 4, as_unsigned(layout.hop_limit_type));
    lemma_u32_at(order, s, at, as_unsigned(value));
}

/// The parts of a concatenation stand where they were put.
proof fn lemma_parts(
    a: Seq<u8>,
    b: Seq<u8>,
    c: Seq<u8>,
    d: Seq<u8>,
    e: Seq<u8>,
    f: Seq<u8>,
)
    requires
        b.len() == 4,
        c.len() == 4,
        e.len() == 4,
    ensures
        ({
            let s = a + b + c + d + e + f;
            let n = a.len() as int;
            let m = n + 8 + d.len();
            &&& s.len() == m + 4 + f.len()
            &&& s.subrange(0, n) == a
            &&& s.subrange(n, n + 4) == b
            &&& s.subrange(n + 4, n + 8) == c
            &&& s.subrange(m, m + 4) == e
        }),
{
    let s = a + b + c + d + e + f;
    let n = a.len() as int;
    let m = n + 8 + d.len();
    assert(s.subrange(0, n) =~= a);
    assert(s.subrange(n, n + 4) =~= b);
    assert(s.subrange(n + 4, n + 8) =~= c);
    assert(s.subrange(m, m + 4) =~= e);
}

/// The length field of a header is read back.
proof fn lemma_len_field(layout: ControlLayout, s: Seq<u8>, len: u64)
    requires
        layout.valid(),
        s.len() >= layout.header_size,
        layout.header_size == 12 ==> len <= u32::MAX && s.subrange(0, 4) == u32_bytes(
            layout.order,
            len as u32,
        ),
        layout.header_size == 16 ==> s.subrange(0, 8) == u64_bytes(layout.order, len),
    ensures
        layout.first_header(s) matches Some(header) && header.cmsg_len == len,
{
    let order = layout.order;
    if layout.header_size == 12 {
        lemma_u32_at(order, s, 0, len as u32);
    } else {
        let low = (len % 0x1_0000_0000) as u32;
        let high = (len / 0x1_0000_0000) as u32;
        let first = if order == ByteOrder::Little {
            low
        } else {
            high
        };
        let second = if order == ByteOrder::Little {
            high
        } else {
            low
        };
        let t = s.subrange(0, 8);
        lemma_u32_bytes_len(order, first);
        lemma_u32_bytes_len(order, second);
        assert(t == u32_bytes(order, first) + u32_bytes(order, second));
        assert(s.subrange(0, 4) =~= t.subrange(0, 4));
        assert(s.subrange(4, 8) =~= t.subrange(4, 8));
        assert(t.subrange(0, 4) =~= u32_bytes(order, first));
        assert(t.subrange(4, 8) =~= u32_bytes(order, second));
        lemma_u32_at(order, s, 0, first);
        lemma_u32_at(order, s, 4, second);
    }
}

/// The header of a control message is there when its bytes are, and its fields are
/// what these bytes make in the byte order of the machine: a length of four or
/// eight bytes, then two signed numbers of four bytes. `digit(at, width, j)` is
/// the `j`-th digit in base 256, from the least significant, of the field of
/// `width` bytes at `at`.
pub proof fn law_header_bytes(layout: ControlLayout, s: Seq<u8>)
    requires
        layout.valid(),
    ensures
        layout.header_size == 12 || layout.header_size == 16,
        layout.header_size <= layout.data_offset,
        layout.first_header(s) is Some <==> s.len() >= layout.header_size,
        layout.first_header(s) matches Some(h) ==> {
            let w = layout.header_size - 8;
            let digit = |at: int, width: int, j: int|
                if layout.order == ByteOrder::Little {
                    s[at + j] as int
                } else {
                    s[at + width - 1 - j] as int
                };
            let number = |at: int, width: int|
                digit(at, width, 0) + 0x100 * digit(at, width, 1) + 0x1_0000 * digit(at, width, 2)
                    + 0x100_0000 * digit(at, width, 3);
            let upper = 0x1_0000_0000 * (digit(0, 8, 4) + 0x100 * digit(0, 8, 5) + 0x1_0000 * digit(
                0,
                8,
                6,
            ) + 0x100_0000 * digit(0, 8, 7));
            &&& h.cmsg_len == number(0, w) + (if w == 8 {
                upper
            } else {
                0
            })
            &&& (h.cmsg_level - number(w, 4)) % 0x1_0000_0000 == 0
            &&& (h.cmsg_type - number(w + 4, 4)) % 0x1_0000_0000 == 0
        },
{
}

/// A hop limit is found if and only if the buffer starts with a header that gives
/// the length of a message with four bytes of data, the level and the type of a
/// hop limit, the four bytes are there, and the number in them is that hop limit.
/// `digit(at, width, j)` is as in [`law_header_bytes`].
pub proof fn law_hop_limit_bytes(layout: ControlLayout, s: Seq<u8>, hlim: u8)
    requires
        layout.valid(),
    ensures
        ({
            let w = layout.header_size - 8;
            let at = layout.data_offset as int;
            let digit = |at: int, width: int, j: int|
                if layout.order == ByteOrder::Little {
                    s[at + j] as int
                } else {
                    s[at + width - 1 - j] as int
                };
            let number = |at: int, width: int|
                digit(at, width, 0) + 0x100 * digit(at, width, 1) + 0x1_0000 * digit(at, width, 2)
                    + 0x100_0000 * digit(at, width, 3);
            let upper = 0x1_0000_0000 * (digit(0, 8, 4) + 0x100 * digit(0, 8, 5) + 0x1_0000 * digit(
                0,
                8,
                6,
            ) + 0x100_0000 * digit(0, 8, 7));
            layout.hop_limit(s) == Some(hlim) <==> {
                &&& s.len() >= at + 4
                &&& at + 4 == number(0, w) + (if w == 8 {
                    upper
                } else {
                    0
                })
                &&& (layout.level - number(w, 4)) % 0x1_0000_0000 == 0
                &&& (layout.hop_limit_type - number(w + 4, 4)) % 0x1_0000_0000 == 0
                &&& number(at, 4) == hlim
            }
        }),
{
    law_header_bytes(layout, s);
}

} // verus!
