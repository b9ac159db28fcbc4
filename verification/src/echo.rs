//! Echo requests and the replies that answer them.

use vstd::prelude::*;

use crate::bytes::{
    be_u16, high_byte, join_u16, law_bytes_of_a_number, lemma_split_join, low_byte, split_u16,
};
use crate::checksum::{
    calculate_checksum, internet_checksum, law_checksum_complements_the_words,
    law_checksummed_message_verifies,
};
use crate::error::PingError;
use crate::time::{
    decoded_timestamp, law_timestamp_bytes, law_timestamp_round_trip, Duration, Timestamp,
};

verus! {

/// Bytes of the IP header in front of a message read from an IPv4 raw socket.
pub const IP_HEADER_SIZE: usize = 20;

/// Bytes of an ICMP or ICMPv6 echo header.
pub const ICMP_HEADER_SIZE: usize = 8;

/// Message type of an ICMP echo request.
pub const ICMP_ECHO_REQUEST: u8 = 8;

/// Message type of an ICMP echo reply.
pub const ICMP_ECHO_REPLY: u8 = 0;

/// Message type of an ICMPv6 echo request.
pub const ICMP6_ECHO_REQUEST: u8 = 128;

/// Message type of an ICMPv6 echo reply.
pub const ICMP6_ECHO_REPLY: u8 = 129;

/// Generate a ping payload
pub fn generate_payload(size: usize) -> (payload: Vec<u8>)
    ensures
        payload@ == payload_bytes(size as nat),
        payload@.len() == size,
        forall|i: int| 0 <= i < size ==> #[trigger] payload@[i] as int == i % 256,
{
    let mut payload: Vec<u8> = Vec::new();
    let mut i: usize = 0;
    while i < size
        invariant
            i <= size,
            payload@ == payload_bytes(i as nat),
        decreases size - i,
    {
        payload.push((i % 256) as u8);
        i = i + 1;
    }
    payload
}

/// Filler of the given size: the bytes count up from zero and wrap around.
pub open spec fn payload_bytes(size: nat) -> Seq<u8> {
    Seq::new(size, |i: int| (i % 256) as u8)
}

/// An echo header: type, code zero, checksum, identifier and sequence number,
/// the latter three in network byte order.
pub open spec fn echo_header(typ: u8, checksum: u16, id: u16, seq: u16) -> Seq<u8> {
    seq![
        typ,
        0u8,
        high_byte(checksum),
        low_byte(checksum),
        high_byte(id),
        low_byte(id),
        high_byte(seq),
        low_byte(seq),
    ]
}

/// Append an 8-byte ICMP/ICMPv6 echo-request header to `buf`.
///
/// The checksum field is written as `0x0000` and must be filled in by the
/// caller after the full packet is assembled.
pub fn add_icmp_header(buf: &mut Vec<u8>, typ: u8, id: u16, seq: u16)
    ensures
        final(buf)@ == old(buf)@ + echo_header(typ, 0, id, seq),
        ({
            let b = final(buf)@;
            let n = b.len() - 8;
            &&& n == old(buf)@.len()
            &&& b.take(n) == old(buf)@
            &&& b[n] == typ
            &&& b[n + 1] == 0 && b[n + 2] == 0 && b[n + 3] == 0
            &&& 256 * b[n + 4] + b[n + 5] == id
            &&& 256 * b[n + 6] + b[n + 7] == seq
        }),
{
    let (id_high, id_low) = split_u16(id);
    let (seq_high, seq_low) = split_u16(seq);
    buf.push(typ);
    buf.push(0);
    buf.push(0);
    buf.push(0);
    buf.push(id_high);
    buf.push(id_low);
    buf.push(seq_high);
    buf.push(seq_low);
}

/// The two address families, each with its own flavour of ICMP.
#[derive(Clone, Copy, Debug, PartialEq, Eq, Structural)]
pub enum IpVersion {
    V4,
    V6,
}

impl IpVersion {
    /// Where the ICMP message starts in what a raw socket of this family reads:
    /// an IPv4 socket delivers the IP header too.
    pub open spec fn message_offset(self) -> nat {
        match self {
            IpVersion::V4 => 20,
            IpVersion::V6 => 0,
        }
    }

    /// Type of an echo request.
    pub open spec fn request_type(self) -> u8 {
        match self {
            IpVersion::V4 => 8,
            IpVersion::V6 => 128,
        }
    }

    /// Type of an echo reply.
    pub open spec fn reply_type(self) -> u8 {
        match self {
            IpVersion::V4 => 0,
            IpVersion::V6 => 129,
        }
    }

    /// The sequence number in the echo message that `datagram` holds.
    pub open spec fn echoed_seq(self, datagram: Seq<u8>) -> u16 {
        let at = self.message_offset() as int;
        be_u16(datagram[at + 6], datagram[at + 7])
    }

    /// The identifier in the echo message that `datagram` holds.
    pub open spec fn echoed_id(self, datagram: Seq<u8>) -> u16 {
        let at = self.message_offset() as int;
        be_u16(datagram[at + 4], datagram[at + 5])
    }

    /// The send timestamp in the echo message that `datagram` holds.
    pub open spec fn echoed_timestamp(self, datagram: Seq<u8>) -> Timestamp {
        let at = self.message_offset() as int;
        decoded_timestamp(datagram.subrange(at + 8, at + 16))
    }

    /// Length of the ICMP message that `datagram` holds.
    pub open spec fn message_len(self, datagram: Seq<u8>) -> int {
        datagram.len() - self.message_offset()
    }

    fn offset(self) -> (n: usize)
        ensures
            n == self.message_offset(),
    {
        match self {
            IpVersion::V4 => IP_HEADER_SIZE,
            IpVersion::V6 => 0,
        }
    }
}

/// The result of a successful ICMPv4 echo (ping) exchange.
#[derive(Clone, Copy, Debug)]
pub struct IcmpEchoReply {
    /// Source IPv4 address of the host that sent the echo reply.
    pub src_addr: [u8; 4],
    /// Total byte length of the received ICMP message (header + payload).
    pub len: usize,
    /// Sequence number echoed back by the remote host.
    pub seq: u16,
    /// Time-to-live value from the IP header of the reply.
    pub ttl: u8,
    /// Round-trip time measured from request transmission to reply receipt.
    pub rtt: Duration,
}

/// The result of a successful ICMPv6 echo (ping) exchange.
#[derive(Clone, Copy, Debug)]
pub struct IcmpV6EchoReply {
    /// Source IPv6 address of the host that sent the echo reply.
    pub src_addr: [u8; 16],
    /// Total byte length of the received ICMPv6 message (header + payload).
    pub len: usize,
    /// Sequence number echoed back by the remote host.
    pub seq: u16,
    /// Hop limit (analogous to TTL) from the received IPv6 packet.
    pub hlim: u8,
    /// Round-trip time measured from request transmission to reply receipt.
    pub rtt: Duration,
}

/// Something that happens while an exchange waits for its reply.
pub enum EchoEvent<'a> {
    /// The socket delivered a datagram.
    Datagram(&'a [u8]),
    /// The time to wait for a reply has elapsed.
    Elapsed,
}

/// [`EchoEvent`] with the bytes as a sequence.
pub enum Heard {
    Datagram(Seq<u8>),
    Elapsed,
}

impl<'a> View for EchoEvent<'a> {
    type V = Heard;

    open spec fn view(&self) -> Heard {
        match self {
            EchoEvent::Datagram(bytes) => Heard::Datagram(bytes@),
            EchoEvent::Elapsed => Heard::Elapsed,
        }
    }
}

/// What an exchange does next.
#[derive(Clone, Copy, Debug, PartialEq, Eq, Structural)]
pub enum EchoAction {
    /// Read another datagram.
    Receive,
    /// The datagram just read is the reply: decode it and return.
    Decode,
    /// Give up with this error.
    Fail(PingError),
}

/// One echo request: the family it is sent over and what identifies it.
#[derive(Clone, Copy, Debug, PartialEq, Eq, Structural)]
pub struct EchoRequest {
    /// Address family of the socket.
    pub version: IpVersion,
    /// Identifier of this request.
    pub id: u16,
    /// Sequence number of this request.
    pub seq: u16,
}

impl EchoRequest {
    /// The request with a zero checksum field: header, send timestamp, payload.
    pub open spec fn unsummed_packet(self, sent: Timestamp, payload: Seq<u8>) -> Seq<u8> {
        echo_header(self.version.request_type(), 0, self.id, self.seq) + sent.encoded() + payload
    }

    /// The request as it is handed to the socket. The checksum of an ICMPv6
    /// message covers the IP addresses too and is left to the kernel.
    pub open spec fn wire_packet(self, sent: Timestamp, payload: Seq<u8>) -> Seq<u8> {
        match self.version {
            IpVersion::V4 => {
                let checksum = internet_checksum(self.unsummed_packet(sent, payload));
                echo_header(self.version.request_type(), checksum, self.id, self.seq)
                    + sent.encoded() + payload
            },
            IpVersion::V6 => self.unsummed_packet(sent, payload),
        }
    }

    /// `datagram` holds the reply to this request: it is long enough for a
    /// header and a timestamp, and type, identifier and sequence number match.
    pub open spec fn is_answered_by(self, datagram: Seq<u8>) -> bool {
        let at = self.version.message_offset() as int;
        &&& datagram.len() >= at + 16
        &&& datagram[at] == self.version.reply_type()
        &&& self.version.echoed_id(datagram) == self.id
        &&& self.version.echoed_seq(datagram) == self.seq
    }

    /// What the exchange does when `heard` happens.
    pub open spec fn reaction(self, heard: Heard) -> EchoAction {
        match heard {
            Heard::Datagram(datagram) => if self.is_answered_by(datagram) {
                EchoAction::Decode
            } else {
                EchoAction::Receive
            },
            Heard::Elapsed => EchoAction::Fail(PingError::TimedOut),
        }
    }

    /// Build the echo request with its embedded timestamp, ready to be sent.
    pub fn packet(&self, sent: Timestamp, payload: &[u8]) -> (packet: Vec<u8>)
        ensures
            packet@ == self.wire_packet(sent, payload@),
    {
        let typ: u8 = match self.version {
            IpVersion::V4 => ICMP_ECHO_REQUEST,
            IpVersion::V6 => ICMP6_ECHO_REQUEST,
        };
        let mut buf: Vec<u8> = Vec::new();
        add_icmp_header(&mut buf, typ, self.id, self.seq);
        buf.extend_from_slice(&sent.as_bytes());
        buf.extend_from_slice(payload);
        assert(buf@ =~= self.unsummed_packet(sent, payload@));
        match self.version {
            IpVersion::V4 => {
                let (high, low) = split_u16(calculate_checksum(&buf));
                buf[2] = high;
                buf[3] = low;
            },
            IpVersion::V6 => {},
        }
        buf
    }

    /// Size of a buffer that takes the reply to a request with `payload_len`
    /// bytes of application data, as the socket delivers it.
    pub fn receive_len(&self, payload_len: usize) -> (n: usize)
        requires
            self.version.message_offset() + 16 + payload_len <= usize::MAX,
        ensures
            n == self.version.message_offset() + 16 + payload_len,
            self.version == IpVersion::V4 ==> n == 36 + payload_len,
            self.version == IpVersion::V6 ==> n == 16 + payload_len,
    {
        self.version.offset() + ICMP_HEADER_SIZE + Timestamp::len() + payload_len
    }

    /// Whether `datagram` holds the reply to this request.
    pub fn accepts(&self, datagram: &[u8]) -> (accepted: bool)
        ensures
            accepted == self.is_answered_by(datagram@),
    {
        let at: usize = self.version.offset();
        if datagram.len() < at + ICMP_HEADER_SIZE + Timestamp::len() {
            return false;
        }
        let typ: u8 = match self.version {
            IpVersion::V4 => ICMP_ECHO_REPLY,
            IpVersion::V6 => ICMP6_ECHO_REPLY,
        };
        datagram[at] == typ && join_u16(datagram[at + 4], datagram[at + 5]) == self.id && join_u16(
            datagram[at + 6],
            datagram[at + 7],
        ) == self.seq
    }

    /// Decide what the exchange does when `event` happens: go on listening,
    /// decode the reply that has come, or fail because time is up.
    pub fn on_event(&self, event: EchoEvent<'_>) -> (action: EchoAction)
        ensures
            action == self.reaction(event@),
    {
        match event {
            EchoEvent::Datagram(datagram) => if self.accepts(datagram) {
                EchoAction::Decode
            } else {
                EchoAction::Receive
            },
            EchoEvent::Elapsed => EchoAction::Fail(PingError::TimedOut),
        }
    }

    /// Decode the reply in an accepted IPv4 datagram that was read at `now`.
    pub fn reply_v4(&self, datagram: &[u8], now: Timestamp) -> (reply: IcmpEchoReply)
        requires
            self.version == IpVersion::V4,
            self.is_answered_by(datagram@),
        ensures
            reply.src_addr@ == datagram@.subrange(12, 16),
            reply.len == self.version.message_len(datagram@),
            reply.seq == self.seq,
            reply.ttl == datagram@[8],
            reply.rtt == now.spec_since(self.version.echoed_timestamp(datagram@)),
            reply.len == datagram@.len() - 20,
            256 * datagram@[26] + datagram@[27] == reply.seq,
            ({
                let d = datagram@;
                let sent = d[35] + 0x100 * (d[34] + 0x100 * (d[33] + 0x100 * (d[32] + 0x100 * (d[31] + 0x100 * (d[30] + 0x100 * (d[29] + 0x100 * d[28]))))));
                &&& sent <= now.nanos ==> reply.rtt.nanos + sent == now.nanos
                &&& sent > now.nanos ==> reply.rtt.nanos == 0
            }),
    {
        let sent = Timestamp::read_at(datagram, IP_HEADER_SIZE + ICMP_HEADER_SIZE);
        IcmpEchoReply {
            src_addr: [datagram[12], datagram[13], datagram[14], datagram[15]],
            len: datagram.len() - IP_HEADER_SIZE,
            seq: join_u16(datagram[IP_HEADER_SIZE + 6], datagram[IP_HEADER_SIZE + 7]),
            ttl: datagram[8],
            rtt: now.since(sent),
        }
    }

    /// Decode the reply in an accepted IPv6 datagram that was read at `now`. The
    /// source address and the hop limit come with the datagram, not in it.
    pub fn reply_v6(
        &self,
        datagram: &[u8],
        src_addr: [u8; 16],
        hlim: u8,
        now: Timestamp,
    ) -> (reply: IcmpV6EchoReply)
        requires
            self.version == IpVersion::V6,
            self.is_answered_by(datagram@),
        ensures
            reply.src_addr == src_addr,
            reply.len == self.version.message_len(datagram@),
            reply.seq == self.seq,
            reply.hlim == hlim,
            reply.rtt == now.spec_since(self.version.echoed_timestamp(datagram@)),
            reply.len == datagram@.len(),
            256 * datagram@[6] + datagram@[7] == reply.seq,
            ({
                let d = datagram@;
                let sent = d[15] + 0x100 * (d[14] + 0x100 * (d[13] + 0x100 * (d[12] + 0x100 * (d[11] + 0x100 * (d[10] + 0x100 * (d[9] + 0x100 * d[8]))))));
                &&& sent <= now.nanos ==> reply.rtt.nanos + sent == now.nanos
                &&& sent > now.nanos ==> reply.rtt.nanos == 0
            }),
    {
        let sent = Timestamp::read_at(datagram, ICMP_HEADER_SIZE);
        IcmpV6EchoReply {
            src_addr,
            len: datagram.len(),
            seq: join_u16(datagram[6], datagram[7]),
            hlim,
            rtt: now.since(sent),
        }
    }
}

// ---------------------------------------------------------------------------
// Laws
// ---------------------------------------------------------------------------

/// What a host sends back for an echo request: the same message with the type
/// of a reply and a checksum of its own.
pub open spec fn echo_of(version: IpVersion, packet: Seq<u8>, checksum: u16) -> Seq<u8> {
    packet.update(0, version.reply_type()).update(2, high_byte(checksum)).update(
        3,
        low_byte(checksum),
    )
}

/// The echo of a request, behind whatever IP header the socket delivers, is
/// accepted as its reply. What the reply is decoded from is the request's
/// sequence number, the time at which it was sent, its own length, and, over
/// IPv4, the source address and the time to live in the IP header.
pub proof fn law_echo_is_answer(
    request: EchoRequest,
    sent: Timestamp,
    payload: Seq<u8>,
    ip_header: Seq<u8>,
    checksum: u16,
)
    requires
        ip_header.len() == request.version.message_offset(),
    ensures
        ({
            let packet = request.wire_packet(sent, payload);
            let datagram = ip_header + echo_of(request.version, packet, checksum);
            &&& request.is_answered_by(datagram)
            &&& request.version.echoed_seq(datagram) == request.seq
            &&& request.version.echoed_timestamp(datagram) == sent
            &&& request.version.message_len(datagram) == packet.len() == 16 + payload.len()
            &&& request.version == IpVersion::V4 ==> datagram.subrange(12, 16)
                == ip_header.subrange(12, 16) && datagram[8] == ip_header[8]
        }),
{
    let packet = request.wire_packet(sent, payload);
    let datagram = ip_header + echo_of(request.version, packet, checksum);
    let at = request.version.message_offset() as int;
    assert(datagram.subrange(at + 8, at + 16) =~= sent.encoded());
    assert(request.version == IpVersion::V4 ==> datagram.subrange(12, 16) =~= ip_header.subrange(
        12,
        16,
    ));
    law_timestamp_round_trip(sent);
    lemma_split_join(request.id);
    lemma_split_join(request.seq);
}

/// A request that a socket reads back, as on the loopback interface, is not
/// taken for a reply, neither its own nor that of another request.
pub proof fn law_request_is_no_answer(
    request: EchoRequest,
    other: EchoRequest,
    sent: Timestamp,
    payload: Seq<u8>,
    ip_header: Seq<u8>,
)
    requires
        request.version == other.version,
        ip_header.len() == request.version.message_offset(),
    ensures
        !other.is_answered_by(ip_header + request.wire_packet(sent, payload)),
{
    let at = request.version.message_offset() as int;
    let datagram = ip_header + request.wire_packet(sent, payload);
    assert(datagram[at] == request.version.request_type());
}

/// A datagram answers at most one request of its address family.
pub proof fn law_answer_is_unambiguous(a: EchoRequest, b: EchoRequest, datagram: Seq<u8>)
    requires
        a.version == b.version,
        a.is_answered_by(datagram),
        b.is_answered_by(datagram),
    ensures
        a == b,
{
}

/// Every IPv4 request leaves with a valid checksum: taken over the whole
/// message it is zero.
pub proof fn law_packet_checksum_verifies(request: EchoRequest, sent: Timestamp, payload: Seq<u8>)
    requires
        request.version == IpVersion::V4,
    ensures
        internet_checksum(request.wire_packet(sent, payload)) == 0,
{
    let blank = request.unsummed_packet(sent, payload);
    let checksum = internet_checksum(blank);
    law_checksummed_message_verifies(blank, 2);
    assert(request.wire_packet(sent, payload) =~= blank.update(2, high_byte(checksum)).update(
        3,
        low_byte(checksum),
    ));
}

/// The action that a whole series of happenings leads to: the first one that is
/// not a stray datagram decides.
pub open spec fn listen(request: EchoRequest, heard: Seq<Heard>) -> EchoAction
    decreases heard.len(),
{
    if heard.len() == 0 {
        EchoAction::Receive
    } else if request.reaction(heard[0]) == EchoAction::Receive {
        listen(request, heard.drop_first())
    } else {
        request.reaction(heard[0])
    }
}

/// An exchange listens past any number of datagrams that do not answer its
/// request. It ends with the first that does, or, if none came before time is
/// up, with a timeout.
pub proof fn law_listen_until_answer_or_timeout(request: EchoRequest, heard: Seq<Heard>, k: int)
    requires
        0 <= k < heard.len(),
        forall|i: int|
            0 <= i < k ==> (#[trigger] heard[i] matches Heard::Datagram(d)
                && !request.is_answered_by(d)),
        heard[k] matches Heard::Datagram(d) ==> request.is_answered_by(d),
    ensures
        listen(request, heard) == match heard[k] {
            Heard::Datagram(_) => EchoAction::Decode,
            Heard::Elapsed => EchoAction::Fail(PingError::TimedOut),
        },
    decreases k,
{
    if k > 0 {
        let rest = heard.drop_first();
        assert(heard[0] matches Heard::Datagram(d) && !request.is_answered_by(d));
        assert forall|i: int| 0 <= i < k - 1 implies (#[trigger] rest[i] matches Heard::Datagram(d)
            && !request.is_answered_by(d)) by {
            assert(rest[i] == heard[i + 1]);
        }
        law_listen_until_answer_or_timeout(request, rest, k - 1);
    }
}

/// The filler is as long as asked for, and its bytes count up from zero, starting
/// over after 255.
pub proof fn law_filler_counts_up(size: nat)
    ensures
        payload_bytes(size).len() == size,
        forall|i: int| 0 <= i < size ==> #[trigger] payload_bytes(size)[i] as int == i % 256,
{
}

/// The fields of an echo header stand at their places: type, a zero code,
/// checksum, identifier, sequence number.
pub proof fn law_header_fields(typ: u8, checksum: u16, id: u16, seq: u16)
    ensures
        ({
            let h = echo_header(typ, checksum, id, seq);
            &&& h.len() == 8
            &&& h[0] == typ
            &&& h[1] == 0
            &&& 256 * h[2] + h[3] == checksum
            &&& 256 * h[4] + h[5] == id
            &&& 256 * h[6] + h[7] == seq
        }),
{
}

/// A request on the wire, over either family, is an echo request with its
/// identifier and sequence number, then the time at which it was sent, then the
/// payload of the caller, byte for byte, and nothing more. Over IPv6 the checksum
/// field is zero.
pub proof fn law_packet_layout(request: EchoRequest, sent: Timestamp, payload: Seq<u8>)
    ensures
        ({
            let p = request.wire_packet(sent, payload);
            &&& p.len() == 16 + payload.len()
            &&& request.version == IpVersion::V4 ==> p[0] == 8
            &&& request.version == IpVersion::V6 ==> p[0] == 128 && p[2] == 0 && p[3] == 0
            &&& p[1] == 0
            &&& 256 * p[4] + p[5] == request.id
            &&& 256 * p[6] + p[7] == request.seq
            &&& sent.nanos as int == p[15] + 0x100 * (p[14] + 0x100 * (p[13] + 0x100 * (p[12]
                + 0x100 * (p[11] + 0x100 * (p[10] + 0x100 * (p[9] + 0x100 * p[8]))))))
            &&& p.subrange(16, p.len() as int) == payload
        }),
{
    let p = request.wire_packet(sent, payload);
    law_timestamp_bytes(sent, payload);
    assert(forall|i: int| 0 <= i < 8 ==> p[8 + i] == #[trigger] sent.encoded()[i]);
    assert(p[8] == sent.encoded()[0] && p[9] == sent.encoded()[1] && p[10] == sent.encoded()[2]
        && p[11] == sent.encoded()[3] && p[12] == sent.encoded()[4] && p[13] == sent.encoded()[5]
        && p[14] == sent.encoded()[6] && p[15] == sent.encoded()[7]);
    assert(p.subrange(16, p.len() as int) =~= payload);
}

/// The 16-bit words of an IPv4 request add up to a multiple of `0xffff`, as a
/// receiver checks, and the checksum among them is not `0xffff`.
pub proof fn law_packet_words_add_up(request: EchoRequest, sent: Timestamp, payload: Seq<u8>)
    requires
        request.version == IpVersion::V4,
    ensures
        ({
            let p = request.wire_packet(sent, payload);
            let words = Seq::new(
                ((p.len() + 1) / 2) as nat,
                |i: int|
                    256 * p[2 * i] + (if 2 * i + 1 < p.len() {
                        p[2 * i + 1] as int
                    } else {
                        0
                    }),
            );
            &&& words.fold_left(0int, |a: int, w: int| a + w) % 0xffff == 0
            &&& 256 * p[2] + p[3] != 0xffff
        }),
{
    let p = request.wire_packet(sent, payload);
    let blank = request.unsummed_packet(sent, payload);
    law_packet_checksum_verifies(request, sent, payload);
    law_checksum_complements_the_words(p);
    law_checksum_complements_the_words(blank);
    assert(blank[0] == 8);
    law_bytes_of_a_number(internet_checksum(blank), 0, 0);
}

/// Exactly these datagrams answer a request. Over IPv4: 36 bytes or more, of which
/// the one behind the 20-byte IP header is 0, the type of an echo reply, followed
/// at its place by the identifier and the sequence number of the request. Over
/// IPv6: 16 bytes or more, of which the first is 129, with the same two numbers.
/// Any other message, such as an error report, answers no request.
pub proof fn law_only_echo_replies_answer(request: EchoRequest, d: Seq<u8>)
    ensures
        request.version == IpVersion::V4 ==> (request.is_answered_by(d) <==> {
            &&& d.len() >= 36
            &&& d[20] == 0
            &&& 256 * d[24] + d[25] == request.id
            &&& 256 * d[26] + d[27] == request.seq
        }),
        request.version == IpVersion::V6 ==> (request.is_answered_by(d) <==> {
            &&& d.len() >= 16
            &&& d[0] == 129
            &&& 256 * d[4] + d[5] == request.id
            &&& 256 * d[6] + d[7] == request.seq
        }),
{
}

/// A datagram leads to decoding if and only if it is the reply, and otherwise to
/// further listening; only time that is up makes an exchange fail, and it does so
/// always.
pub proof fn law_reactions(request: EchoRequest, d: Seq<u8>)
    ensures
        request.version == IpVersion::V4 ==> (request.reaction(Heard::Datagram(d))
            == EchoAction::Decode <==> {
            &&& d.len() >= 36
            &&& d[20] == 0
            &&& 256 * d[24] + d[25] == request.id
            &&& 256 * d[26] + d[27] == request.seq
        }),
        request.version == IpVersion::V6 ==> (request.reaction(Heard::Datagram(d))
            == EchoAction::Decode <==> {
            &&& d.len() >= 16
            &&& d[0] == 129
            &&& 256 * d[4] + d[5] == request.id
            &&& 256 * d[6] + d[7] == request.seq
        }),
        request.reaction(Heard::Datagram(d)) == EchoAction::Decode || request.reaction(
            Heard::Datagram(d),
        ) == EchoAction::Receive,
        request.reaction(Heard::Elapsed) == EchoAction::Fail(PingError::TimedOut),
{
}

/// What `on_event` decides: bytes from the socket are decoded if and only if they
/// are the reply to the request, and otherwise passed over, of whatever length
/// they are; the exchange fails when time is up, and only then.
pub proof fn law_events_decide(request: &EchoRequest, event: EchoEvent<'_>, action: EchoAction)
    requires
        call_ensures(EchoRequest::on_event, (request, event), action),
    ensures
        event is Elapsed <==> action == EchoAction::Fail(PingError::TimedOut),
        event matches EchoEvent::Datagram(bytes) ==> {
            let d = bytes@;
            let at = if request.version == IpVersion::V4 {
                20int
            } else {
                0int
            };
            let typ = if request.version == IpVersion::V4 {
                0int
            } else {
                129int
            };
            &&& action == EchoAction::Decode || action == EchoAction::Receive
            &&& action == EchoAction::Decode <==> {
                &&& d.len() >= at + 16
                &&& d[at] == typ
                &&& 256 * d[at + 4] + d[at + 5] == request.id
                &&& 256 * d[at + 6] + d[at + 7] == request.seq
            }
        },
{
}

/// A datagram that repeats a request behind an IP header, as a reply and with any
/// checksum, is the answer to it, and `reply_v4` makes of it the source address
/// and time to live of the IP header, the length and sequence number of the
/// request, and the time that has passed since the request was sent.
pub proof fn law_reply_v4_of_echo(
    request: &EchoRequest,
    sent: Timestamp,
    payload: Seq<u8>,
    datagram: &[u8],
    now: Timestamp,
    reply: IcmpEchoReply,
)
    requires
        request.version == IpVersion::V4,
        sent.nanos <= now.nanos,
        datagram@.len() == 36 + payload.len(),
        datagram@[20] == 0,
        forall|i: int|
            21 <= i < 36 + payload.len() && i != 22 && i != 23 ==> #[trigger] datagram@[i]
                == request.wire_packet(sent, payload)[i - 20],
        call_ensures(EchoRequest::reply_v4, (request, datagram, now), reply),
    ensures
        request.is_answered_by(datagram@),
        reply.rtt.nanos + sent.nanos == now.nanos,
        reply.len == 16 + payload.len(),
        reply.seq == request.seq,
        reply.ttl == datagram@[8],
        forall|i: int| 0 <= i < 4 ==> #[trigger] reply.src_addr@[i] == datagram@[12 + i],
{
    law_packet_layout(*request, sent, payload);
}

/// A datagram that repeats a request, as a reply and with any checksum, is the
/// answer to it, and `reply_v6` makes of it the length and sequence number of the
/// request and the time that has passed since the request was sent, with the
/// address and hop limit that came along.
pub proof fn law_reply_v6_of_echo(
    request: &EchoRequest,
    sent: Timestamp,
    payload: Seq<u8>,
    datagram: &[u8],
    src_addr: [u8; 16],
    hlim: u8,
    now: Timestamp,
    reply: IcmpV6EchoReply,
)
    requires
        request.version == IpVersion::V6,
        sent.nanos <= now.nanos,
        datagram@.len() == 16 + payload.len(),
        datagram@[0] == 129,
        forall|i: int|
            1 <= i < 16 + payload.len() && i != 2 && i != 3 ==> #[trigger] datagram@[i]
                == request.wire_packet(sent, payload)[i],
        call_ensures(EchoRequest::reply_v6, (request, datagram, src_addr, hlim, now), reply),
    ensures
        request.is_answered_by(datagram@),
        reply.rtt.nanos + sent.nanos == now.nanos,
        reply.len == 16 + payload.len(),
        reply.seq == request.seq,
        reply.hlim == hlim,
        reply.src_addr == src_addr,
{
    law_packet_layout(*request, sent, payload);
}

} // verus!
