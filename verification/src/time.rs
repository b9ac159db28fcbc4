//! Spans of time and the send timestamp that every probe carries.

use vstd::prelude::*;

verus! {

/// A span of time, counted in nanoseconds.
#[derive(Clone, Copy, Debug, PartialEq, Eq, Structural)]
pub struct Duration {
    /// Length of the span in nanoseconds.
    pub nanos: u64,
}

impl Duration {
    /// The span of `nanos` nanoseconds.
    pub fn from_nanos(nanos: u64) -> (d: Duration)
        ensures
            d == (Duration { nanos }),
    {
        Duration { nanos }
    }
}

/// Bytes that a timestamp takes on the wire.
pub const TIMESTAMP_LEN: usize = 8;

/// A reading of the monotonic clock, in nanoseconds since an arbitrary origin.
#[derive(Clone, Copy, Debug, PartialEq, Eq, Structural)]
pub struct Timestamp {
    /// Nanoseconds since the origin.
    pub nanos: u64,
}

/// The timestamp that eight bytes hold, most significant byte first.
pub open spec fn decoded_timestamp(bytes: Seq<u8>) -> Timestamp
    recommends
        bytes.len() == 8,
{
    Timestamp {
        nanos: (0x100_0000_0000_0000 * bytes[0] + 0x1_0000_0000_0000 * bytes[1] + 0x100_0000_0000
            * bytes[2] + 0x1_0000_0000 * bytes[3] + 0x100_0000 * bytes[4] + 0x1_0000 * bytes[5]
            + 0x100 * bytes[6] + bytes[7]) as u64,
    }
}

impl Timestamp {
    /// The wire form of this timestamp: eight bytes, most significant first.
    pub open spec fn encoded(self) -> Seq<u8> {
        seq![
            (self.nanos / 0x100_0000_0000_0000) as u8,
            (self.nanos / 0x1_0000_0000_0000 % 0x100) as u8,
            (self.nanos / 0x100_0000_0000 % 0x100) as u8,
            (self.nanos / 0x1_0000_0000 % 0x100) as u8,
            (self.nanos / 0x100_0000 % 0x100) as u8,
            (self.nanos / 0x1_0000 % 0x100) as u8,
            (self.nanos / 0x100 % 0x100) as u8,
            (self.nanos % 0x100) as u8,
        ]
    }

    /// Time from `earlier` to this timestamp, zero if `earlier` is in fact later.
    pub open spec fn spec_since(self, earlier: Timestamp) -> Duration {
        Duration {
            nanos: if earlier.nanos <= self.nanos {
                (self.nanos - earlier.nanos) as u64
            } else {
                0
            },
        }
    }

    /// Number of bytes in the wire form of a timestamp.
    pub fn len() -> (n: usize)
        ensures
            n == 8,
    {
        TIMESTAMP_LEN
    }

    /// The wire form of this timestamp.
    pub fn as_bytes(&self) -> (bytes: [u8; 8])
        ensures
            bytes@ == self.encoded(),
    {
        let n: u64 = self.nanos;
        [
            (n / 0x100_0000_0000_0000) as u8,
            (n / 0x1_0000_0000_0000 % 0x100) as u8,
            (n / 0x100_0000_0000 % 0x100) as u8,
            (n / 0x1_0000_0000 % 0x100) as u8,
            (n / 0x100_0000 % 0x100) as u8,
            (n / 0x1_0000 % 0x100) as u8,
            (n / 0x100 % 0x100) as u8,
            (n % 0x100) as u8,
        ]
    }

    /// The timestamp in wire form that starts at position `at` of `buf`.
    pub(crate) fn read_at(buf: &[u8], at: usize) -> (t: Timestamp)
        requires
            at + 8 <= buf@.len(),
        ensures
            t == decoded_timestamp(buf@.subrange(at as int, at + 8)),
    {
        Timestamp {
            nanos: 0x100_0000_0000_0000 * buf[at] as u64 + 0x1_0000_0000_0000 * buf[at + 1] as u64
                + 0x100_0000_0000 * buf[at + 2] as u64 + 0x1_0000_0000 * buf[at + 3] as u64
                + 0x100_0000 * buf[at + 4] as u64 + 0x1_0000 * buf[at + 5] as u64 + 0x100 * buf[at
                + 6] as u64 + buf[at + 7] as u64,
        }
    }

    /// Time from `earlier` to this timestamp, zero if `earlier` is in fact later.
    pub fn since(self, earlier: Timestamp) -> (d: Duration)
        ensures
            d == self.spec_since(earlier),
    {
        if earlier.nanos <= self.nanos {
            Duration::from_nanos(self.nanos - earlier.nanos)
        } else {
            Duration::from_nanos(0)
        }
    }
}

/// A timestamp survives the wire.
pub proof fn law_timestamp_round_trip(t: Timestamp)
    ensures
        t.encoded().len() == 8,
        decoded_timestamp(t.encoded()) == t,
{
    let n = t.nanos;
    assert(n == 0x100_0000_0000_0000 * (n / 0x100_0000_0000_0000) + 0x1_0000_0000_0000 * (n
        / 0x1_0000_0000_0000 % 0x100) + 0x100_0000_0000 * (n / 0x100_0000_0000 % 0x100)
        + 0x1_0000_0000 * (n / 0x1_0000_0000 % 0x100) + 0x100_0000 * (n / 0x100_0000 % 0x100)
        + 0x1_0000 * (n / 0x1_0000 % 0x100) + 0x100 * (n / 0x100 % 0x100) + n % 0x100 && n
        / 0x100_0000_0000_0000 < 0x100) by (bit_vector);
}

/// On the wire a timestamp is the number of its nanoseconds in base 256, most
/// significant digit first, and it is read as that number.
pub proof fn law_timestamp_bytes(t: Timestamp, bytes: Seq<u8>)
    ensures
        t.encoded().len() == 8,
        ({
            let b = t.encoded();
            t.nanos as int == b[7] + 0x100 * (b[6] + 0x100 * (b[5] + 0x100 * (b[4] + 0x100 * (b[3]
                + 0x100 * (b[2] + 0x100 * (b[1] + 0x100 * b[0]))))))
        }),
        decoded_timestamp(bytes).nanos as int == bytes[7] + 0x100 * (bytes[6] + 0x100 * (bytes[5]
            + 0x100 * (bytes[4] + 0x100 * (bytes[3] + 0x100 * (bytes[2] + 0x100 * (bytes[1] + 0x100
            * bytes[0])))))),
{
    law_timestamp_round_trip(t);
}

/// The time since an earlier moment, added to that moment, gives the present.
/// There is none since a later moment.
pub proof fn law_time_since(now: Timestamp, then: Timestamp)
    ensures
        then.nanos <= now.nanos ==> now.spec_since(then).nanos + then.nanos == now.nanos,
        then.nanos > now.nanos ==> now.spec_since(then).nanos == 0,
{
}

} // verus!
