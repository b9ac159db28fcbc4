//! Network byte order.

use vstd::prelude::*;

verus! {

/// More significant byte of a 16-bit number.
pub open spec fn high_byte(x: u16) -> u8 {
    (x / 256) as u8
}

/// Less significant byte of a 16-bit number.
pub open spec fn low_byte(x: u16) -> u8 {
    (x % 256) as u8
}

/// The 16-bit number whose bytes are `high` and `low`.
pub open spec fn be_u16(high: u8, low: u8) -> u16 {
    (high * 256 + low) as u16
}

/// Splits a 16-bit number into its bytes, most significant first.
pub(crate) fn split_u16(x: u16) -> (r: (u8, u8))
    ensures
        r == (high_byte(x), low_byte(x)),
{
    ((x / 256) as u8, (x % 256) as u8)
}

/// Joins two bytes, most significant first, into a 16-bit number.
pub(crate) fn join_u16(high: u8, low: u8) -> (r: u16)
    ensures
        r == be_u16(high, low),
{
    high as u16 * 256 + low as u16
}

/// Splitting a number and joining its bytes gives the number back.
pub(crate) proof fn lemma_split_join(x: u16)
    ensures
        be_u16(high_byte(x), low_byte(x)) == x,
{
}

/// A 16-bit number is 256 times its high byte plus its low byte, split or joined.
pub proof fn law_bytes_of_a_number(x: u16, high: u8, low: u8)
    ensures
        256 * high_byte(x) + low_byte(x) == x as int,
        be_u16(high, low) as int == 256 * high + low,
{
}

} // verus!
