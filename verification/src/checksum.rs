//! The Internet checksum (RFC 1071).

use vstd::prelude::*;

use crate::bytes::{high_byte, join_u16, low_byte};

verus! {

/// What a byte at position `i` counts for in the 16-bit word that holds it:
/// the bytes at even positions are the more significant halves.
pub open spec fn byte_weight(i: int) -> nat {
    if i % 2 == 0 {
        256
    } else {
        1
    }
}

/// Sum of the big-endian 16-bit words of `s`. When the length is odd, the last
/// word is completed with a zero byte.
pub open spec fn word_sum(s: Seq<u8>) -> nat
    decreases s.len(),
{
    if s.len() == 0 {
        0
    } else {
        word_sum(s.drop_last()) + s.last() as nat * byte_weight(s.len() - 1)
    }
}

/// The 16-bit one's-complement value of a sum: every carry out of the low 16
/// bits is added back in, so that numbers count modulo `0xffff`, and only zero
/// itself becomes zero.
pub open spec fn end_around(n: nat) -> nat {
    if n == 0 {
        0
    } else {
        ((n - 1) % 0xffff + 1) as nat
    }
}

/// The Internet checksum of `s`: the one's complement of the one's-complement
/// sum of its 16-bit words.
pub open spec fn internet_checksum(s: Seq<u8>) -> u16 {
    (0xffff - end_around(word_sum(s))) as u16
}

/// Extending a prefix by one byte adds that byte at its weight.
proof fn lemma_word_sum_step(s: Seq<u8>, i: int)
    requires
        0 <= i < s.len(),
    ensures
        word_sum(s.take(i + 1)) == word_sum(s.take(i)) + s[i] * byte_weight(i),
{
    assert(s.take(i + 1).drop_last() =~= s.take(i));
}

/// Adds a 16-bit word to a one's-complement sum, carrying around.
fn add_word(sum: u32, word: u32, Ghost(n): Ghost<nat>) -> (r: u32)
    requires
        sum == end_around(n),
        word <= 0xffff,
    ensures
        r == end_around(n + word as nat),
{
    let wide: u32 = sum + word;
    if wide > 0xffff {
        wide - 0xffff
    } else {
        wide
    }
}

/// Calculate Internet Checksum (RFC 1071)
pub fn calculate_checksum(data: &[u8]) -> (checksum: u16)
    requires
        data@.len() > 0,
    ensures
        checksum == internet_checksum(data@),
{
    let mut sum: u32 = 0;
    let mut i: usize = 0;
    assert(data@.take(0) =~= Seq::<u8>::empty());
    while i < data.len() - 1
        invariant
            0 < data@.len(),
            i <= data@.len(),
            i % 2 == 0,
            sum == end_around(word_sum(data@.take(i as int))),
        decreases data@.len() - i,
    {
        let word: u32 = join_u16(data[i], data[i + 1]) as u32;
        proof {
            lemma_word_sum_step(data@, i as int);
            lemma_word_sum_step(data@, i + 1);
        }
        sum = add_word(sum, word, Ghost(word_sum(data@.take(i as int))));
        i = i + 2;
    }
    if data.len() % 2 == 1 {
        proof {
            lemma_word_sum_step(data@, i as int);
        }
        let word: u32 = data[data.len() - 1] as u32 * 256;
        sum = add_word(sum, word, Ghost(word_sum(data@.take(i as int))));
    }
    assert(data@.take(data@.len() as int) =~= data@);
    (0xffff - sum) as u16
}

// ---------------------------------------------------------------------------
// Laws
// ---------------------------------------------------------------------------

/// Replacing one byte changes the word sum by the difference at its weight.
proof fn lemma_word_sum_update(s: Seq<u8>, i: int, b: u8)
    requires
        0 <= i < s.len(),
    ensures
        word_sum(s.update(i, b)) == word_sum(s) + (b - s[i]) * byte_weight(i),
    decreases s.len(),
{
    let t = s.update(i, b);
    if i == s.len() - 1 {
        assert(t.drop_last() =~= s.drop_last());
        assert((b - s[i]) * byte_weight(i) == b * byte_weight(i) - s[i] * byte_weight(i))
            by (nonlinear_arith);
    } else {
        lemma_word_sum_update(s.drop_last(), i, b);
        assert(t.drop_last() =~= s.drop_last().update(i, b));
    }
}

/// A message that carries its own checksum in a field that was zero when the
/// checksum was taken verifies: its checksum is zero. The field starts at an
/// even position `at`, most significant byte first.
pub proof fn law_checksummed_message_verifies(s: Seq<u8>, at: int)
    requires
        0 <= at,
        at + 1 < s.len(),
        at % 2 == 0,
        s[at] == 0,
        s[at + 1] == 0,
    ensures
        internet_checksum(
            s.update(at, high_byte(internet_checksum(s))).update(
                at + 1,
                low_byte(internet_checksum(s)),
            ),
        ) == 0,
{
    let c = internet_checksum(s);
    let t = s.update(at, high_byte(c));
    lemma_word_sum_update(s, at, high_byte(c));
    lemma_word_sum_update(t, at + 1, low_byte(c));
    let u = t.update(at + 1, low_byte(c));
    assert(word_sum(u) == word_sum(s) + c);
}

/// The word sum is the plain sum of the words.
proof fn lemma_word_sum_is_sum(s: Seq<u8>, words: Seq<int>, plus: spec_fn(int, int) -> int)
    requires
        words.len() == (s.len() + 1) / 2,
        forall|i: int|
            0 <= i < words.len() ==> #[trigger] words[i] == 256 * s[2 * i] + (if 2 * i + 1
                < s.len() {
                s[2 * i + 1] as int
            } else {
                0
            }),
        forall|a: int, w: int| #[trigger] plus(a, w) == a + w,
    ensures
        words.fold_left(0, plus) == word_sum(s),
    decreases s.len(),
{
    if s.len() > 0 {
        let n = s.len() as int;
        let m = words.len() as int;
        let k = 2 * (m - 1);
        let front = words.drop_last();
        let t = s.take(k);
        assert forall|i: int| 0 <= i < front.len() implies #[trigger] front[i] == 256 * t[2 * i] + (
        if 2 * i + 1 < t.len() {
            t[2 * i + 1] as int
        } else {
            0
        }) by {
            assert(front[i] == words[i]);
        }
        lemma_word_sum_is_sum(t, front, plus);
        assert(words.fold_left(0, plus) == plus(front.fold_left(0, plus), words[m - 1]));
        lemma_word_sum_step(s, k);
        assert(byte_weight(k) == 256 && byte_weight(k + 1) == 1);
        if k + 1 < n {
            lemma_word_sum_step(s, k + 1);
            assert(s.take(k + 2) =~= s);
            assert(word_sum(s) == word_sum(t) + 256 * s[k] + s[k + 1]);
            assert(words[m - 1] == 256 * s[k] + s[k + 1]);
        } else {
            assert(s.take(k + 1) =~= s);
            assert(word_sum(s) == word_sum(t) + 256 * s[k]);
            assert(words[m - 1] == 256 * s[k]);
        }
    }
}

/// Only a message of zero bytes has the word sum zero.
proof fn lemma_word_sum_zero(s: Seq<u8>)
    ensures
        word_sum(s) == 0 <==> forall|i: int| 0 <= i < s.len() ==> #[trigger] s[i] == 0,
    decreases s.len(),
{
    if s.len() > 0 {
        let front = s.drop_last();
        lemma_word_sum_zero(front);
        assert(s.last() == s[s.len() - 1]);
        let weight = byte_weight(s.len() - 1);
        assert(s.last() as nat * weight == 0 <==> s.last() == 0) by (nonlinear_arith)
            requires
                weight > 0,
        ;
        if word_sum(s) == 0 {
            assert forall|i: int| 0 <= i < s.len() implies #[trigger] s[i] == 0 by {
                if i < front.len() {
                    assert(front[i] == s[i]);
                }
            }
        }
        if forall|i: int| 0 <= i < s.len() ==> #[trigger] s[i] == 0 {
            assert forall|i: int| 0 <= i < front.len() implies #[trigger] front[i] == 0 by {
                assert(front[i] == s[i]);
            }
        }
    }
}

/// The checksum complements the 16-bit words of the message: added to them it
/// gives a multiple of `0xffff`. The words are those of the message and nothing
/// else, each made of two bytes, most significant first, with a zero for the byte
/// that is missing at an odd end. Of the two checksums that do so, `0xffff` is
/// that of a message of zero bytes alone.
pub proof fn law_checksum_complements_the_words(s: Seq<u8>)
    ensures
        ({
            let words = Seq::new(
                ((s.len() + 1) / 2) as nat,
                |i: int|
                    256 * s[2 * i] + (if 2 * i + 1 < s.len() {
                        s[2 * i + 1] as int
                    } else {
                        0
                    }),
            );
            let sum = words.fold_left(0int, |a: int, w: int| a + w);
            &&& (sum + internet_checksum(s)) % 0xffff == 0
            &&& internet_checksum(s) == 0xffff <==> forall|i: int|
                0 <= i < s.len() ==> #[trigger] s[i] == 0
        }),
{
    let words = Seq::new(
        ((s.len() + 1) / 2) as nat,
        |i: int|
            256 * s[2 * i] + (if 2 * i + 1 < s.len() {
                s[2 * i + 1] as int
            } else {
                0
            }),
    );
    lemma_word_sum_is_sum(s, words, |a: int, w: int| a + w);
    lemma_word_sum_zero(s);
}

} // verus!
