//! Round-trip statistics over the probes that were answered.

use vstd::arithmetic::div_mod::{
    lemma_div_is_ordered, lemma_div_multiples_vanish, lemma_fundamental_div_mod,
    lemma_fundamental_div_mod_converse,
};
use vstd::prelude::*;

use crate::time::Duration;

verus! {

/// Summary statistics of a series of probes.
///
/// Packet counts and round-trip times as the Unix `ping` command reports them,
/// the times computed across all replied probes.
#[derive(Clone, Copy, Debug, PartialEq, Eq, Structural)]
pub struct PingStats {
    /// Total number of ICMP echo requests transmitted.
    pub packets_tx: u32,
    /// Number of ICMP echo replies received (i.e. non-timed-out probes).
    pub packets_rx: u32,
    /// Minimum round-trip time across all received replies.
    pub rtt_min: Duration,
    /// Mean round-trip time across all received replies.
    pub rtt_avg: Duration,
    /// Maximum round-trip time across all received replies.
    pub rtt_max: Duration,
    /// Population standard deviation of the round-trip times.
    pub rtt_std_dev: Duration,
}

// ---------------------------------------------------------------------------
// Model
// ---------------------------------------------------------------------------

/// Sum of a sequence of numbers.
pub open spec fn total(s: Seq<nat>) -> nat
    decreases s.len(),
{
    if s.len() == 0 {
        0
    } else {
        total(s.drop_last()) + s.last()
    }
}

/// Arithmetic mean, rounded down.
pub open spec fn mean(s: Seq<nat>) -> nat
    recommends
        s.len() > 0,
{
    total(s) / s.len()
}

/// Square of the distance between `x` and `m`.
pub open spec fn square_distance(x: nat, m: nat) -> nat {
    if x <= m {
        ((m - x) as nat) * ((m - x) as nat)
    } else {
        ((x - m) as nat) * ((x - m) as nat)
    }
}

/// Squared distance of every number in `s` from `m`.
pub open spec fn square_distances(s: Seq<nat>, m: nat) -> Seq<nat> {
    s.map_values(|x: nat| square_distance(x, m))
}

/// Population variance around the rounded mean, itself rounded down.
pub open spec fn variance(s: Seq<nat>) -> nat
    recommends
        s.len() > 0,
{
    mean(square_distances(s, mean(s)))
}

/// `r` is the square root of `n`, rounded down.
pub open spec fn is_isqrt(r: nat, n: nat) -> bool {
    r * r <= n < (r + 1) * (r + 1)
}

/// `m` occurs in `s` and nothing in `s` is smaller.
pub open spec fn is_smallest(m: nat, s: Seq<nat>) -> bool {
    s.contains(m) && forall|i: int| 0 <= i < s.len() ==> m <= #[trigger] s[i]
}

/// `m` occurs in `s` and nothing in `s` is larger.
pub open spec fn is_largest(m: nat, s: Seq<nat>) -> bool {
    s.contains(m) && forall|i: int| 0 <= i < s.len() ==> #[trigger] s[i] <= m
}

/// The round-trip times as numbers of nanoseconds.
pub open spec fn nanos_of(rtts: Seq<Duration>) -> Seq<nat> {
    rtts.map_values(|d: Duration| d.nanos as nat)
}

/// The four times in `stats` are those of the samples `rtts`: minimum, mean,
/// maximum and population standard deviation, all zero when there is no sample.
pub open spec fn summarizes(stats: PingStats, rtts: Seq<Duration>) -> bool {
    let s = nanos_of(rtts);
    if s.len() == 0 {
        &&& stats.rtt_min.nanos == 0
        &&& stats.rtt_avg.nanos == 0
        &&& stats.rtt_max.nanos == 0
        &&& stats.rtt_std_dev.nanos == 0
    } else {
        &&& is_smallest(stats.rtt_min.nanos as nat, s)
        &&& stats.rtt_avg.nanos == mean(s)
        &&& is_largest(stats.rtt_max.nanos as nat, s)
        &&& is_isqrt(stats.rtt_std_dev.nanos as nat, variance(s))
    }
}

// ---------------------------------------------------------------------------
// Facts about sums and means
// ---------------------------------------------------------------------------

/// A sum of numbers between `lo` and `hi` is between the same multiples of them.
proof fn lemma_total_bounds(s: Seq<nat>, lo: nat, hi: nat)
    requires
        forall|i: int| 0 <= i < s.len() ==> lo <= #[trigger] s[i] <= hi,
    ensures
        lo * s.len() <= total(s) <= hi * s.len(),
    decreases s.len(),
{
    if s.len() > 0 {
        let front = s.drop_last();
        assert forall|i: int| 0 <= i < front.len() implies lo <= #[trigger] front[i] <= hi by {
            assert(front[i] == s[i]);
        }
        lemma_total_bounds(front, lo, hi);
        assert(lo * s.len() == lo * front.len() + lo) by (nonlinear_arith)
            requires
                s.len() == front.len() + 1,
        ;
        assert(hi * s.len() == hi * front.len() + hi) by (nonlinear_arith)
            requires
                s.len() == front.len() + 1,
        ;
        assert(s.last() == s[s.len() - 1]);
    }
}

/// The mean of numbers between `lo` and `hi` is between `lo` and `hi`.
proof fn lemma_mean_bounds(s: Seq<nat>, lo: nat, hi: nat)
    requires
        s.len() > 0,
        forall|i: int| 0 <= i < s.len() ==> lo <= #[trigger] s[i] <= hi,
    ensures
        lo <= mean(s) <= hi,
{
    lemma_total_bounds(s, lo, hi);
    let n = s.len() as int;
    lemma_div_is_ordered(lo * n, total(s) as int, n);
    lemma_div_is_ordered(total(s) as int, hi * n, n);
    lemma_div_multiples_vanish(lo as int, n);
    lemma_div_multiples_vanish(hi as int, n);
    assert(lo * n == n * lo && hi * n == n * hi) by (nonlinear_arith);
}

/// Extending a prefix by one adds the next number to its sum.
proof fn lemma_total_step(s: Seq<nat>, i: int)
    requires
        0 <= i < s.len(),
    ensures
        total(s.take(i + 1)) == total(s.take(i)) + s[i],
{
    assert(s.take(i + 1).drop_last() =~= s.take(i));
}

/// Squaring preserves the order of natural numbers.
proof fn lemma_square_monotone(a: nat, b: nat)
    requires
        a <= b,
    ensures
        a * a <= b * b,
{
    assert(a * a <= b * b) by (nonlinear_arith)
        requires
            a <= b,
    ;
}

/// Distances from a point inside an interval do not exceed its width.
proof fn lemma_square_distances_bounds(s: Seq<nat>, m: nat, lo: nat, hi: nat)
    requires
        lo <= m <= hi,
        forall|i: int| 0 <= i < s.len() ==> lo <= #[trigger] s[i] <= hi,
    ensures
        forall|i: int|
            0 <= i < s.len() ==> 0 <= #[trigger] square_distances(s, m)[i] <= ((hi - lo) as nat) * (
            (hi - lo) as nat),
{
    let sq = square_distances(s, m);
    let width = (hi - lo) as nat;
    assert forall|i: int| 0 <= i < s.len() implies 0 <= #[trigger] sq[i] <= width * width by {
        let x = s[i];
        let dist = if x <= m {
            (m - x) as nat
        } else {
            (x - m) as nat
        };
        lemma_square_monotone(dist, width);
    }
}

/// A square root is bounded by any number whose square bounds the argument.
proof fn lemma_isqrt_bound(r: nat, n: nat, b: nat)
    requires
        is_isqrt(r, n),
        n <= b * b,
    ensures
        r <= b,
{
    if r > b {
        assert(r * r > b * b) by (nonlinear_arith)
            requires
                r > b,
        ;
    }
}

// ---------------------------------------------------------------------------
// Computation
// ---------------------------------------------------------------------------

/// Integer square root of the standard library: `u128::isqrt` returns the
/// square root of its argument, rounded down.
pub assume_specification[ u128::isqrt ](n: u128) -> (r: u128)
    ensures
        is_isqrt(r as nat, n as nat),
;

/// Adds `x` to a sum that is held as `q` whole shares of size `n` and a
/// remainder `r`, so that neither part outgrows its type.
fn add_to_shares(q: u128, r: u128, x: u128, n: u128) -> (res: (u128, u128))
    requires
        0 < n <= u64::MAX,
        r < n,
        q * n + r + x <= u128::MAX * n,
    ensures
        res.0 * n + res.1 == q * n + r + x,
        res.1 < n,
{
    let a: u128 = x / n;
    let b: u128 = x % n;
    proof {
        lemma_fundamental_div_mod(x as int, n as int);
        assert((q + a) * n == q * n + n * a) by (nonlinear_arith);
        assert(q + a <= u128::MAX) by (nonlinear_arith)
            requires
                (q + a) * n <= u128::MAX * n,
                n > 0,
        ;
    }
    if r + b < n {
        (q + a, r + b)
    } else {
        proof {
            assert((q + a + 1) * n == (q + a) * n + n) by (nonlinear_arith);
            assert(q + a + 1 <= u128::MAX) by (nonlinear_arith)
                requires
                    (q + a + 1) * n <= u128::MAX * n,
                    n > 0,
            ;
        }
        (q + a + 1, r + b - n)
    }
}

/// Mean round-trip time in nanoseconds, rounded down.
fn mean_nanos(rtts: &Vec<Duration>) -> (m: u64)
    requires
        rtts@.len() > 0,
    ensures
        m == mean(nanos_of(rtts@)),
{
    let ghost s = nanos_of(rtts@);
    let n: u128 = rtts.len() as u128;
    let mut sum: u128 = 0;
    let mut i: usize = 0;
    proof {
        assert(s.take(0) =~= Seq::<nat>::empty());
    }
    while i < rtts.len()
        invariant
            s == nanos_of(rtts@),
            i <= rtts@.len(),
            sum == total(s.take(i as int)),
            sum <= i * u64::MAX,
        decreases rtts@.len() - i,
    {
        proof {
            lemma_total_step(s, i as int);
            assert((i + 1) * u64::MAX <= u128::MAX) by (nonlinear_arith)
                requires
                    i + 1 <= usize::MAX,
                    usize::MAX <= u64::MAX,
            ;
            assert((i + 1) * u64::MAX == i * u64::MAX + u64::MAX) by (nonlinear_arith);
        }
        sum = sum + rtts[i].nanos as u128;
        i = i + 1;
    }
    proof {
        assert(s.take(i as int) =~= s);
        lemma_mean_bounds(s, 0, u64::MAX as nat);
    }
    (sum / n) as u64
}

/// Variance of the round-trip times around the mean `m`, rounded down.
fn variance_nanos(rtts: &Vec<Duration>, m: u64) -> (v: u128)
    requires
        rtts@.len() > 0,
    ensures
        v == mean(square_distances(nanos_of(rtts@), m as nat)),
{
    let ghost s = nanos_of(rtts@);
    let ghost sq = square_distances(s, m as nat);
    let ghost top: nat = (u64::MAX * u64::MAX) as nat;
    let n: u128 = rtts.len() as u128;
    let mut q: u128 = 0;
    let mut r: u128 = 0;
    let mut i: usize = 0;
    proof {
        assert(sq.take(0) =~= Seq::<nat>::empty());
        assert(q * n == 0) by (nonlinear_arith)
            requires
                q == 0,
        ;
    }
    while i < rtts.len()
        invariant
            s == nanos_of(rtts@),
            sq == square_distances(s, m as nat),
            top == u64::MAX * u64::MAX,
            n == rtts@.len(),
            0 < n <= u64::MAX,
            i <= rtts@.len(),
            r < n,
            q * n + r == total(sq.take(i as int)),
            q * n + r <= i * top,
        decreases rtts@.len() - i,
    {
        let d: u64 = rtts[i].nanos;
        let dist: u64 = if d <= m {
            m - d
        } else {
            d - m
        };
        proof {
            lemma_square_monotone(dist as nat, u64::MAX as nat);
            lemma_total_step(sq, i as int);
            assert(sq[i as int] == dist * dist);
            assert((i + 1) * top == i * top + top) by (nonlinear_arith);
            assert((i + 1) * top <= u128::MAX * n) by (nonlinear_arith)
                requires
                    i + 1 <= n,
                    top <= u128::MAX,
            ;
        }
        let x: u128 = dist as u128 * dist as u128;
        let (q2, r2) = add_to_shares(q, r, x, n);
        q = q2;
        r = r2;
        i = i + 1;
    }
    proof {
        assert(sq.take(i as int) =~= sq);
        lemma_fundamental_div_mod_converse(total(sq) as int, n as int, q as int, r as int);
    }
    q
}

/// Compute RTT statistics from a list of round-trip time samples.
///
/// `packets_tx` and `packets_rx` are left as `0`; the caller is responsible
/// for filling them in.
pub fn compute_rtt_stats(rtts: Vec<Duration>) -> (stats: PingStats)
    ensures
        stats.packets_tx == 0,
        stats.packets_rx == 0,
        summarizes(stats, rtts@),
{
    if rtts.len() == 0 {
        let zero = Duration::from_nanos(0);
        return PingStats {
            packets_tx: 0,
            packets_rx: 0,
            rtt_min: zero,
            rtt_avg: zero,
            rtt_max: zero,
            rtt_std_dev: zero,
        };
    }
    let ghost s = nanos_of(rtts@);
    let mut min: u64 = rtts[0].nanos;
    let mut max: u64 = rtts[0].nanos;
    let mut i: usize = 1;
    assert(s[0] == min);
    while i < rtts.len()
        invariant
            s == nanos_of(rtts@),
            1 <= i <= rtts@.len(),
            s.contains(min as nat),
            s.contains(max as nat),
            forall|j: int| 0 <= j < i ==> min <= #[trigger] s[j] <= max,
        decreases rtts@.len() - i,
    {
        let d: u64 = rtts[i].nanos;
        assert(s[i as int] == d);
        if d < min {
            min = d;
        }
        if max < d {
            max = d;
        }
        i = i + 1;
    }
    let avg: u64 = mean_nanos(&rtts);
    let var: u128 = variance_nanos(&rtts, avg);
    let root: u128 = var.isqrt();
    proof {
        let sq = square_distances(s, avg as nat);
        let top = (u64::MAX * u64::MAX) as nat;
        assert forall|j: int| 0 <= j < s.len() implies 0 <= #[trigger] s[j] <= u64::MAX by {
            assert(s[j] == rtts@[j].nanos);
        }
        lemma_square_distances_bounds(s, avg as nat, 0, u64::MAX as nat);
        lemma_mean_bounds(sq, 0, top);
        lemma_isqrt_bound(root as nat, var as nat, u64::MAX as nat);
    }
    PingStats {
        packets_tx: 0,
        packets_rx: 0,
        rtt_min: Duration::from_nanos(min),
        rtt_avg: Duration::from_nanos(avg),
        rtt_max: Duration::from_nanos(max),
        rtt_std_dev: Duration::from_nanos(root as u64),
    }
}

// ---------------------------------------------------------------------------
// Laws
// ---------------------------------------------------------------------------

/// Over at least one sample the minimum, the mean and the maximum come in this
/// order, and the standard deviation is at most the spread between the extremes.
pub proof fn law_times_are_ordered(stats: PingStats, rtts: Seq<Duration>)
    requires
        rtts.len() > 0,
        summarizes(stats, rtts),
    ensures
        stats.rtt_min.nanos <= stats.rtt_avg.nanos <= stats.rtt_max.nanos,
        stats.rtt_std_dev.nanos <= stats.rtt_max.nanos - stats.rtt_min.nanos,
{
    let s = nanos_of(rtts);
    let lo = stats.rtt_min.nanos as nat;
    let hi = stats.rtt_max.nanos as nat;
    lemma_mean_bounds(s, lo, hi);
    let m = mean(s);
    let width = (hi - lo) as nat;
    lemma_square_distances_bounds(s, m, lo, hi);
    lemma_mean_bounds(square_distances(s, m), 0, width * width);
    lemma_isqrt_bound(stats.rtt_std_dev.nanos as nat, variance(s), width);
}

/// When every sample is the same, that sample is minimum, mean and maximum, and
/// the standard deviation is zero.
pub proof fn law_identical_samples(stats: PingStats, rtts: Seq<Duration>, d: Duration)
    requires
        rtts.len() > 0,
        summarizes(stats, rtts),
        forall|i: int| 0 <= i < rtts.len() ==> #[trigger] rtts[i] == d,
    ensures
        stats.rtt_min == d,
        stats.rtt_avg == d,
        stats.rtt_max == d,
        stats.rtt_std_dev.nanos == 0,
{
    let s = nanos_of(rtts);
    assert forall|i: int| 0 <= i < s.len() implies #[trigger] s[i] == d.nanos by {
        assert(s[i] == rtts[i].nanos);
    }
    law_times_are_ordered(stats, rtts);
}

/// A number has only one integer square root.
proof fn lemma_isqrt_unique(a: nat, b: nat, n: nat)
    requires
        is_isqrt(a, n),
        is_isqrt(b, n),
    ensures
        a == b,
{
    if a < b {
        lemma_square_monotone((a + 1) as nat, b);
    } else if b < a {
        lemma_square_monotone((b + 1) as nat, a);
    }
}

/// Taking one number out of a sequence takes it out of the sum.
proof fn lemma_total_remove(s: Seq<nat>, i: int)
    requires
        0 <= i < s.len(),
    ensures
        total(s) == total(s.remove(i)) + s[i],
    decreases s.len(),
{
    if i == s.len() - 1 {
        assert(s.remove(i) =~= s.drop_last());
    } else {
        let front = s.drop_last();
        lemma_total_remove(front, i);
        assert(s.remove(i).drop_last() =~= front.remove(i));
        assert(s.remove(i).last() == s.last());
    }
}

/// A sum over samples does not depend on their order.
proof fn lemma_total_permutation(a: Seq<Duration>, b: Seq<Duration>, f: spec_fn(Duration) -> nat)
    requires
        a.to_multiset() == b.to_multiset(),
    ensures
        total(a.map_values(f)) == total(b.map_values(f)),
    decreases a.len(),
{
    broadcast use vstd::seq_lib::group_to_multiset_ensures;

    assert(a.len() == a.to_multiset().len() == b.to_multiset().len());
    if a.len() > 0 {
        let x = a.last();
        assert(a.contains(x));
        assert(a.to_multiset().count(x) > 0);
        assert(b.contains(x));
        let k = choose|k: int| 0 <= k < b.len() && b[k] == x;
        let a1 = a.remove(a.len() - 1);
        let b1 = b.remove(k);
        assert(a1.to_multiset() == b1.to_multiset());
        lemma_total_permutation(a1, b1, f);
        lemma_total_remove(a.map_values(f), a.len() - 1);
        lemma_total_remove(b.map_values(f), k);
        assert(a.map_values(f).remove(a.len() - 1) =~= a1.map_values(f));
        assert(b.map_values(f).remove(k) =~= b1.map_values(f));
    } else {
        assert(a.map_values(f) =~= b.map_values(f));
    }
}

/// The statistics depend only on which samples there are, not on the order in
/// which the replies arrived.
pub proof fn law_order_is_irrelevant(
    a: PingStats,
    b: PingStats,
    rtts_a: Seq<Duration>,
    rtts_b: Seq<Duration>,
)
    requires
        rtts_a.to_multiset() == rtts_b.to_multiset(),
        summarizes(a, rtts_a),
        summarizes(b, rtts_b),
    ensures
        a.rtt_min == b.rtt_min,
        a.rtt_avg == b.rtt_avg,
        a.rtt_max == b.rtt_max,
        a.rtt_std_dev == b.rtt_std_dev,
{
    broadcast use vstd::seq_lib::group_to_multiset_ensures;

    let s = nanos_of(rtts_a);
    let t = nanos_of(rtts_b);
    assert(rtts_a.len() == rtts_a.to_multiset().len() == rtts_b.to_multiset().len());
    if rtts_a.len() > 0 {
        let nanos = |d: Duration| d.nanos as nat;
        lemma_total_permutation(rtts_a, rtts_b, nanos);
        let m = mean(s);
        let f = |d: Duration| square_distance(d.nanos as nat, m);
        lemma_total_permutation(rtts_a, rtts_b, f);
        assert(square_distances(s, m) =~= rtts_a.map_values(f));
        assert(square_distances(t, m) =~= rtts_b.map_values(f));
        lemma_isqrt_unique(a.rtt_std_dev.nanos as nat, b.rtt_std_dev.nanos as nat, variance(s));
        lemma_same_values(rtts_a, rtts_b);
        lemma_same_values(rtts_b, rtts_a);
    }
}

/// Every value among the samples `a` is one among their rearrangement `b`.
proof fn lemma_same_values(a: Seq<Duration>, b: Seq<Duration>)
    requires
        a.to_multiset() == b.to_multiset(),
    ensures
        forall|x: nat| #[trigger] nanos_of(a).contains(x) ==> nanos_of(b).contains(x),
{
    broadcast use vstd::seq_lib::group_to_multiset_ensures;

    assert forall|x: nat| #[trigger] nanos_of(a).contains(x) implies nanos_of(b).contains(x) by {
        let i = choose|i: int| 0 <= i < nanos_of(a).len() && nanos_of(a)[i] == x;
        assert(a.contains(a[i]));
        assert(a.to_multiset().count(a[i]) > 0);
        assert(b.contains(a[i]));
        let k = choose|k: int| 0 <= k < b.len() && b[k] == a[i];
        assert(nanos_of(b)[k] == x);
    }
}

/// A sum of numbers drawn from the samples, added up one sample at a time.
proof fn lemma_total_is_fold(
    rtts: Seq<Duration>,
    number: spec_fn(Duration) -> nat,
    plus: spec_fn(int, Duration) -> int,
)
    requires
        forall|a: int, d: Duration| #[trigger] plus(a, d) == a + number(d),
    ensures
        rtts.fold_left(0, plus) == total(rtts.map_values(number)),
    decreases rtts.len(),
{
    if rtts.len() > 0 {
        lemma_total_is_fold(rtts.drop_last(), number, plus);
        assert(rtts.map_values(number).drop_last() =~= rtts.drop_last().map_values(number));
    }
}

/// What the four times are, in terms of the samples alone. The minimum and the
/// maximum occur among the samples and bound them. With `n` samples of sum `sum`,
/// the mean is the largest number that `n` times stays within `sum`. With the
/// squares of the distances from the mean adding up to `squares`, the standard
/// deviation is the largest number whose square `n` times stays within `squares`.
/// Without samples, all are zero.
pub proof fn law_statistics_of_the_samples(stats: PingStats, rtts: Seq<Duration>)
    requires
        summarizes(stats, rtts),
    ensures
        ({
            let n = rtts.len() as int;
            let min = stats.rtt_min.nanos as int;
            let avg = stats.rtt_avg.nanos as int;
            let max = stats.rtt_max.nanos as int;
            let dev = stats.rtt_std_dev.nanos as int;
            let sum = rtts.fold_left(0int, |a: int, d: Duration| a + d.nanos);
            let squares = rtts.fold_left(
                0int,
                |a: int, d: Duration| a + (d.nanos - avg) * (d.nanos - avg),
            );
            &&& n == 0 ==> min == 0 && avg == 0 && max == 0 && dev == 0
            &&& forall|i: int| 0 <= i < n ==> min <= (#[trigger] rtts[i]).nanos <= max
            &&& n > 0 ==> exists|i: int| 0 <= i < n && (#[trigger] rtts[i]).nanos == min
            &&& n > 0 ==> exists|i: int| 0 <= i < n && (#[trigger] rtts[i]).nanos == max
            &&& n > 0 ==> avg * n <= sum < (avg + 1) * n
            &&& n > 0 ==> dev * dev * n <= squares < (dev + 1) * (dev + 1) * n
        }),
{
    let s = nanos_of(rtts);
    let n = rtts.len() as int;
    let m = stats.rtt_avg.nanos as nat;
    let avg = stats.rtt_avg.nanos as int;
    let dev = stats.rtt_std_dev.nanos as int;
    if n > 0 {
        assert forall|i: int| 0 <= i < n implies stats.rtt_min.nanos <= (#[trigger] rtts[i]).nanos
            <= stats.rtt_max.nanos by {
            assert(s[i] == rtts[i].nanos);
        }
        let low = choose|i: int| 0 <= i < s.len() && s[i] == stats.rtt_min.nanos;
        let high = choose|i: int| 0 <= i < s.len() && s[i] == stats.rtt_max.nanos;
        assert(rtts[low].nanos == stats.rtt_min.nanos);
        assert(rtts[high].nanos == stats.rtt_max.nanos);

        let plus = |a: int, d: Duration| a + d.nanos;
        lemma_total_is_fold(rtts, |d: Duration| d.nanos as nat, plus);
        lemma_share_bounds(total(s) as int, n, avg);

        let distance = |d: Duration| square_distance(d.nanos as nat, m);
        let plus_square = |a: int, d: Duration| a + (d.nanos - avg) * (d.nanos - avg);
        assert forall|a: int, d: Duration| #[trigger] plus_square(a, d) == a + distance(d) by {
            let x = d.nanos as int;
            assert((x - avg) * (x - avg) == (avg - x) * (avg - x)) by (nonlinear_arith);
        }
        lemma_total_is_fold(rtts, distance, plus_square);
        assert(square_distances(s, m) =~= rtts.map_values(distance));
        let squares = total(square_distances(s, m)) as int;
        let v = squares / n;
        lemma_share_bounds(squares, n, v);
        assert(dev * dev * n <= v * n) by (nonlinear_arith)
            requires
                dev * dev <= v,
                n > 0,
        ;
        assert((v + 1) * n <= (dev + 1) * (dev + 1) * n) by (nonlinear_arith)
            requires
                v + 1 <= (dev + 1) * (dev + 1),
                n > 0,
        ;
    }
}

/// A quotient rounded down is the largest whole number of shares.
proof fn lemma_share_bounds(sum: int, n: int, q: int)
    requires
        n > 0,
        q == sum / n,
    ensures
        q * n <= sum < (q + 1) * n,
{
    lemma_fundamental_div_mod(sum, n);
    assert((q + 1) * n == n * q + n) by (nonlinear_arith);
    assert(q * n == n * q) by (nonlinear_arith);
}

} // verus!
