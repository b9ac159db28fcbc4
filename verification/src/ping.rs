//! A series of probes: what is sent when, and what is reported at the end.

use vstd::prelude::*;

use crate::error::PingError;
use crate::echo::generate_payload;
use crate::stats::{compute_rtt_stats, PingStats};
use crate::time::{Duration, Timestamp};

verus! {

/// Seconds that a probe of a series waits for its reply.
pub const PROBE_TIMEOUT_SECS: u64 = 5;

/// Application data of the probes of a series, for a total ICMP payload of
/// `size` bytes. The first 8 bytes of the payload are reserved for the send
/// timestamp, so that `size` must be greater than 8.
pub fn probe_payload(size: u16) -> (payload: Result<Vec<u8>, PingError>)
    ensures
        size <= 8 ==> payload == Err::<Vec<u8>, PingError>(PingError::InvalidSize),
        size > 8 ==> (payload matches Ok(data) && data@ == crate::echo::payload_bytes(
            (size - 8) as nat,
        )),
        size > 8 ==> (payload matches Ok(data) && data@.len() == size - 8 && forall|i: int|
            0 <= i < size - 8 ==> #[trigger] data@[i] as int == i % 256),
{
    if size as usize <= Timestamp::len() {
        return Err(PingError::InvalidSize);
    }
    Ok(generate_payload(size as usize - Timestamp::len()))
}

/// Identifier of the first request that the process `pid` sends; each further
/// request takes the next one.
pub fn first_request_id(pid: u32) -> (id: u16)
    ensures
        id == pid % 0x1_0000,
{
    (pid % 0x1_0000) as u16
}

// ---------------------------------------------------------------------------
// Model
// ---------------------------------------------------------------------------

/// Where a series of `count` probes stands: `seq` counts the probes begun, and
/// `rtts` holds the round-trip times of those answered so far, in order.
pub struct Progress {
    pub count: nat,
    pub seq: nat,
    pub rtts: Seq<Duration>,
}

/// A series between two actions.
pub enum Series {
    /// A probe has to be sent and its reply awaited.
    Probing(Progress),
    /// The interval until the next probe has to pass.
    Pausing(Progress),
    /// All probes are through.
    Finished(Progress),
}

/// Round-trip times with the outcome of one more probe.
pub open spec fn with_outcome(rtts: Seq<Duration>, outcome: Option<Duration>) -> Seq<Duration> {
    match outcome {
        Some(rtt) => rtts.push(rtt),
        None => rtts,
    }
}

/// A series of `count` probes at its beginning.
pub open spec fn series_started(count: nat) -> Series {
    if count == 0 {
        Series::Finished(Progress { count, seq: 0, rtts: Seq::empty() })
    } else {
        Series::Probing(Progress { count, seq: 1, rtts: Seq::empty() })
    }
}

/// The series after the probe in flight came to its outcome: the round-trip
/// time if it was answered, nothing if it was lost.
pub open spec fn series_probed(p: Progress, outcome: Option<Duration>) -> Series {
    let next = Progress { rtts: with_outcome(p.rtts, outcome), ..p };
    if p.seq < p.count {
        Series::Pausing(next)
    } else {
        Series::Finished(next)
    }
}

/// The series after the interval behind a probe has passed.
pub open spec fn series_resumed(p: Progress) -> Progress {
    Progress { seq: p.seq + 1, ..p }
}

/// Sequence number that the `n`-th probe of a series carries.
pub open spec fn wire_seq(n: nat) -> u16 {
    (n % 0x1_0000) as u16
}

/// `stats` reports the finished series `p`.
pub open spec fn reports(stats: PingStats, p: Progress) -> bool {
    &&& stats.packets_tx == p.count
    &&& stats.packets_rx == p.rtts.len()
    &&& crate::stats::summarizes(stats, p.rtts)
}

// ---------------------------------------------------------------------------
// Execution
// ---------------------------------------------------------------------------

/// A probe to be sent. The series goes on with [`Probe::finish`].
pub struct Probe {
    count: u32,
    seq: u32,
    rtts: Vec<Duration>,
}

/// A pause to be made. The series goes on with [`Pause::finish`].
pub struct Pause {
    count: u32,
    seq: u32,
    rtts: Vec<Duration>,
}

/// What a series needs next.
pub enum Step {
    /// Send this probe and await its reply.
    Send(Probe),
    /// Let the interval between two probes pass.
    Wait(Pause),
    /// Return these statistics.
    Done(PingStats),
}

impl View for Probe {
    type V = Progress;

    closed spec fn view(&self) -> Progress {
        Progress { count: self.count as nat, seq: self.seq as nat, rtts: self.rtts@ }
    }
}

impl View for Pause {
    type V = Progress;

    closed spec fn view(&self) -> Progress {
        Progress { count: self.count as nat, seq: self.seq as nat, rtts: self.rtts@ }
    }
}

impl Step {
    /// This step is what the series `s` needs.
    pub open spec fn follows(self, s: Series) -> bool {
        match (self, s) {
            (Step::Send(probe), Series::Probing(p)) => probe@ == p,
            (Step::Wait(pause), Series::Pausing(p)) => pause@ == p,
            (Step::Done(stats), Series::Finished(p)) => reports(stats, p),
            _ => false,
        }
    }
}

/// Statistics of a finished series of `count` probes.
fn series_stats(count: u32, rtts: Vec<Duration>) -> (stats: PingStats)
    requires
        rtts@.len() <= count,
    ensures
        stats.packets_tx == count,
        stats.packets_rx == rtts@.len(),
        crate::stats::summarizes(stats, rtts@),
{
    let packets_rx: u32 = rtts.len() as u32;
    let times = compute_rtt_stats(rtts);
    PingStats { packets_tx: count, packets_rx, ..times }
}

/// Begin a series of `count` probes.
pub fn start_series(count: u32) -> (step: Step)
    ensures
        step.follows(series_started(count as nat)),
{
    let rtts: Vec<Duration> = Vec::new();
    if count == 0 {
        Step::Done(series_stats(count, rtts))
    } else {
        Step::Send(Probe { count, seq: 1, rtts })
    }
}

impl Probe {
    #[verifier::type_invariant]
    closed spec fn valid(self) -> bool {
        1 <= self.seq <= self.count && self.rtts@.len() < self.seq
    }

    /// Sequence number of this probe. Probes are numbered from 1; the field in
    /// the message has 16 bits, so the numbers wrap around.
    pub fn seq(&self) -> (seq: u16)
        ensures
            seq == wire_seq(self@.seq),
            seq as nat == self@.seq % 0x1_0000,
    {
        (self.seq % 0x1_0000) as u16
    }

    /// Go on after this probe was answered with the given round-trip time, or
    /// was lost. A lost probe does not end the series.
    pub fn finish(self, outcome: Option<Duration>) -> (step: Step)
        ensures
            step.follows(series_probed(self@, outcome)),
    {
        proof {
            use_type_invariant(&self);
        }
        let count: u32 = self.count;
        let seq: u32 = self.seq;
        let mut rtts: Vec<Duration> = self.rtts;
        match outcome {
            Some(rtt) => {
                rtts.push(rtt);
            },
            None => {},
        }
        if seq < count {
            Step::Wait(Pause { count, seq, rtts })
        } else {
            Step::Done(series_stats(count, rtts))
        }
    }
}

impl Pause {
    #[verifier::type_invariant]
    closed spec fn valid(self) -> bool {
        1 <= self.seq < self.count && self.rtts@.len() <= self.seq
    }

    /// Go on with the next probe after the interval has passed.
    pub fn finish(self) -> (probe: Probe)
        ensures
            probe@ == series_resumed(self@),
    {
        proof {
            use_type_invariant(&self);
        }
        Probe { count: self.count, seq: self.seq + 1, rtts: self.rtts }
    }
}

// ---------------------------------------------------------------------------
// Laws
// ---------------------------------------------------------------------------

/// Round-trip times of the answered probes among `outcomes`, in order.
pub open spec fn answered(outcomes: Seq<Option<Duration>>) -> Seq<Duration>
    decreases outcomes.len(),
{
    if outcomes.len() == 0 {
        Seq::empty()
    } else {
        with_outcome(answered(outcomes.drop_last()), outcomes.last())
    }
}

/// The series of `count` probes after the given outcomes, every pause but the
/// one it may be in having passed.
pub open spec fn series_after(count: nat, outcomes: Seq<Option<Duration>>) -> Series
    decreases outcomes.len(),
{
    if outcomes.len() == 0 {
        series_started(count)
    } else {
        match series_after(count, outcomes.drop_last()) {
            Series::Probing(p) => series_probed(p, outcomes.last()),
            Series::Pausing(p) => series_probed(series_resumed(p), outcomes.last()),
            Series::Finished(p) => Series::Finished(p),
        }
    }
}

/// Before its last outcome a series goes on whatever became of its probes, lost
/// ones included: after `k` outcomes, `0 < k < count`, it pauses before probe
/// `k + 1`.
pub proof fn law_series_goes_on(count: nat, outcomes: Seq<Option<Duration>>)
    requires
        0 < outcomes.len() < count,
    ensures
        series_after(count, outcomes) == Series::Pausing(
            Progress { count, seq: outcomes.len(), rtts: answered(outcomes) },
        ),
    decreases outcomes.len(),
{
    let front = outcomes.drop_last();
    if front.len() > 0 {
        law_series_goes_on(count, front);
    } else {
        assert(answered(front) =~= Seq::<Duration>::empty());
        assert(series_after(count, front) == series_started(count));
    }
}

/// A series of `count` probes ends after exactly `count` outcomes, and what it
/// reports is `count` packets sent, as many received as probes were answered,
/// and the statistics of their round-trip times.
pub proof fn law_series_ends(count: nat, outcomes: Seq<Option<Duration>>, stats: PingStats)
    requires
        outcomes.len() == count,
    ensures
        series_after(count, outcomes) == Series::Finished(
            Progress { count, seq: count, rtts: answered(outcomes) },
        ),
        Step::Done(stats).follows(series_after(count, outcomes)) <==> {
            &&& stats.packets_tx == count
            &&& stats.packets_rx == answered(outcomes).len()
            &&& crate::stats::summarizes(stats, answered(outcomes))
        },
{
    if count > 0 {
        let front = outcomes.drop_last();
        if front.len() > 0 {
            law_series_goes_on(count, front);
        } else {
            assert(answered(front) =~= Seq::<Duration>::empty());
            assert(series_after(count, front) == series_started(count));
        }
    } else {
        assert(answered(outcomes) =~= Seq::<Duration>::empty());
    }
}

/// No more replies than requests are reported.
pub proof fn law_received_at_most_sent(count: nat, outcomes: Seq<Option<Duration>>, stats: PingStats)
    requires
        outcomes.len() == count,
        Step::Done(stats).follows(series_after(count, outcomes)),
    ensures
        stats.packets_rx <= stats.packets_tx,
{
    law_series_ends(count, outcomes, stats);
    lemma_answered_len(outcomes);
}

/// At most every probe is answered.
proof fn lemma_answered_len(outcomes: Seq<Option<Duration>>)
    ensures
        answered(outcomes).len() <= outcomes.len(),
    decreases outcomes.len(),
{
    if outcomes.len() > 0 {
        lemma_answered_len(outcomes.drop_last());
    }
}

/// The probes of a series are numbered consecutively from 1: the one that comes
/// after `k` outcomes is number `k + 1`.
pub proof fn law_probes_are_numbered(count: nat, outcomes: Seq<Option<Duration>>)
    requires
        outcomes.len() < count,
    ensures
        match series_after(count, outcomes) {
            Series::Probing(p) => p.seq == outcomes.len() + 1,
            Series::Pausing(p) => series_resumed(p).seq == outcomes.len() + 1,
            Series::Finished(_) => false,
        },
{
    if outcomes.len() > 0 {
        law_series_goes_on(count, outcomes);
    }
}

/// Two probes of a series carry the same sequence number only if a whole round
/// of 16-bit numbers lies between them.
pub proof fn law_sequence_numbers_differ(a: nat, b: nat)
    requires
        a < b < a + 0x1_0000,
    ensures
        wire_seq(a) != wire_seq(b),
{
}

/// A probe of a series with the payload size `size` is a message of `size` bytes
/// and an 8-byte header.
pub proof fn law_probe_length(
    size: u16,
    request: crate::echo::EchoRequest,
    sent: Timestamp,
)
    requires
        size > 8,
    ensures
        request.wire_packet(sent, crate::echo::payload_bytes((size - 8) as nat)).len() == size + 8,
{
}

/// Round-trip times that a series has recorded after the outcomes so far.
proof fn lemma_recorded(rtts: Seq<Duration>, outcomes: Seq<Option<Duration>>, next: Option<Duration>)
    requires
        rtts == outcomes.filter(|o: Option<Duration>| o is Some).map_values(
            |o: Option<Duration>| o->0,
        ),
    ensures
        with_outcome(rtts, next) == outcomes.push(next).filter(
            |o: Option<Duration>| o is Some,
        ).map_values(|o: Option<Duration>| o->0),
{
    reveal(Seq::filter);
    let is_answer = |o: Option<Duration>| o is Some;
    let value = |o: Option<Duration>| o->0;
    assert(outcomes.push(next).drop_last() =~= outcomes);
    let before = outcomes.filter(is_answer);
    let after = outcomes.push(next).filter(is_answer);
    assert(after == if next is Some {
        before.push(next)
    } else {
        before
    });
    assert(with_outcome(rtts, next) =~= after.map_values(value));
}

/// A whole series, as its functions carry it out. It starts with its first probe,
/// and each probe is finished with its outcome. Whatever the outcomes are, all
/// probes but the last are followed by a pause and the next probe, the `i`-th
/// probe carries the number `i` modulo 2^16, and the last ends the series. It
/// then reports `count` packets sent, as many received as outcomes are round-trip
/// times, and the statistics of exactly these times, in order.
pub proof fn law_series_reports_every_answer(
    count: u32,
    outcomes: Seq<Option<Duration>>,
    first: Step,
    probes: Seq<Probe>,
    steps: Seq<Step>,
    k: int,
    seq: u16,
)
    requires
        0 <= k < count,
        call_ensures(Probe::seq, (&probes[k],), seq),
        outcomes.len() == count,
        probes.len() == count,
        steps.len() == count,
        call_ensures(start_series, (count,), first),
        first matches Step::Send(probe) ==> probes[0] == probe,
        forall|i: int|
            0 <= i < count ==> call_ensures(
                Probe::finish,
                (#[trigger] probes[i], outcomes[i]),
                steps[i],
            ),
        forall|i: int|
            0 <= i < count - 1 ==> (#[trigger] steps[i] matches Step::Wait(pause) ==> call_ensures(
                Pause::finish,
                (pause,),
                probes[i + 1],
            )),
    ensures
        first is Send,
        seq as int == (k + 1) % 0x1_0000,
        k < count - 1 ==> steps[k] is Wait,
        k == count - 1 ==> {
            let answers = outcomes.filter(|o: Option<Duration>| o is Some);
            let rtts = answers.map_values(|o: Option<Duration>| o->0);
            &&& steps[k] matches Step::Done(stats)
            &&& stats.packets_tx == count
            &&& stats.packets_rx == answers.len()
            &&& crate::stats::summarizes(stats, rtts)
        },
{
    lemma_series_trace(count, outcomes, first, probes, steps, k);
    assert(call_ensures(Probe::finish, (probes[k], outcomes[k]), steps[k]));
    lemma_recorded(probes[k]@.rtts, outcomes.take(k), outcomes[k]);
    if k == count - 1 {
        assert(outcomes.take(k).push(outcomes[k]) =~= outcomes);
    }
}

/// The probe that follows `k` outcomes of a series.
proof fn lemma_series_trace(
    count: u32,
    outcomes: Seq<Option<Duration>>,
    first: Step,
    probes: Seq<Probe>,
    steps: Seq<Step>,
    k: int,
)
    requires
        0 <= k < count,
        outcomes.len() == count,
        probes.len() == count,
        steps.len() == count,
        call_ensures(start_series, (count,), first),
        first matches Step::Send(probe) ==> probes[0] == probe,
        forall|i: int|
            0 <= i < count ==> call_ensures(
                Probe::finish,
                (#[trigger] probes[i], outcomes[i]),
                steps[i],
            ),
        forall|i: int|
            0 <= i < count - 1 ==> (#[trigger] steps[i] matches Step::Wait(pause) ==> call_ensures(
                Pause::finish,
                (pause,),
                probes[i + 1],
            )),
    ensures
        first is Send,
        probes[k]@.count == count,
        probes[k]@.seq == k + 1,
        probes[k]@.rtts == outcomes.take(k).filter(|o: Option<Duration>| o is Some).map_values(
            |o: Option<Duration>| o->0,
        ),
    decreases k,
{
    if k == 0 {
        reveal(Seq::filter);
        assert(outcomes.take(0).filter(|o: Option<Duration>| o is Some).map_values(
            |o: Option<Duration>| o->0,
        ) =~= Seq::<Duration>::empty());
    } else {
        lemma_series_trace(count, outcomes, first, probes, steps, k - 1);
        assert(call_ensures(Probe::finish, (probes[k - 1], outcomes[k - 1]), steps[k - 1]));
        assert(steps[k - 1] is Wait);
        lemma_recorded(probes[k - 1]@.rtts, outcomes.take(k - 1), outcomes[k - 1]);
        assert(outcomes.take(k - 1).push(outcomes[k - 1]) =~= outcomes.take(k));
    }
}

/// A series of no probes ends at once, with nothing sent, nothing received, and
/// all times zero.
pub proof fn law_empty_series(step: Step)
    requires
        call_ensures(start_series, (0u32,), step),
    ensures
        step matches Step::Done(stats) && stats == (PingStats {
            packets_tx: 0,
            packets_rx: 0,
            rtt_min: Duration { nanos: 0 },
            rtt_avg: Duration { nanos: 0 },
            rtt_max: Duration { nanos: 0 },
            rtt_std_dev: Duration { nanos: 0 },
        }),
{
}

/// The number that the `n`-th probe carries is `n` modulo 2^16.
pub proof fn law_wire_number(n: nat)
    ensures
        wire_seq(n) as nat == n % 0x1_0000,
{
}

} // verus!
