use async_ping::echo::{EchoRequest, IpVersion};
use async_ping::ping::{first_request_id, probe_payload, start_series, Step, PROBE_TIMEOUT_SECS};
use async_ping::{compute_rtt_stats, Duration, PingError, PingStats, Timestamp};

const ZERO: Duration = Duration { nanos: 0 };

fn from_millis(millis: u64) -> Duration {
    Duration::from_nanos(millis * 1_000_000)
}

#[test]
fn test_compute_rtt_stats_empty() {
    let stats = compute_rtt_stats(vec![]);
    assert_eq!(stats.rtt_min, ZERO);
    assert_eq!(stats.rtt_avg, ZERO);
    assert_eq!(stats.rtt_max, ZERO);
    assert_eq!(stats.rtt_std_dev, ZERO);
}

#[test]
fn test_compute_rtt_stats_single() {
    let rtts = vec![from_millis(10)];
    let stats = compute_rtt_stats(rtts);
    assert_eq!(stats.rtt_min, from_millis(10));
    assert_eq!(stats.rtt_avg, from_millis(10));
    assert_eq!(stats.rtt_max, from_millis(10));
    assert_eq!(stats.rtt_std_dev, ZERO);
}

#[test]
fn test_compute_rtt_stats_multiple() {
    let rtts = vec![from_millis(10), from_millis(20), from_millis(30)];
    let stats = compute_rtt_stats(rtts);
    assert_eq!(stats.rtt_min, from_millis(10));
    assert_eq!(stats.rtt_max, from_millis(30));
    assert_eq!(stats.rtt_avg, from_millis(20));
    // population std dev = sqrt(((10-20)²+(20-20)²+(30-20)²)/3) ms
    //                    = sqrt(200/3) ms ≈ 8.165ms
    let expected_std_dev_nanos: u64 = {
        let avg_ns: u64 = 20_000_000;
        let variance = [10_000_000u64, 20_000_000u64, 30_000_000u64]
            .iter()
            .map(|&d| {
                let diff = d as i64 - avg_ns as i64;
                (diff * diff) as u64
            })
            .sum::<u64>()
            / 3;
        variance.isqrt()
    };
    assert_eq!(
        stats.rtt_std_dev,
        Duration::from_nanos(expected_std_dev_nanos)
    );
    assert_eq!(stats.rtt_std_dev, Duration::from_nanos(8_164_965));
}

#[test]
fn test_compute_rtt_stats_identical() {
    let rtts = vec![from_millis(5), from_millis(5), from_millis(5)];
    let stats = compute_rtt_stats(rtts);
    assert_eq!(stats.rtt_min, from_millis(5));
    assert_eq!(stats.rtt_avg, from_millis(5));
    assert_eq!(stats.rtt_max, from_millis(5));
    assert_eq!(stats.rtt_std_dev, ZERO);
}

#[test]
fn stats_leave_packet_counts_to_the_caller() {
    let stats = compute_rtt_stats(vec![from_millis(5)]);
    assert_eq!(stats.packets_tx, 0);
    assert_eq!(stats.packets_rx, 0);
}

#[test]
fn means_round_down() {
    let stats = compute_rtt_stats(vec![Duration::from_nanos(3), Duration::from_nanos(6)]);
    // mean 4.5, squared distances 1 and 4, variance 2.5, root of 2
    assert_eq!(stats.rtt_avg, Duration::from_nanos(4));
    assert_eq!(stats.rtt_std_dev, Duration::from_nanos(1));
}

#[test]
fn seconds_apart() {
    // Squared distances of several seconds exceed 64 bits of nanoseconds.
    let stats = compute_rtt_stats(vec![from_millis(15_000), ZERO, ZERO]);
    assert_eq!(stats.rtt_avg, from_millis(5_000));
    // sqrt((100 + 25 + 25) / 3) s = sqrt(50) s
    assert_eq!(stats.rtt_std_dev, Duration::from_nanos(7_071_067_811));
}

#[test]
fn largest_samples() {
    let top = Duration::from_nanos(u64::MAX);
    let stats = compute_rtt_stats(vec![top, top, top]);
    assert_eq!(stats.rtt_avg, top);
    assert_eq!(stats.rtt_std_dev, ZERO);
    let stats = compute_rtt_stats(vec![top, ZERO]);
    assert_eq!(stats.rtt_avg, Duration::from_nanos(u64::MAX / 2));
    assert_eq!(stats.rtt_std_dev, Duration::from_nanos(u64::MAX / 2));
}

#[test]
fn order_of_replies_is_irrelevant() {
    let a = compute_rtt_stats(vec![from_millis(1), from_millis(9), from_millis(4)]);
    let b = compute_rtt_stats(vec![from_millis(9), from_millis(4), from_millis(1)]);
    assert_eq!(a, b);
    assert!(a.rtt_min.nanos <= a.rtt_avg.nanos && a.rtt_avg.nanos <= a.rtt_max.nanos);
    assert!(a.rtt_std_dev.nanos <= a.rtt_max.nanos - a.rtt_min.nanos);
}

#[test]
fn payload_needs_room_for_the_timestamp() {
    assert_eq!(probe_payload(0), Err(PingError::InvalidSize));
    assert_eq!(probe_payload(8), Err(PingError::InvalidSize));
    assert_eq!(probe_payload(9), Ok(vec![0]));
    assert_eq!(probe_payload(64).unwrap().len(), 56);
    assert_eq!(probe_payload(u16::MAX).unwrap().len(), 65_527);
}

#[test]
fn identifiers_start_at_the_process_id() {
    assert_eq!(first_request_id(4242), 4242);
    assert_eq!(first_request_id(0x0012_3456), 0x3456);
    assert_eq!(PROBE_TIMEOUT_SECS, 5);
}

/// Runs a series against canned outcomes; gives the sequence numbers sent, the
/// number of pauses, and the statistics.
fn run(count: u32, outcomes: &[Option<Duration>]) -> (Vec<u16>, usize, PingStats) {
    let mut sent = Vec::new();
    let mut pauses = 0;
    let mut step = start_series(count);
    loop {
        step = match step {
            Step::Send(probe) => {
                sent.push(probe.seq());
                let outcome = outcomes[sent.len() - 1];
                probe.finish(outcome)
            }
            Step::Wait(pause) => {
                pauses += 1;
                Step::Send(pause.finish())
            }
            Step::Done(stats) => return (sent, pauses, stats),
        };
    }
}

#[test]
fn series_of_none() {
    let (sent, pauses, stats) = run(0, &[]);
    assert!(sent.is_empty());
    assert_eq!(pauses, 0);
    assert_eq!(
        stats,
        PingStats {
            packets_tx: 0,
            packets_rx: 0,
            rtt_min: ZERO,
            rtt_avg: ZERO,
            rtt_max: ZERO,
            rtt_std_dev: ZERO,
        }
    );
}

#[test]
fn series_with_losses() {
    let outcomes = [None, Some(from_millis(20)), None, Some(from_millis(10))];
    let (sent, pauses, stats) = run(4, &outcomes);
    assert_eq!(sent, vec![1, 2, 3, 4]);
    assert_eq!(pauses, 3);
    assert_eq!(stats.packets_tx, 4);
    assert_eq!(stats.packets_rx, 2);
    assert_eq!(stats.rtt_min, from_millis(10));
    assert_eq!(stats.rtt_avg, from_millis(15));
    assert_eq!(stats.rtt_max, from_millis(20));
    assert_eq!(stats.rtt_std_dev, from_millis(5));
}

#[test]
fn series_all_lost() {
    let (_, _, stats) = run(3, &[None, None, None]);
    assert_eq!(stats.packets_tx, 3);
    assert_eq!(stats.packets_rx, 0);
    assert_eq!(stats.rtt_max, ZERO);
}

#[test]
fn sequence_numbers_wrap_around() {
    let outcomes = vec![None; 65_537];
    let (sent, pauses, stats) = run(65_537, &outcomes);
    assert_eq!(sent[0], 1);
    assert_eq!(sent[65_534], 65_535);
    assert_eq!(sent[65_535], 0);
    assert_eq!(sent[65_536], 1);
    assert_eq!(pauses, 65_536);
    assert_eq!(stats.packets_tx, 65_537);
}

#[test]
fn probe_is_header_and_payload() {
    let payload = probe_payload(1500).unwrap();
    let request = EchoRequest { version: IpVersion::V4, id: 1, seq: 0 };
    let sent = Timestamp { nanos: 0 };
    assert_eq!(request.packet(sent, &payload).len(), 1508);
}
