use torwell84::frames::{FrameHistory, FrameMetrics};
use torwell84::percentiles::{percentile, percentiles, value_of_rank};

fn float_percentile(sorted: &[u64], p: f64) -> u64 {
    let idx = ((sorted.len() - 1) as f64 * p).round() as usize;
    sorted[idx.min(sorted.len() - 1)]
}

#[test]
fn percentiles_match_the_rounded_rank_of_the_sorted_values() {
    let mut seed: u64 = 7;
    for n in 1..=300usize {
        let values: Vec<u64> = (0..n)
            .map(|_| {
                seed = seed.wrapping_mul(6364136223846793005).wrapping_add(1442695040888963407);
                (seed >> 33) % 50
            })
            .collect();
        let mut sorted = values.clone();
        sorted.sort_unstable();
        for (p, f) in [(50u64, 0.50f64), (95, 0.95), (99, 0.99)] {
            assert_eq!(percentile(&values, p), float_percentile(&sorted, f), "n = {n}, p = {p}");
        }
    }
}

#[test]
fn percentiles_summary() {
    let values = vec![30, 10, 20, 40];
    let p = percentiles(&values);
    assert_eq!((p.p50, p.p95, p.p99, p.latest), (30, 40, 40, Some(40)));
    let none = percentiles(&Vec::new());
    assert_eq!((none.p50, none.p95, none.p99, none.latest), (0, 0, 0, None));
    assert_eq!(percentile(&vec![5], 99), 5);
    assert_eq!(value_of_rank(&vec![3, 1, 2, 2], 0), 1);
    assert_eq!(value_of_rank(&vec![3, 1, 2, 2], 2), 2);
    assert_eq!(value_of_rank(&vec![3, 1, 2, 2], 3), 3);
}

fn frame(id: u64, dropped: u64) -> FrameMetrics {
    FrameMetrics {
        frame_id: id,
        cpu_encode_ns: 0,
        queue_submit_ns: 0,
        gpu_time_ns: 0,
        queue_wait_ns: 0,
        frame_interval_ns: 0,
        triple_buffer_depth: 1,
        dropped_frames: dropped,
        timestamp_ms: 0,
    }
}

#[test]
fn frame_history_keeps_the_last_frames() {
    let mut h = FrameHistory::new(3);
    for i in 0..5 {
        h.record(frame(i, i));
    }
    let ids: Vec<u64> = h.history().iter().map(|m| m.frame_id).collect();
    assert_eq!(ids, vec![2, 3, 4]);
    assert_eq!(h.total_frames(), 5);
    assert_eq!(h.total_dropped(), 10);
}
