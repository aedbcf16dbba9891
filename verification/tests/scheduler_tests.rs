use velocity_engine::model::{DownloadSegment, DownloadSegmentStatus};
use velocity_engine::scheduler::{SegmentRuntimeSample, SegmentScheduler};

fn downloading_segment(id: u32, start: i64, end: i64, downloaded: i64) -> DownloadSegment {
    DownloadSegment {
        id,
        start,
        end,
        downloaded,
        retry_attempts: 0,
        retry_budget: 4,
        status: DownloadSegmentStatus::Downloading,
    }
}

fn runtime_sample(
    segment_id: u32,
    remaining_bytes: u64,
    throughput_bytes_per_second: u64,
    active_for_ms: u64,
) -> SegmentRuntimeSample {
    SegmentRuntimeSample {
        segment_id,
        remaining_bytes,
        eta_seconds: Some(remaining_bytes / throughput_bytes_per_second.max(1)),
        throughput_bytes_per_second: Some(throughput_bytes_per_second),
        active_for_ms: Some(active_for_ms),
    }
}

#[test]
fn fill_idle_slots_proactively_splits_active_segments() {
    let scheduler = SegmentScheduler::new(100, 20, 1);
    let mut segments = vec![downloading_segment(1, 0, 1_199, 200)];
    let samples = vec![runtime_sample(1, 1_000, 400, 800)];

    let refill = scheduler.fill_idle_slots(&mut segments, &samples, 1_200, 3);

    assert_eq!(refill.appended_segments.len(), 2);
    assert_eq!(segments.len(), 3);
    assert!(!refill.control_updates.is_empty());
}

#[test]
fn work_steal_sizes_new_segment_from_throughput_window() {
    let scheduler = SegmentScheduler::new(100, 20, 1);
    let mut segments = vec![downloading_segment(1, 0, 899, 120)];
    let samples = vec![runtime_sample(1, 780, 300, 900)];

    let stolen = scheduler.attempt_work_steal(&mut segments, &samples, 900, 1);

    assert!(stolen.is_some());
    let stolen = stolen.unwrap_or_else(|| unreachable!());
    let stolen_size = (stolen.end - stolen.start + 1).max(0) as u64;
    assert_eq!(stolen_size, 300);
    assert_eq!(stolen.start, 600);
}

#[test]
fn late_segment_guard_allows_large_remaining_window() {
    let scheduler = SegmentScheduler::new(100, 20, 1);
    let mut segments = vec![downloading_segment(1, 0, 1_999, 1_600)];
    let samples = vec![runtime_sample(1, 400, 150, 900)];

    let stolen = scheduler.attempt_work_steal(&mut segments, &samples, 2_000, 1);

    assert!(stolen.is_some());
}

#[test]
fn work_steal_skips_exhausted_active_segments() {
    let scheduler = SegmentScheduler::new(100, 20, 1);
    let mut segments = vec![downloading_segment(1, 0, 99, 100)];
    let samples = vec![runtime_sample(1, 0, 200, 900)];

    let stolen = scheduler.attempt_work_steal(&mut segments, &samples, 100, 1);

    assert!(stolen.is_none());
}

#[test]
fn late_segment_guard_blocks_small_tail_window() {
    let scheduler = SegmentScheduler::new(100, 20, 1);
    let mut segments = vec![downloading_segment(1, 0, 999, 850)];
    let samples = vec![runtime_sample(1, 150, 120, 900)];

    let stolen = scheduler.attempt_work_steal(&mut segments, &samples, 1_000, 1);

    assert!(stolen.is_none());
}

#[test]
fn work_steal_skips_cold_donor_without_enough_age() {
    let scheduler = SegmentScheduler::new(100, 20, 1);
    let mut segments = vec![downloading_segment(1, 0, 1_199, 250)];
    let samples = vec![runtime_sample(1, 950, 300, 120)];

    let stolen = scheduler.attempt_work_steal(&mut segments, &samples, 1_200, 1);

    assert!(stolen.is_none());
}

#[test]
fn work_steal_shrinks_donor_to_the_byte_before_the_stolen_range() {
    let scheduler = SegmentScheduler::new(100, 20, 1);
    let mut segments = vec![downloading_segment(1, 0, 899, 120)];
    let samples = vec![runtime_sample(1, 780, 300, 900)];

    let stolen = scheduler.attempt_work_steal(&mut segments, &samples, 900, 1).unwrap();

    assert_eq!(segments[0].end, 599);
    assert_eq!(stolen.id, 2);
    assert_eq!(stolen.end, 899);
    assert_eq!(stolen.status, DownloadSegmentStatus::Pending);
}

#[test]
fn work_steal_needs_an_idle_worker() {
    let scheduler = SegmentScheduler::new(100, 20, 1);
    let mut segments = vec![downloading_segment(1, 0, 899, 120)];
    let samples = vec![runtime_sample(1, 780, 300, 900)];

    assert!(scheduler.attempt_work_steal(&mut segments, &samples, 900, 0).is_none());
    assert_eq!(segments[0].end, 899);
}

#[test]
fn slow_peer_race_targets_the_slowest_segment() {
    let scheduler = SegmentScheduler::new(100, 20, 1);
    let segments = vec![
        downloading_segment(1, 0, 9_999, 0),
        downloading_segment(2, 10_000, 19_999, 0),
        downloading_segment(3, 20_000, 29_999, 0),
    ];
    let samples = vec![
        SegmentRuntimeSample { segment_id: 1, remaining_bytes: 10_000, eta_seconds: Some(10), throughput_bytes_per_second: Some(1_000), active_for_ms: Some(1_000) },
        SegmentRuntimeSample { segment_id: 2, remaining_bytes: 10_000, eta_seconds: Some(10), throughput_bytes_per_second: Some(1_000), active_for_ms: Some(1_000) },
        SegmentRuntimeSample { segment_id: 3, remaining_bytes: 10_000, eta_seconds: Some(100), throughput_bytes_per_second: Some(100), active_for_ms: Some(1_000) },
    ];

    let plan = scheduler.attempt_slow_peer_race_steal(&segments, &samples, 1).unwrap();

    assert_eq!(plan.slow_segment_id, 3);
    assert_eq!(plan.challenger_segment.id, 4);
    assert_eq!(plan.challenger_segment.start, 20_000);
    assert_eq!(plan.challenger_segment.end, 29_999);
}

#[test]
fn slow_peer_race_needs_two_samples() {
    let scheduler = SegmentScheduler::new(100, 20, 1);
    let segments = vec![downloading_segment(1, 0, 9_999, 0)];
    let samples = vec![runtime_sample(1, 10_000, 100, 1_000)];

    assert!(scheduler.attempt_slow_peer_race_steal(&segments, &samples, 1).is_none());
}
