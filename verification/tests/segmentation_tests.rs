use velocity_engine::model::DownloadSegmentStatus;
use velocity_engine::segmentation::{compute_segments_with_hints, split_segment, SegmentPlanningHints};

#[test]
fn equal_plan_covers_the_whole_file() {
    let segments = compute_segments_with_hints(1_000, 3, 100, 6, SegmentPlanningHints::default());
    assert_eq!(segments.len(), 3);
    assert_eq!((segments[0].start, segments[0].end), (0, 332));
    assert_eq!((segments[1].start, segments[1].end), (333, 665));
    assert_eq!((segments[2].start, segments[2].end), (666, 999));
    assert!(segments.iter().all(|s| s.status == DownloadSegmentStatus::Pending && s.retry_budget == 6));
}

#[test]
fn segment_count_is_capped_by_minimum_size() {
    let segments = compute_segments_with_hints(250, 8, 100, 6, SegmentPlanningHints::default());
    assert_eq!(segments.len(), 2);
    assert_eq!(segments[1].end, 249);
}

#[test]
fn empty_inputs_give_no_plan() {
    assert!(compute_segments_with_hints(0, 4, 1, 6, SegmentPlanningHints::default()).is_empty());
    assert!(compute_segments_with_hints(100, 0, 1, 6, SegmentPlanningHints::default()).is_empty());
}

#[test]
fn throughput_hint_front_loads_small_segments() {
    let hints = SegmentPlanningHints {
        throughput_bytes_per_second: Some(400),
        ttfb_ms: None,
        target_chunk_time_seconds: 1,
    };
    let segments = compute_segments_with_hints(10_000, 4, 10, 6, hints);
    assert_eq!(segments.len(), 4);
    // window of 100 bytes each, the remaining 9_600 spread with weights 1..=4.
    let sizes: Vec<i64> = segments.iter().map(|s| s.end - s.start + 1).collect();
    assert_eq!(sizes, vec![1_060, 2_020, 2_980, 3_940]);
    assert_eq!(segments[3].end, 9_999);
}

#[test]
fn split_segment_leaves_both_parts_at_least_minimum() {
    let segments = compute_segments_with_hints(1_000, 1, 1, 6, SegmentPlanningHints::default());
    let (new_segment, modified) = split_segment(&segments[0], 600, 100, 7).unwrap();
    assert_eq!((modified.start, modified.end), (0, 599));
    assert_eq!((new_segment.id, new_segment.start, new_segment.end), (7, 600, 999));
    assert!(split_segment(&segments[0], 950, 100, 7).is_none());
    assert!(split_segment(&segments[0], 600, 0, 7).is_none());
}

fn assert_tiles(segments: &[velocity_engine::model::DownloadSegment], total: i64) {
    assert!(!segments.is_empty());
    assert_eq!(segments[0].start, 0);
    assert_eq!(segments[segments.len() - 1].end, total - 1);
    for (i, pair) in segments.windows(2).enumerate() {
        assert_eq!(pair[0].end + 1, pair[1].start, "gap or overlap after segment {i}");
    }
    for (i, s) in segments.iter().enumerate() {
        assert_eq!(s.id as usize, i);
        assert!(s.start <= s.end);
        assert_eq!(s.downloaded, 0);
    }
}

#[test]
fn every_plan_tiles_the_file() {
    let shaped = SegmentPlanningHints { throughput_bytes_per_second: Some(4_000), ttfb_ms: Some(200), target_chunk_time_seconds: 1 };
    for (total, count, min) in [(1_000_u64, 3_u32, 100_u64), (7_777, 8, 1), (10_000_000, 16, 1_048), (5, 9, 0), (1, 1, 1)] {
        let plain = compute_segments_with_hints(total, count, min, 6, SegmentPlanningHints::default());
        assert_tiles(&plain, total as i64);
        assert!(plain.len() <= count as usize);
        let hinted = compute_segments_with_hints(total, count, min, 6, shaped);
        assert_tiles(&hinted, total as i64);
        assert!(hinted.len() <= count as usize);
    }
}
