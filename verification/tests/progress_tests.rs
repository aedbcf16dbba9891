use velocity_engine::model::DownloadSegmentStatus;
use velocity_engine::progress::stabilized_segment_throughput;

#[test]
fn keeps_previous_segment_speed_when_latest_sample_is_zero() {
    let stabilized = stabilized_segment_throughput(Some(120), 0, &DownloadSegmentStatus::Downloading);

    assert_eq!(stabilized, Some(120));
}

#[test]
fn smooths_segment_speed_spikes_before_aggregation() {
    let stabilized = stabilized_segment_throughput(Some(100), 1_000, &DownloadSegmentStatus::Downloading);

    assert_eq!(stabilized, Some(595));
}

#[test]
fn finished_segments_report_zero_throughput() {
    let stabilized = stabilized_segment_throughput(Some(500), 250, &DownloadSegmentStatus::Finished);

    assert_eq!(stabilized, Some(0));
}
