use velocity_engine::download::DownloadFailureKind;
use velocity_engine::download_plan::{
    classify_runtime_task_failure_kind, normalize_probe_url, planned_download_size, token_bucket_burst_bytes,
};
use velocity_engine::runtime_recovery::{classify_runtime_error, runtime_control_flow_error, runtime_validation_error};

#[test]
fn runtime_errors_are_classified() {
    assert_eq!(classify_runtime_error("HTTP 429 Too Many Requests"), (true, false, false));
    assert_eq!(classify_runtime_error("operation timed out"), (false, true, false));
    assert_eq!(classify_runtime_error("Connection reset by peer"), (false, false, true));
    assert!(runtime_control_flow_error("Segment-Canceled by scheduler"));
    assert!(runtime_validation_error("bad Content-Range header"));
    assert!(!runtime_validation_error("disk full"));
}

#[test]
fn task_failures_have_kinds() {
    assert_eq!(classify_runtime_task_failure_kind("HTTP 503"), DownloadFailureKind::Http);
    assert_eq!(classify_runtime_task_failure_kind("range validation failed"), DownloadFailureKind::Validation);
    assert_eq!(classify_runtime_task_failure_kind("not enough disk space"), DownloadFailureKind::FileSystem);
    assert_eq!(classify_runtime_task_failure_kind("dns lookup failed"), DownloadFailureKind::Network);
}

#[test]
fn planned_sizes_and_bursts() {
    assert_eq!(planned_download_size(-1), None);
    assert_eq!(planned_download_size(0), None);
    assert_eq!(planned_download_size(10), Some(10));
    assert_eq!(token_bucket_burst_bytes(1_000), 524_288);
    assert_eq!(token_bucket_burst_bytes(1_000_000), 2_000_000);
    assert_eq!(token_bucket_burst_bytes(u64::MAX), u64::MAX);
}

#[test]
fn probe_urls_lose_their_fragment() {
    assert_eq!(normalize_probe_url("https://example.com/a.zip#part"), "https://example.com/a.zip");
    assert_eq!(normalize_probe_url("not a url#x "), "not a url");
}
