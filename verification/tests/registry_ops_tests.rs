use velocity_engine::download::{
    DownloadCapabilities, DownloadCategory, DownloadDiagnostics, DownloadIntegrity, DownloadRecord, DownloadRuntimeCheckpoint,
    DownloadStatus, IntegrityState,
};
use velocity_engine::model::{
    AppUpdateChannel, DownloadCompatibility, DownloadRequestMethod, EngineSettings, HostDiagnosticsSummary, HostTelemetryArgs,
    TrafficMode,
};
use velocity_engine::operations::{add_download_inputs, insert_new_download};
use velocity_engine::probe::ResumeValidators;
use velocity_engine::download::DownloadFailureKind;
use velocity_engine::queue_ops::{
    pause_download, record_host_telemetry_at, record_runtime_task_failure, reorder_download, ReorderDirection, remove_download, remove_downloads, restart_download_at, resume_download,
    set_download_completion_options, set_download_schedule_at, set_download_transfer_options_at, start_queue, stop_queue,
};
use velocity_engine::registry::RegistrySnapshot;
use velocity_engine::model::{DownloadSegment, DownloadSegmentStatus};
use velocity_engine::progress_sync::{progress_diff_at, ProgressSyncEntry, SegmentProgressDiff};
use velocity_engine::runtime_dispatch::plan_runtime_dispatch_at;

fn settings(max_active: u32) -> EngineSettings {
    EngineSettings {
        experimental_uncapped_mode: false,
        traffic_mode: TrafficMode::High,
        target_chunk_time_seconds: 2,
        min_segment_size_bytes: 1_048_576,
        max_active_downloads: max_active,
        speed_limit_bytes_per_second: None,
        skipped_update_version: None,
        update_channel: AppUpdateChannel::Stable,
        late_segment_ratio_percent: 20,
        segment_checkpoint_min_interval_ms: 1_000,
        segment_checkpoint_max_interval_ms: 5_000,
    }
}

fn record(id: &str, status: DownloadStatus, position: u32) -> DownloadRecord {
    DownloadRecord {
        id: id.to_string(),
        name: format!("{id}.zip"),
        url: format!("https://example.com/{id}.zip"),
        final_url: format!("https://example.com/{id}.zip"),
        host: "example.com".to_string(),
        size: -1,
        downloaded: 10,
        status,
        manual_start_requested: false,
        category: DownloadCategory::Compressed,
        speed: 500,
        time_left: Some(3),
        date_added: position as i64,
        save_path: "/tmp".to_string(),
        temp_path: format!("/tmp/{id}.zip.part"),
        target_path: format!("/tmp/{id}.zip"),
        queue: "default".to_string(),
        scheduled_for: None,
        queue_position: position,
        max_connections: 4,
        host_max_connections: None,
        host_cooldown_until: None,
        host_average_ttfb_ms: None,
        host_average_throughput_bytes_per_second: None,
        host_protocol: None,
        host_diagnostics: HostDiagnosticsSummary {
            hard_no_range: false,
            concurrency_locked: false,
            lock_reason: None,
            cooldown_until: None,
            negotiated_protocol: None,
            reuse_connections: None,
        },
        traffic_mode: TrafficMode::High,
        speed_limit_bytes_per_second: None,
        open_folder_on_completion: false,
        error_message: Some("old failure".to_string()),
        content_type: None,
        capabilities: DownloadCapabilities { resumable: false, range_supported: false, segmented: false },
        validators: ResumeValidators::default(),
        compatibility: DownloadCompatibility {
            redirect_chain: Vec::new(),
            filename_source: None,
            classification: None,
            wrapper_detected: false,
            direct_url_recovered: false,
            browser_interstitial_only: false,
            request_referer: None,
            request_cookies: None,
            request_method: DownloadRequestMethod::Get,
            request_form_fields: Vec::new(),
        },
        diagnostics: DownloadDiagnostics {
            warnings: Vec::new(),
            notes: Vec::new(),
            failure_kind: None,
            restart_required: false,
            terminal_reason: None,
            checkpoint_flushes: 0,
            checkpoint_skips: 0,
            checkpoint_avg_flush_ms: 0,
            checkpoint_last_flush_ms: 0,
            checkpoint_disk_pressure_events: 0,
            contiguous_fsync_flushes: 0,
            contiguous_fsync_window_bytes: 0,
        },
        segments: Vec::new(),
        target_connections: 1,
        writer_backpressure: true,
        engine_log: Vec::new(),
        runtime_checkpoint: DownloadRuntimeCheckpoint::default(),
        integrity: DownloadIntegrity { expected: None, actual: None, checked_at: None, state: IntegrityState::NoChecksum, message: None },
    }
}

fn registry(downloads: Vec<DownloadRecord>, queue_running: bool, max_active: u32) -> RegistrySnapshot {
    RegistrySnapshot {
        downloads,
        settings: settings(max_active),
        queue_running,
        next_id: 1,
        host_profiles: Vec::new(),
        recent_probes: Vec::new(),
    }
}

#[test]
fn pausing_a_queued_download() {
    let mut r = registry(vec![record("a", DownloadStatus::Queued, 1)], true, 3);
    assert_eq!(pause_download(&mut r, "a"), Ok(0));
    let d = &r.downloads[0];
    assert_eq!(d.status, DownloadStatus::Paused);
    assert!(!d.manual_start_requested);
    assert_eq!(d.speed, 0);
    assert_eq!(d.time_left, None);
    assert!(!d.writer_backpressure);
}

#[test]
fn unknown_ids_are_refused() {
    let mut r = registry(vec![record("a", DownloadStatus::Queued, 1)], true, 3);
    assert_eq!(pause_download(&mut r, "zz"), Err("No download found for id 'zz'.".to_string()));
    assert_eq!(remove_download(&mut r, "zz"), Err("No download found for id 'zz'.".to_string()));
    assert_eq!(r.downloads.len(), 1);
}

#[test]
fn resuming_requeues_unless_finished() {
    let mut r = registry(vec![record("a", DownloadStatus::Paused, 1), record("b", DownloadStatus::Finished, 2)], false, 3);
    assert_eq!(resume_download(&mut r, "b"), Err("Finished downloads cannot be resumed.".to_string()));
    assert_eq!(resume_download(&mut r, "a"), Ok(0));
    let d = &r.downloads[0];
    assert_eq!(d.status, DownloadStatus::Queued);
    assert!(d.manual_start_requested);
    assert_eq!(d.error_message, None);
}

#[test]
fn restarting_goes_back_to_byte_zero() {
    let mut r = registry(vec![record("a", DownloadStatus::Error, 1)], true, 3);
    assert_eq!(restart_download_at(&mut r, "a", 77), Ok(0));
    let d = &r.downloads[0];
    assert_eq!(d.downloaded, 0);
    assert_eq!(d.status, DownloadStatus::Queued);
    assert!(!d.manual_start_requested);
    assert_eq!(d.engine_log.last().map(|l| (l.timestamp, l.code.as_str())), Some((77, "transfer.restart")));
}

#[test]
fn removing_several_downloads_renumbers_the_queue() {
    let mut r = registry(
        vec![record("a", DownloadStatus::Queued, 1), record("b", DownloadStatus::Queued, 2), record("c", DownloadStatus::Queued, 3)],
        true,
        3,
    );
    let removed = remove_downloads(&mut r, &vec!["c".to_string(), "a".to_string(), "x".to_string()]).unwrap();
    assert_eq!(removed, vec!["a".to_string(), "c".to_string()]);
    assert_eq!(r.downloads.len(), 1);
    assert_eq!(r.downloads[0].id, "b");
    assert_eq!(r.downloads[0].queue_position, 1);
    assert_eq!(remove_downloads(&mut r, &vec![]), Ok(vec![]));
    assert_eq!(remove_downloads(&mut r, &vec!["q".to_string()]), Err("No downloads found for the requested ids.".to_string()));
}

#[test]
fn queue_start_and_stop() {
    let mut r = registry(vec![record("a", DownloadStatus::Stopped, 1), record("b", DownloadStatus::Finished, 2)], false, 3);
    start_queue(&mut r);
    assert!(r.queue_running);
    assert_eq!(r.downloads[0].status, DownloadStatus::Queued);
    assert_eq!(r.downloads[1].status, DownloadStatus::Finished);
    stop_queue(&mut r);
    assert!(!r.queue_running);
    assert_eq!(r.downloads[0].status, DownloadStatus::Stopped);
    assert_eq!(r.downloads[1].status, DownloadStatus::Finished);
}

#[test]
fn scheduling_queues_a_download_for_later() {
    let mut r = registry(vec![record("a", DownloadStatus::Stopped, 1), record("b", DownloadStatus::Finished, 2)], true, 3);
    assert_eq!(set_download_schedule_at(&mut r, "a", Some(5_000), 1_000), Ok(0));
    assert_eq!(r.downloads[0].scheduled_for, Some(5_000));
    assert_eq!(r.downloads[0].status, DownloadStatus::Queued);
    assert_eq!(r.downloads[0].engine_log.last().map(|l| l.code.as_str()), Some("queue.scheduled"));
    assert_eq!(set_download_schedule_at(&mut r, "a", Some(500), 1_000), Ok(0));
    assert_eq!(r.downloads[0].scheduled_for, None);
    assert_eq!(r.downloads[0].engine_log.last().map(|l| l.code.as_str()), Some("queue.schedule-cleared"));
    assert_eq!(
        set_download_schedule_at(&mut r, "b", Some(5_000), 1_000),
        Err("Finished downloads cannot be scheduled again.".to_string())
    );
}

#[test]
fn transfer_and_completion_options() {
    let mut r = registry(vec![record("a", DownloadStatus::Queued, 1)], true, 3);
    assert_eq!(set_download_transfer_options_at(&mut r, "a", Some(0), 10), Ok(0));
    assert_eq!(r.downloads[0].speed_limit_bytes_per_second, None);
    assert_eq!(set_download_transfer_options_at(&mut r, "a", Some(4_096), 10), Ok(0));
    assert_eq!(r.downloads[0].speed_limit_bytes_per_second, Some(4_096));
    assert_eq!(set_download_completion_options(&mut r, "a", true), Ok(0));
    assert!(r.downloads[0].open_folder_on_completion);
}

#[test]
fn dispatch_starts_downloads_up_to_the_active_limit() {
    let mut r = registry(vec![record("b", DownloadStatus::Queued, 2), record("a", DownloadStatus::Queued, 1)], true, 1);
    let plan = plan_runtime_dispatch_at(&mut r, 1_000);
    assert_eq!(plan.launch_ids, vec!["a".to_string()]);
    assert_eq!(r.downloads[1].status, DownloadStatus::Downloading);
    assert_eq!(r.downloads[0].status, DownloadStatus::Queued);
    assert!(plan.changed_ids.contains(&"a".to_string()));
}

#[test]
fn dispatch_leaves_a_stopped_queue_alone() {
    let mut r = registry(vec![record("a", DownloadStatus::Queued, 1)], false, 3);
    let plan = plan_runtime_dispatch_at(&mut r, 1_000);
    assert!(plan.launch_ids.is_empty());
    assert_eq!(r.downloads[0].status, DownloadStatus::Queued);
}

#[test]
fn host_telemetry_needs_a_host() {
    let mut r = registry(vec![record("a", DownloadStatus::Queued, 1)], true, 3);
    let payload = HostTelemetryArgs {
        host: "   ".to_string(),
        scope_key: None,
        throttle_event: false,
        timeout_event: false,
        reset_event: false,
        range_validation_failed: false,
        ttfb_ms: Some(40),
        throughput_bytes_per_second: None,
        negotiated_protocol: None,
        connection_reused: None,
        sustained_gain_bytes_per_second: None,
        attempted_connections: None,
    };
    assert_eq!(record_host_telemetry_at(&mut r, &payload, 5), Err("Host telemetry requires a non-empty host.".to_string()));
    assert!(r.host_profiles.is_empty());
    let named = HostTelemetryArgs { host: " example.com ".to_string(), ..payload };
    assert_eq!(record_host_telemetry_at(&mut r, &named, 5), Ok(()));
    assert_eq!(r.host_profiles.len(), 1);
    assert_eq!(r.host_profiles[0].host, "example.com");
}

#[test]
fn new_downloads_join_the_queue_renumbered() {
    let mut r = registry(vec![record("a", DownloadStatus::Queued, 7)], true, 3);
    insert_new_download(&mut r, record("b", DownloadStatus::Stopped, 9));
    let positions: Vec<(String, u32)> = r.downloads.iter().map(|d| (d.id.clone(), d.queue_position)).collect();
    assert_eq!(positions, vec![("a".to_string(), 1), ("b".to_string(), 2)]);
}

#[test]
fn new_download_inputs_must_not_be_blank() {
    assert_eq!(add_download_inputs(" ".to_string(), "/tmp".to_string()), Err("Download URL cannot be empty.".to_string()));
    assert_eq!(add_download_inputs("https://x/y".to_string(), "".to_string()), Err("Save path cannot be empty.".to_string()));
    assert_eq!(
        add_download_inputs(" https://x/y ".to_string(), "/tmp ".to_string()),
        Ok(("https://x/y".to_string(), "/tmp".to_string()))
    );
}

fn segment(id: u32, downloaded: i64, status: DownloadSegmentStatus) -> DownloadSegment {
    DownloadSegment { id, start: 0, end: 99, downloaded, retry_attempts: 0, retry_budget: 6, status }
}

#[test]
fn progress_events_carry_only_what_changed_and_respect_the_interval() {
    let mut entry = ProgressSyncEntry::new();
    let mut d = record("a", DownloadStatus::Downloading, 1);
    d.segments = vec![segment(1, 10, DownloadSegmentStatus::Downloading), segment(2, 0, DownloadSegmentStatus::Pending)];
    let first = progress_diff_at(&mut entry, &d, 5_000, 1_000).unwrap();
    assert_eq!(first.segments, vec![
        SegmentProgressDiff { id: 1, downloaded: 10, status: DownloadSegmentStatus::Downloading },
        SegmentProgressDiff { id: 2, downloaded: 0, status: DownloadSegmentStatus::Pending },
    ]);
    assert_eq!(entry.last_emit_ms, 5_000);

    d.segments[0].downloaded = 20;
    assert!(progress_diff_at(&mut entry, &d, 5_500, 1_000).is_none());
    let later = progress_diff_at(&mut entry, &d, 6_000, 1_000).unwrap();
    assert_eq!(later.segments, vec![SegmentProgressDiff { id: 1, downloaded: 20, status: DownloadSegmentStatus::Downloading }]);
    assert!(progress_diff_at(&mut entry, &d, 9_000, 1_000).is_none());

    d.status = DownloadStatus::Paused;
    let paused = progress_diff_at(&mut entry, &d, 9_001, 1_000).unwrap();
    assert_eq!(paused.status, DownloadStatus::Paused);
    assert!(paused.segments.is_empty());

    d.segments.truncate(1);
    d.downloaded = 99;
    assert!(progress_diff_at(&mut entry, &d, 9_002, 1_000).is_some());
    assert_eq!(entry.segments.len(), 1);
}

fn queue_ids(r: &RegistrySnapshot) -> Vec<(String, u32)> {
    r.downloads.iter().map(|d| (d.id.clone(), d.queue_position)).collect()
}

#[test]
fn reordering_moves_a_download_through_the_queue() {
    let mut r = registry(
        vec![record("a", DownloadStatus::Queued, 1), record("b", DownloadStatus::Queued, 2), record("c", DownloadStatus::Queued, 3)],
        true,
        3,
    );
    assert_eq!(reorder_download(&mut r, "c", ReorderDirection::Up), Ok(2));
    assert_eq!(queue_ids(&r), vec![("a".to_string(), 1), ("c".to_string(), 2), ("b".to_string(), 3)]);
    assert_eq!(reorder_download(&mut r, "b", ReorderDirection::Top), Ok(2));
    assert_eq!(queue_ids(&r), vec![("b".to_string(), 1), ("a".to_string(), 2), ("c".to_string(), 3)]);
    assert_eq!(reorder_download(&mut r, "b", ReorderDirection::Bottom), Ok(0));
    assert_eq!(queue_ids(&r), vec![("a".to_string(), 1), ("c".to_string(), 2), ("b".to_string(), 3)]);
    assert_eq!(reorder_download(&mut r, "a", ReorderDirection::Down), Ok(0));
    assert_eq!(queue_ids(&r), vec![("c".to_string(), 1), ("a".to_string(), 2), ("b".to_string(), 3)]);
}

#[test]
fn reordering_at_the_edge_changes_nothing() {
    let mut r = registry(vec![record("a", DownloadStatus::Queued, 1), record("b", DownloadStatus::Queued, 2)], true, 3);
    assert_eq!(reorder_download(&mut r, "a", ReorderDirection::Up), Ok(0));
    assert_eq!(reorder_download(&mut r, "b", ReorderDirection::Bottom), Ok(1));
    assert_eq!(queue_ids(&r), vec![("a".to_string(), 1), ("b".to_string(), 2)]);
    assert_eq!(reorder_download(&mut r, "zz", ReorderDirection::Top), Err("No download found for id 'zz'.".to_string()));
}

#[test]
fn a_failed_task_marks_the_download_in_error() {
    let mut r = registry(vec![record("a", DownloadStatus::Downloading, 1), record("b", DownloadStatus::Paused, 2)], true, 3);
    assert_eq!(record_runtime_task_failure(&mut r, "b", "disk full"), None);
    assert_eq!(r.downloads[1].status, DownloadStatus::Paused);
    assert_eq!(record_runtime_task_failure(&mut r, "zz", "disk full"), None);
    assert_eq!(record_runtime_task_failure(&mut r, "a", "Disk full while writing"), Some(0));
    let d = &r.downloads[0];
    assert_eq!(d.status, DownloadStatus::Error);
    assert_eq!(d.error_message.as_deref(), Some("Disk full while writing"));
    assert_eq!(d.diagnostics.failure_kind, Some(DownloadFailureKind::FileSystem));
    assert!(d.diagnostics.restart_required);
    assert_eq!(d.diagnostics.terminal_reason.as_deref(), Some("Transfer runtime terminated before completion."));
    assert_eq!(d.speed, 0);
}

use velocity_engine::capture_bridge::{CapturePayload, HttpRequest};
use velocity_engine::disk_pool::QueuePressureTier;
use velocity_engine::host_planner::{connection_target_at, effective_connection_target_at};
use velocity_engine::http_request::{answer_capture, answer_route, BridgeRefusal, RouteAnswer};
use velocity_engine::operations::ProbePlanningState;
use velocity_engine::probe_result::probe_result_from;
use velocity_engine::runtime_ramp::{
    adjust_live_target_at, adjust_runtime_segment_supply_at, desired_parallel, RampConfig, RampOutcome, RuntimeRampState,
    SupplySignals,
};
use velocity_engine::runtime_transfer::{SegmentControlTable, SegmentRuntimeControl};
use velocity_engine::scheduler::SegmentScheduler;

#[test]
fn clones_of_a_segment_control_share_its_end() {
    let mut table = SegmentControlTable::new();
    let c = SegmentRuntimeControl::new(&mut table, 1_000);
    let other = SegmentRuntimeControl::new(&mut table, 5_000);
    let c2 = c.clone();
    assert_eq!(c.current_end(&table), 1_000);
    c2.set_end(&mut table, 600);
    assert_eq!(c.current_end(&table), 600);
    assert_eq!(c2.current_end(&table), 600);
    assert_eq!(other.current_end(&table), 5_000);
    assert!(!c.is_canceled(&table));
    c2.cancel(&mut table);
    assert!(c.is_canceled(&table));
    assert_eq!(c.current_end(&table), 600);
    assert!(!other.is_canceled(&table));
}

fn request(method: &str, path: &str) -> HttpRequest {
    HttpRequest { method: method.to_string(), path: path.to_string(), headers: Vec::new(), body: Vec::new() }
}

#[test]
fn bridge_requests_are_routed_to_their_answers() {
    assert!(matches!(answer_route(&request("OPTIONS", "/capture"), false), RouteAnswer::CorsPreflight));
    assert!(matches!(answer_route(&request("GET", "/health"), true), RouteAnswer::Health { authorized: true }));
    assert!(matches!(answer_route(&request("GET", "/focus"), false), RouteAnswer::Focus));
    assert!(matches!(answer_route(&request("GET", "/pair"), true), RouteAnswer::Refuse(BridgeRefusal::Forbidden)));
    assert!(matches!(answer_route(&request("POST", "/capture"), false), RouteAnswer::Refuse(BridgeRefusal::Unauthorized)));
    assert!(matches!(answer_route(&request("POST", "/capture"), true), RouteAnswer::DecodeCapture));
    assert!(matches!(answer_route(&request("GET", "/elsewhere"), true), RouteAnswer::Refuse(BridgeRefusal::NotFound)));
    assert_eq!(BridgeRefusal::Unauthorized.status(), 401);
    assert_eq!(BridgeRefusal::Forbidden.status(), 403);
    assert_eq!(BridgeRefusal::NotFound.body(), "not found");
}

fn payload(url: &str) -> CapturePayload {
    CapturePayload {
        url: url.to_string(),
        referrer: None,
        filename: None,
        size_hint: None,
        mime: None,
        request_cookies: None,
        request_method: DownloadRequestMethod::Get,
        request_form_fields: Vec::new(),
        source: None,
    }
}

#[test]
fn captures_need_a_payload_with_an_http_url() {
    let refused = answer_capture(None).unwrap_err();
    assert_eq!((refused.status(), refused.reason(), refused.body()), (400, "Bad Request", "invalid json"));
    let refused = answer_capture(Some(&payload("ftp://example.com/a"))).unwrap_err();
    assert_eq!((refused.status(), refused.reason(), refused.body()), (422, "Unprocessable Entity", "url must be http(s)"));
    assert_eq!(answer_capture(Some(&payload("https://example.com/a"))), Ok(()));
}

#[test]
fn the_unscoped_connection_target_is_the_scoped_one_without_a_key() {
    let s = settings(3);
    assert_eq!(effective_connection_target_at(16, &s, None, 5), connection_target_at(16, &s, None, None, 5));
    assert_eq!(effective_connection_target_at(0, &s, None, 5), 1);
}

fn label(bytes: u64) -> String {
    format!("{bytes} B")
}

#[test]
fn a_failed_probe_reports_a_single_stream_plan_under_the_save_directory() {
    let mut r = registry(Vec::new(), true, 3);
    let planning = ProbePlanningState {
        now: 1_000,
        scope_key: "example.com|GET".to_string(),
        request_form_fields: Vec::new(),
        from_cache: false,
        from_live: false,
        probe: None,
        final_url: "https://example.com/files/report.pdf".to_string(),
        host: "example.com".to_string(),
    };
    let result = probe_result_from(
        &mut r,
        "https://example.com/files/report.pdf",
        &Some("  /tmp/dl ".to_string()),
        &None,
        &None,
        &None,
        DownloadRequestMethod::Get,
        &planning,
        None,
        &label,
    );
    assert_eq!(result.suggested_name, "report.pdf");
    assert_eq!(result.target_path.as_deref(), Some("/tmp/dl/report.pdf"));
    assert_eq!(result.planned_connections, 1);
    assert!(!result.segmented);
    assert!(!result.range_supported);
    assert_eq!(result.size, None);
    assert!(result.warnings.iter().any(|w| w == "Remote probe failed; no fresh host capability cache is available."));
    assert_eq!(result.original_url, "https://example.com/files/report.pdf");
    let no_dir = probe_result_from(&mut r, "https://example.com/x", &Some("   ".to_string()), &None, &None, &None,
        DownloadRequestMethod::Get, &planning, None, &label);
    assert_eq!(no_dir.target_path, None);
}

fn ramp_config() -> RampConfig {
    RampConfig {
        sample_min_interval_ms: 1_000,
        history_retention_ms: 60_000,
        window_samples: 3,
        warmup_min_interval_ms: 0,
        warmup_min_speed_bytes_per_second: 0,
        min_interval_ms: 0,
        min_speed_bytes_per_second: 0,
        fast_path_gain_percent: 10,
        negative_gain_percent: 10,
        fast_path_max_ttfb_ms: 500,
        negative_gain_windows: 2,
    }
}

fn signals(now: i64) -> SupplySignals {
    SupplySignals {
        now,
        min_segment_size_bytes: 1_048_576,
        disk_tier: QueuePressureTier::Normal,
        disk_blocks_supply: false,
        median_ttfb_ms: Some(100),
    }
}

#[test]
fn a_busy_segmented_download_ramps_up_one_step() {
    let cfg = ramp_config();
    let mut d = record("a", DownloadStatus::Downloading, 1);
    d.size = 100_000_000;
    d.downloaded = 0;
    d.speed = 1_000_000;
    d.max_connections = 4;
    d.capabilities.segmented = true;
    d.segments = vec![segment(0, 0, DownloadSegmentStatus::Downloading)];
    let mut ramp = RuntimeRampState::new(0, 1);
    let outcome = adjust_live_target_at(&cfg, &mut ramp, &mut d, signals(10_000));
    assert_eq!(
        outcome,
        RampOutcome::Raised {
            from: 1,
            to: 2,
            fast_path: false,
            stable_speed: 1_000_000,
            stable_ttfb_ms: Some(100),
            sustained_gain: None,
        }
    );
    assert_eq!(d.target_connections, 2);
    assert_eq!(ramp.last_change_speed, Some(1_000_000));
    assert_eq!(ramp.last_changed_target, 2);
    assert_eq!(desired_parallel(&d, QueuePressureTier::Normal), 2);
    assert_eq!(desired_parallel(&d, QueuePressureTier::Critical), 1);
    // With one busy connection out of two, the target holds.
    assert_eq!(adjust_live_target_at(&cfg, &mut ramp, &mut d, signals(11_000)), RampOutcome::Held);
    assert_eq!(d.target_connections, 2);
    assert_eq!(ramp.sample_count(&cfg, 2), 1);
    assert_eq!(ramp.stable_speed(&cfg, 2), Some(1_000_000));
}

#[test]
fn a_supply_tick_on_an_unknown_or_unsegmented_download() {
    let cfg = ramp_config();
    let scheduler = SegmentScheduler::new(1_048_576, 20, 2);
    let mut r = registry(vec![record("a", DownloadStatus::Downloading, 1)], true, 3);
    let mut ramp = RuntimeRampState::new(0, 1);
    assert!(adjust_runtime_segment_supply_at(&cfg, &mut r, "zz", &scheduler, &Vec::new(), &mut ramp, signals(5)).is_none());
    let a = adjust_runtime_segment_supply_at(&cfg, &mut r, "a", &scheduler, &Vec::new(), &mut ramp, signals(5)).unwrap();
    assert_eq!(a.ramp, RampOutcome::Held);
    assert_eq!(a.desired_parallel, 1);
    assert!(!a.changed);
    assert!(a.dispatch_plan.is_none());
    assert!(a.appended_segments.is_empty());
}

use velocity_engine::segment_worker::{ChunkStep, PendingWrite, SegmentWorkerState, StreamNext, WorkerPoll};

#[test]
fn a_segment_worker_writes_up_to_its_range_end() {
    let seg = DownloadSegment { id: 1, start: 0, end: 99, downloaded: 0, retry_attempts: 0, retry_budget: 3, status: DownloadSegmentStatus::Pending };
    let mut w = SegmentWorkerState::new(&seg);
    assert_eq!(w.poll(false, 99, false), WorkerPoll::Fetch { start: 0, end: 99, reused: false });
    w.fetched(0);
    assert_eq!(w.chunk(60, 99, 64), ChunkStep { write: None, stop: false });
    assert_eq!(w.chunk(60, 99, 64), ChunkStep { write: Some(PendingWrite { offset: 0, bytes: 100 }), stop: true });
    assert_eq!(w.pos, 100);
    assert_eq!(w.downloaded, 100);
    assert_eq!(w.stream_end(false, 99, 3), (None, StreamNext::Poll));
    assert_eq!(w.poll(false, 99, false), WorkerPoll::Finished);
    assert_eq!(w.poll(true, 99, false), WorkerPoll::Canceled);
}

#[test]
fn a_segment_worker_stops_at_a_stolen_end() {
    let seg = DownloadSegment { id: 1, start: 0, end: 99, downloaded: 0, retry_attempts: 0, retry_budget: 3, status: DownloadSegmentStatus::Pending };
    let mut w = SegmentWorkerState::new(&seg);
    assert_eq!(w.poll(false, 99, true), WorkerPoll::Fetch { start: 0, end: 99, reused: true });
    w.fetched(2);
    assert_eq!(w.retry_attempts, 2);
    assert_eq!(w.chunk(30, 49, 64), ChunkStep { write: None, stop: false });
    assert_eq!(w.chunk(30, 49, 64), ChunkStep { write: Some(PendingWrite { offset: 0, bytes: 50 }), stop: true });
    assert_eq!(w.end, 49);
    assert_eq!(w.poll(false, 49, false), WorkerPoll::Finished);
}

#[test]
fn a_segment_worker_gives_up_past_its_drop_budget() {
    let seg = DownloadSegment { id: 1, start: 10, end: 99, downloaded: 5, retry_attempts: 0, retry_budget: 1, status: DownloadSegmentStatus::Pending };
    let mut w = SegmentWorkerState::new(&seg);
    assert_eq!(w.pos, 15);
    assert_eq!(w.poll(false, 99, false), WorkerPoll::Fetch { start: 15, end: 99, reused: false });
    w.fetched(0);
    assert_eq!(w.chunk(10, 99, 64), ChunkStep { write: None, stop: false });
    assert_eq!(w.stream_end(true, 99, 1), (Some(PendingWrite { offset: 15, bytes: 10 }), StreamNext::Backoff { attempt: 0 }));
    assert_eq!(w.downloaded, 15);
    assert_eq!(
        w.stream_end(true, 99, 1),
        (None, StreamNext::GiveUp("Stream dropped 2 times, exceeding retry budget.".to_string()))
    );
    assert_eq!(w.retry_attempts, 2);
}

use velocity_engine::stream_worker::{AttemptFailure, RetryStep, StreamChunkStep, StreamWorkerState};

#[test]
fn a_single_stream_worker_writes_full_buffers_and_checks_space() {
    let mut w = StreamWorkerState::new(100, 50);
    w.begin_response();
    assert_eq!(w.chunk(30, 64, true), StreamChunkStep { write: None, check_space_for: None });
    assert_eq!(
        w.chunk(40, 64, true),
        StreamChunkStep { write: Some(PendingWrite { offset: 100, bytes: 70 }), check_space_for: Some(70) }
    );
    assert_eq!(w.offset, 170);
    assert_eq!(w.next_space_check_at, 220);
    assert_eq!(w.chunk(10, 64, true), StreamChunkStep { write: None, check_space_for: None });
    assert_eq!(
        w.stream_broke("reset"),
        Some("Unknown-size stream dropped after 70 downloaded; restart is required because the host did not expose a resumable content length: reset".to_string())
    );
    assert_eq!(
        w.finish(true),
        StreamChunkStep { write: Some(PendingWrite { offset: 170, bytes: 10 }), check_space_for: Some(80) }
    );
    assert_eq!(w.finish(true), StreamChunkStep { write: None, check_space_for: None });
    let fresh = StreamWorkerState::new(0, 0);
    assert_eq!(fresh.check_interval, 1);
    assert_eq!(fresh.stream_broke("x"), None);
}

#[test]
fn a_single_stream_worker_retries_within_its_budget() {
    let mut w = StreamWorkerState::new(0, 1_000);
    assert_eq!(w.after_failure(AttemptFailure::BeforeBytes("eof".to_string()), 1), RetryStep::Retry { attempt: 0, throttled: false, retry_after_ms: None });
    assert_eq!(
        w.after_failure(AttemptFailure::BeforeBytes("eof".to_string()), 1),
        RetryStep::GiveUp("Single-stream transfer failed before any bytes were received: eof".to_string())
    );
    let throttled = AttemptFailure::Http { status: "429 Too Many Requests".to_string(), throttled: true, retry_after_ms: Some(500) };
    assert_eq!(w.after_failure(throttled, 1), RetryStep::Retry { attempt: 1, throttled: true, retry_after_ms: Some(500) });
    let mut w = StreamWorkerState::new(0, 1_000);
    let missing = AttemptFailure::Http { status: "404 Not Found".to_string(), throttled: false, retry_after_ms: Some(10) };
    assert_eq!(
        w.after_failure(missing, 0),
        RetryStep::GiveUp("HTTP 404 Not Found for single-stream transfer after 0 retries (retry-after 10ms).".to_string())
    );
    assert_eq!(
        w.after_failure(AttemptFailure::Network("dns".to_string()), 0),
        RetryStep::GiveUp("Network error before single-stream transfer could stabilize: dns".to_string())
    );
}

use velocity_engine::stream_worker::{apply_stream_progress, resolve_stream_result};

#[test]
fn single_stream_progress_updates_the_download_and_checkpoints() {
    let mut d = record("a", DownloadStatus::Downloading, 1);
    d.writer_backpressure = false;
    assert!(!apply_stream_progress(&mut d, 4_096, 0, true, 1_500, 1_000, 1_000));
    assert_eq!((d.downloaded, d.speed, d.time_left, d.writer_backpressure), (4_096, 500, None, true));
    assert_eq!(d.diagnostics.checkpoint_disk_pressure_events, 1);
    assert_eq!(d.diagnostics.checkpoint_skips, 1);
    assert!(apply_stream_progress(&mut d, -5, 900, true, 2_000, 1_000, 1_000));
    assert_eq!((d.downloaded, d.speed), (0, 900));
    assert_eq!(d.diagnostics.checkpoint_disk_pressure_events, 1);
    assert_eq!(d.diagnostics.checkpoint_flushes, 1);
}

#[test]
fn a_finished_single_stream_must_match_the_file_on_disk() {
    assert_eq!(resolve_stream_result(Ok((10, None)), Ok(()), Ok(()), Ok(()), Ok(10)), Ok(10));
    assert_eq!(
        resolve_stream_result(Ok((10, None)), Ok(()), Ok(()), Ok(()), Ok(9)),
        Err("Unknown-size transfer wrote 10 bytes but the temp file reports 9 bytes after disk flush.".to_string())
    );
    assert_eq!(
        resolve_stream_result(Ok((10, Some(12))), Ok(()), Ok(()), Ok(()), Ok(10)),
        Err("Unknown-size transfer reached EOF at 10 bytes but the final stream reported Content-Length 12.".to_string())
    );
    assert_eq!(
        resolve_stream_result(Err("stream".to_string()), Ok(()), Err("sync".to_string()), Err("disk".to_string()), Ok(1)),
        Err("sync".to_string())
    );
    assert_eq!(
        resolve_stream_result(Err("stream".to_string()), Ok(()), Ok(()), Ok(()), Err("meta".to_string())),
        Err("stream".to_string())
    );
    assert_eq!(
        resolve_stream_result(Ok((1, None)), Ok(()), Ok(()), Ok(()), Err("meta".to_string())),
        Err("meta".to_string())
    );
}

use velocity_engine::probe::RangeObservation;
use velocity_engine::probe_flow::ProbeMethod;
use velocity_engine::probe_stage::{hands_over_stream, probe_stage_from_headers, reads_html_body, ProbeHeaders};

fn probe_headers() -> ProbeHeaders {
    ProbeHeaders {
        accept_ranges: None,
        content_range: None,
        content_type: None,
        content_disposition: None,
        content_length: None,
        etag: None,
        last_modified: None,
    }
}

#[test]
fn a_probe_response_is_read_from_its_headers() {
    let mut h = probe_headers();
    h.content_range = Some(" bytes 0-0/1234 ".to_string());
    h.content_length = Some("1".to_string());
    h.content_type = Some("application/zip".to_string());
    h.etag = Some("  \"abc\" ".to_string());
    h.last_modified = Some("   ".to_string());
    let m = probe_stage_from_headers("https://example.com/a.zip", 206, true, &h, "HTTP/2.0", None);
    assert_eq!(m.size, Some(1234));
    assert_eq!(m.validators.content_length, Some(1234));
    assert_eq!(m.range_observation, RangeObservation::Supported);
    assert_eq!(m.validators.etag.as_deref(), Some("\"abc\""));
    assert_eq!(m.validators.last_modified, None);
    assert_eq!(m.negotiated_protocol.as_deref(), Some("HTTP/2.0"));
    assert!(!m.html_interstitial);

    let mut h = probe_headers();
    h.content_length = Some("99".to_string());
    h.accept_ranges = Some(" NONE ".to_string());
    h.content_type = Some("text/html; charset=utf-8".to_string());
    let m = probe_stage_from_headers("https://example.com/landing", 200, false, &h, "HTTP/1.1", None);
    assert_eq!(m.size, Some(99));
    assert_eq!(m.range_observation, RangeObservation::Unsupported);
    assert!(m.html_interstitial);
    assert!(reads_html_body(m.html_interstitial, ProbeMethod::StandardGet));
    assert!(!reads_html_body(m.html_interstitial, ProbeMethod::Head));
    assert!(hands_over_stream(true, ProbeMethod::FormPost, false));
    assert!(!hands_over_stream(true, ProbeMethod::RangeGet, false));
}

use velocity_engine::html::HtmlFollowUpMethod;
use velocity_engine::html_links::{
    extract_html_app_api_hint, extract_html_direct_download_url, extract_html_form_fields, extract_html_follow_up_request,
    inspect_html_resolution_body, normalize_embedded_html_url,
};

#[test]
fn a_wrapper_page_names_its_direct_link() {
    let body = r#"<link href="/style.css" rel="stylesheet"><a href="/files/setup.zip">Download</a>"#;
    assert_eq!(
        extract_html_direct_download_url("https://example.com/page", body),
        Some("https://example.com/files/setup.zip".to_string())
    );
    assert_eq!(extract_html_direct_download_url("not a url", body), None);
    let n: String = normalize_embedded_html_url(r#"  'https:\/\/x.com\/a.zip'  "#).unwrap().into_iter().collect();
    assert_eq!(n, "https://x.com/a.zip");
    assert!(normalize_embedded_html_url("javascript:void(0)").is_none());
    assert!(normalize_embedded_html_url("#top").is_none());
}

#[test]
fn a_wrapper_page_form_becomes_a_follow_up_request() {
    let fields = extract_html_form_fields(r#"<input type="hidden" name="token" value="a&amp;b"><input type="password" name="pw" value="x">"#);
    assert_eq!(fields, vec![("token".to_string(), "a&b".to_string())]);
    let body = r#"<form method="post" action="/download"><input type="hidden" name="op" value="x"><input type="hidden" name="id" value="y"></form>"#;
    let req = extract_html_follow_up_request("https://example.com/page", body).unwrap();
    assert_eq!(req.url, "https://example.com/download");
    assert_eq!(req.method, HtmlFollowUpMethod::Post);
    assert_eq!(req.fields, vec![("op".to_string(), "x".to_string()), ("id".to_string(), "y".to_string())]);
    let hint = inspect_html_resolution_body("https://example.com/page", body).unwrap();
    assert_eq!(hint.request_referer, "https://example.com/page");
    assert!(hint.follow_up_request.is_some());
    assert!(inspect_html_resolution_body("https://example.com/page", "<p>nothing here</p>").is_none());
}

#[test]
fn an_app_backed_wrapper_page_names_its_resolver() {
    let body = r#"<script src="/static/app-config.js"></script><script>var c = { apiServer: "api", wt: "seed" };</script>"#;
    let hint = extract_html_app_api_hint("https://www.example.com/d/abcdef12", body).unwrap();
    assert_eq!(hint.content_id, "abcdef12");
    assert_eq!(hint.config_url.as_deref(), Some("https://www.example.com/static/app-config.js"));
    assert_eq!(hint.inline_api_base_url.as_deref(), Some("https://api.example.com"));
    assert_eq!(hint.inline_website_token_seed.as_deref(), Some("seed"));
    assert!(extract_html_app_api_hint("https://example.com/d/abc", body).is_none());
}

use velocity_engine::bootstrap_merge::{
    apply_runtime_bootstrap_at, merge_download_compatibility, merge_resume_validators, needs_runtime_metadata_bootstrap,
    requires_unknown_size_restart, requires_wrapper_probe_refresh, runtime_probe_target, should_use_bootstrap_stream,
};
use velocity_engine::model::DownloadRequestField;
use velocity_engine::probe::DownloadProbeData;

fn bootstrap_probe(final_url: &str) -> DownloadProbeData {
    DownloadProbeData {
        final_url: final_url.to_string(),
        size: Some(4096),
        mime_type: Some("application/zip".to_string()),
        negotiated_protocol: Some("h2".to_string()),
        range_supported: true,
        range_observation: RangeObservation::Supported,
        resumable: true,
        validators: ResumeValidators {
            etag: Some("\"v2\"".to_string()),
            last_modified: None,
            content_length: Some(4096),
            content_type: None,
            content_disposition: None,
        },
        suggested_name: "a.zip".to_string(),
        compatibility: DownloadCompatibility {
            redirect_chain: vec!["https://example.com/a".to_string()],
            filename_source: Some("header".to_string()),
            classification: None,
            wrapper_detected: false,
            direct_url_recovered: false,
            browser_interstitial_only: true,
            request_referer: Some("https://fresh.example.com/".to_string()),
            request_cookies: None,
            request_method: DownloadRequestMethod::Get,
            request_form_fields: Vec::new(),
        },
        warnings: vec!["slow host".to_string(), "slow host".to_string()],
    }
}

#[test]
fn bootstrap_is_needed_without_size_or_validators() {
    let mut d = record("a", DownloadStatus::Queued, 0);
    d.downloaded = 0;
    assert!(needs_runtime_metadata_bootstrap(&d));
    d.size = 4096;
    d.validators.content_length = Some(4096);
    d.validators.etag = Some("\"v1\"".to_string());
    assert!(!needs_runtime_metadata_bootstrap(&d));
    d.final_url = "https://cdn.example.com/a.zip".to_string();
    d.compatibility.wrapper_detected = true;
    assert!(requires_wrapper_probe_refresh(&d));
    assert!(needs_runtime_metadata_bootstrap(&d));
    let target = runtime_probe_target(&d);
    assert_eq!(target.url, "https://example.com/a.zip");
    assert_eq!(target.request_referer, None);
}

#[test]
fn bootstrap_stream_and_restart_rules() {
    let mut d = record("a", DownloadStatus::Queued, 0);
    assert!(requires_unknown_size_restart(&d));
    assert!(!should_use_bootstrap_stream(&d));
    d.downloaded = 0;
    assert!(should_use_bootstrap_stream(&d));
    d.size = 4096;
    d.capabilities = DownloadCapabilities { resumable: true, range_supported: true, segmented: true };
    assert!(!should_use_bootstrap_stream(&d));
    assert!(!requires_unknown_size_restart(&d));
}

#[test]
fn fresh_validators_win_and_saved_fill_gaps() {
    let saved = ResumeValidators {
        etag: Some("\"v1\"".to_string()),
        last_modified: Some("yesterday".to_string()),
        content_length: Some(10),
        content_type: None,
        content_disposition: None,
    };
    let merged = merge_resume_validators(&saved, &bootstrap_probe("x").validators);
    assert_eq!(merged.etag.as_deref(), Some("\"v2\""));
    assert_eq!(merged.last_modified.as_deref(), Some("yesterday"));
    assert_eq!(merged.content_length, Some(4096));
}

#[test]
fn compatibility_merge_keeps_request_shape_of_preferred_side() {
    let mut saved = record("a", DownloadStatus::Queued, 0).compatibility;
    saved.wrapper_detected = true;
    saved.request_referer = Some("https://saved.example.com/".to_string());
    saved.request_method = DownloadRequestMethod::Post;
    saved.request_form_fields = vec![DownloadRequestField { name: "op".to_string(), value: "go".to_string() }];
    let mut fresh = bootstrap_probe("x").compatibility;
    fresh.wrapper_detected = true;
    let merged = merge_download_compatibility(&saved, &fresh);
    assert_eq!(merged.request_referer.as_deref(), Some("https://saved.example.com/"));
    assert_eq!(merged.request_method, DownloadRequestMethod::Post);
    assert_eq!(merged.request_form_fields.len(), 1);
    assert!(merged.browser_interstitial_only);
    assert_eq!(merged.redirect_chain, vec!["https://example.com/a".to_string()]);
    fresh.direct_url_recovered = true;
    let merged = merge_download_compatibility(&saved, &fresh);
    assert_eq!(merged.request_referer.as_deref(), Some("https://fresh.example.com/"));
    assert_eq!(merged.request_method, DownloadRequestMethod::Get);
    assert!(merged.request_form_fields.is_empty());
    assert!(!merged.browser_interstitial_only);
}

#[test]
fn bootstrap_merge_refreshes_the_download() {
    let mut d = record("a", DownloadStatus::Downloading, 0);
    d.downloaded = 0;
    let probe = bootstrap_probe("https://cdn.example.com/a.zip");
    apply_runtime_bootstrap_at(&mut d, &probe, 77);
    assert_eq!(d.host, "cdn.example.com");
    assert_eq!(d.final_url, "https://cdn.example.com/a.zip");
    assert_eq!(d.size, 4096);
    assert_eq!(d.content_type.as_deref(), Some("application/zip"));
    assert_eq!(d.host_protocol.as_deref(), Some("h2"));
    assert!(d.capabilities.range_supported && d.capabilities.resumable);
    assert_eq!(
        d.diagnostics.warnings,
        vec![
            "slow host".to_string(),
            "Transfer startup redirected to a different final URL while stabilizing metadata.".to_string(),
        ]
    );
    assert_eq!(
        d.diagnostics.notes,
        vec!["Live transfer bootstrap refreshed size and resume validators from the first stable download response.".to_string()]
    );
    let last = d.engine_log.last().expect("a log line");
    assert_eq!(last.timestamp, 77);
    assert_eq!(last.code, "runtime.bootstrap");
    assert_eq!(last.message, "Runtime bootstrap refreshed metadata and stabilized a new final URL.");
}
