//! The records the engine plans over: segments, host profiles, settings and downloads.

use vstd::prelude::*;

verus! {

/// Lifecycle of one byte range of a download.
#[derive(Clone, Copy, Debug, PartialEq, Eq, Structural)]
pub enum DownloadSegmentStatus {
    Pending,
    Downloading,
    Finished,
}

/// One contiguous, inclusive byte range `[start, end]` of a download, of which
/// `downloaded` bytes have been written.
#[derive(Clone, Copy, Debug, PartialEq, Eq, Structural)]
pub struct DownloadSegment {
    pub id: u32,
    pub start: i64,
    pub end: i64,
    pub downloaded: i64,
    pub retry_attempts: u32,
    pub retry_budget: u32,
    pub status: DownloadSegmentStatus,
}

/// How aggressively the engine may use the network.
#[derive(Clone, Copy, Debug, PartialEq, Eq, Structural)]
pub enum TrafficMode {
    Low,
    Medium,
    High,
    Max,
}

/// The release channel updates are taken from.
#[derive(Clone, Copy, Debug, PartialEq, Eq, Structural)]
pub enum AppUpdateChannel {
    Stable,
}

/// HTTP method used to request a download.
#[derive(Clone, Copy, Debug, PartialEq, Eq, Structural)]
pub enum DownloadRequestMethod {
    Get,
    Post,
}

/// One form field replayed with a download request.
#[derive(Clone, Debug)]
pub struct DownloadRequestField {
    pub name: String,
    pub value: String,
}

/// How a download was reached and named, and the exact request shape that serves it.
#[derive(Clone, Debug)]
pub struct DownloadCompatibility {
    pub redirect_chain: Vec<String>,
    pub filename_source: Option<String>,
    pub classification: Option<String>,
    pub wrapper_detected: bool,
    pub direct_url_recovered: bool,
    pub browser_interstitial_only: bool,
    pub request_referer: Option<String>,
    pub request_cookies: Option<String>,
    pub request_method: DownloadRequestMethod,
    pub request_form_fields: Vec<DownloadRequestField>,
}

/// Why a host or request shape had its concurrency locked.
#[derive(Clone, Debug)]
pub enum LockReason {
    ProbeFailures,
    CooldownActive,
    RampNoGain,
    Other(String),
}

/// Engine-wide settings that the planners read.
#[derive(Clone, Debug)]
pub struct EngineSettings {
    pub experimental_uncapped_mode: bool,
    pub traffic_mode: TrafficMode,
    pub target_chunk_time_seconds: u32,
    pub min_segment_size_bytes: u64,
    pub max_active_downloads: u32,
    pub speed_limit_bytes_per_second: Option<u64>,
    pub skipped_update_version: Option<String>,
    pub update_channel: AppUpdateChannel,
    pub late_segment_ratio_percent: u32,
    pub segment_checkpoint_min_interval_ms: u32,
    pub segment_checkpoint_max_interval_ms: u32,
}

/// What was learned about one exact request shape (method, URL and form fields) of a host.
#[derive(Clone, Debug)]
pub struct ProbeScopeCache {
    pub range_supported: Option<bool>,
    pub resumable: Option<bool>,
    pub hard_no_range: bool,
    pub content_length_hint: Option<u64>,
    pub last_probe_at: Option<i64>,
    pub probe_failure_streak: u32,
    pub last_probe_error_at: Option<i64>,
    pub last_instability_at: Option<i64>,
    pub cooldown_until: Option<i64>,
    pub telemetry_samples: u32,
    pub last_telemetry_at: Option<i64>,
    pub average_ttfb_ms: Option<u64>,
    pub average_throughput_bytes_per_second: Option<u64>,
    pub concurrency_locked: bool,
    pub locked_connections: Option<u32>,
    pub lock_reason: Option<LockReason>,
    pub throttle_events: u32,
    pub timeout_events: u32,
    pub reset_events: u32,
    pub ramp_attempts_without_gain: u32,
}

/// The blank scope record that a first observation starts from.
pub open spec fn empty_scope() -> ProbeScopeCache {
    ProbeScopeCache {
        range_supported: None,
        resumable: None,
        hard_no_range: false,
        content_length_hint: None,
        last_probe_at: None,
        probe_failure_streak: 0,
        last_probe_error_at: None,
        last_instability_at: None,
        cooldown_until: None,
        telemetry_samples: 0,
        last_telemetry_at: None,
        average_ttfb_ms: None,
        average_throughput_bytes_per_second: None,
        concurrency_locked: false,
        locked_connections: None,
        lock_reason: None,
        throttle_events: 0,
        timeout_events: 0,
        reset_events: 0,
        ramp_attempts_without_gain: 0,
    }
}

impl Default for ProbeScopeCache {
    fn default() -> (r: Self)
        ensures
            r == empty_scope(),
    {
        ProbeScopeCache {
            range_supported: None,
            resumable: None,
            hard_no_range: false,
            content_length_hint: None,
            last_probe_at: None,
            probe_failure_streak: 0,
            last_probe_error_at: None,
            last_instability_at: None,
            cooldown_until: None,
            telemetry_samples: 0,
            last_telemetry_at: None,
            average_ttfb_ms: None,
            average_throughput_bytes_per_second: None,
            concurrency_locked: false,
            locked_connections: None,
            lock_reason: None,
            throttle_events: 0,
            timeout_events: 0,
            reset_events: 0,
            ramp_attempts_without_gain: 0,
        }
    }
}

/// A request-shape key together with what was learned for it.
#[derive(Clone, Debug)]
pub struct ProbeScopeEntry {
    pub key: String,
    pub scope: ProbeScopeCache,
}

/// Everything the engine has learned about one host.
#[derive(Clone, Debug)]
pub struct HostProfile {
    pub max_connections: Option<u32>,
    pub cooldown_until: Option<i64>,
    pub concurrency_locked: bool,
    pub locked_connections: Option<u32>,
    pub lock_reason: Option<LockReason>,
    pub negotiated_protocol: Option<String>,
    pub protocol_reuse_events: u32,
    pub protocol_new_connection_events: u32,
    pub protocol_downgrade_events: u32,
    pub protocol_samples: u32,
    pub telemetry_samples: u32,
    pub average_ttfb_ms: Option<u64>,
    pub average_throughput_bytes_per_second: Option<u64>,
    pub throttle_events: u32,
    pub timeout_events: u32,
    pub reset_events: u32,
    pub stable_recovery_samples: u32,
    pub last_telemetry_at: Option<i64>,
    pub ramp_attempts_without_gain: u32,
    pub range_supported: Option<bool>,
    pub resumable: Option<bool>,
    pub hard_no_range: bool,
    pub last_probe_at: Option<i64>,
    pub last_probe_error_at: Option<i64>,
    pub probe_failure_streak: u32,
    pub content_length_hint: Option<u64>,
    pub probe_scopes: Vec<ProbeScopeEntry>,
}

impl Default for HostProfile {
    fn default() -> (r: Self)
        ensures
            r.max_connections is None && r.cooldown_until is None && !r.concurrency_locked,
            r.locked_connections is None && r.lock_reason is None && r.negotiated_protocol is None,
            r.protocol_reuse_events == 0 && r.protocol_new_connection_events == 0,
            r.protocol_downgrade_events == 0 && r.protocol_samples == 0 && r.telemetry_samples == 0,
            r.average_ttfb_ms is None && r.average_throughput_bytes_per_second is None,
            r.throttle_events == 0 && r.timeout_events == 0 && r.reset_events == 0,
            r.stable_recovery_samples == 0 && r.last_telemetry_at is None && r.ramp_attempts_without_gain == 0,
            r.range_supported is None && r.resumable is None && !r.hard_no_range,
            r.last_probe_at is None && r.last_probe_error_at is None && r.probe_failure_streak == 0,
            r.content_length_hint is None && r.probe_scopes@.len() == 0,
    {
        HostProfile {
            max_connections: None,
            cooldown_until: None,
            concurrency_locked: false,
            locked_connections: None,
            lock_reason: None,
            negotiated_protocol: None,
            protocol_reuse_events: 0,
            protocol_new_connection_events: 0,
            protocol_downgrade_events: 0,
            protocol_samples: 0,
            telemetry_samples: 0,
            average_ttfb_ms: None,
            average_throughput_bytes_per_second: None,
            throttle_events: 0,
            timeout_events: 0,
            reset_events: 0,
            stable_recovery_samples: 0,
            last_telemetry_at: None,
            ramp_attempts_without_gain: 0,
            range_supported: None,
            resumable: None,
            hard_no_range: false,
            last_probe_at: None,
            last_probe_error_at: None,
            probe_failure_streak: 0,
            content_length_hint: None,
            probe_scopes: Vec::new(),
        }
    }
}

/// A host profile as values: the protocol label as text and each request-shape record as a
/// (key, record) pair, in the order they were first seen.
pub struct HostProfileView {
    pub max_connections: Option<u32>,
    pub cooldown_until: Option<i64>,
    pub concurrency_locked: bool,
    pub locked_connections: Option<u32>,
    pub lock_reason: Option<LockReason>,
    pub negotiated_protocol: Option<Seq<char>>,
    pub protocol_reuse_events: u32,
    pub protocol_new_connection_events: u32,
    pub protocol_downgrade_events: u32,
    pub protocol_samples: u32,
    pub telemetry_samples: u32,
    pub average_ttfb_ms: Option<u64>,
    pub average_throughput_bytes_per_second: Option<u64>,
    pub throttle_events: u32,
    pub timeout_events: u32,
    pub reset_events: u32,
    pub stable_recovery_samples: u32,
    pub last_telemetry_at: Option<i64>,
    pub ramp_attempts_without_gain: u32,
    pub range_supported: Option<bool>,
    pub resumable: Option<bool>,
    pub hard_no_range: bool,
    pub last_probe_at: Option<i64>,
    pub last_probe_error_at: Option<i64>,
    pub probe_failure_streak: u32,
    pub content_length_hint: Option<u64>,
    pub probe_scopes: Seq<(Seq<char>, ProbeScopeCache)>,
}

/// A label as text, if present.
pub open spec fn opt_text(value: Option<String>) -> Option<Seq<char>> {
    match value {
        Some(s) => Some(s@),
        None => None,
    }
}

impl View for HostProfile {
    type V = HostProfileView;

    open spec fn view(&self) -> HostProfileView {
        HostProfileView {
            max_connections: self.max_connections,
            cooldown_until: self.cooldown_until,
            concurrency_locked: self.concurrency_locked,
            locked_connections: self.locked_connections,
            lock_reason: self.lock_reason,
            negotiated_protocol: opt_text(self.negotiated_protocol),
            protocol_reuse_events: self.protocol_reuse_events,
            protocol_new_connection_events: self.protocol_new_connection_events,
            protocol_downgrade_events: self.protocol_downgrade_events,
            protocol_samples: self.protocol_samples,
            telemetry_samples: self.telemetry_samples,
            average_ttfb_ms: self.average_ttfb_ms,
            average_throughput_bytes_per_second: self.average_throughput_bytes_per_second,
            throttle_events: self.throttle_events,
            timeout_events: self.timeout_events,
            reset_events: self.reset_events,
            stable_recovery_samples: self.stable_recovery_samples,
            last_telemetry_at: self.last_telemetry_at,
            ramp_attempts_without_gain: self.ramp_attempts_without_gain,
            range_supported: self.range_supported,
            resumable: self.resumable,
            hard_no_range: self.hard_no_range,
            last_probe_at: self.last_probe_at,
            last_probe_error_at: self.last_probe_error_at,
            probe_failure_streak: self.probe_failure_streak,
            content_length_hint: self.content_length_hint,
            probe_scopes: crate::scopes::entries_view(self.probe_scopes@),
        }
    }
}

/// One telemetry report from a running transfer.
#[derive(Clone, Debug)]
pub struct HostTelemetryArgs {
    pub host: String,
    pub scope_key: Option<String>,
    pub throttle_event: bool,
    pub timeout_event: bool,
    pub reset_event: bool,
    pub range_validation_failed: bool,
    pub ttfb_ms: Option<u64>,
    pub throughput_bytes_per_second: Option<u64>,
    pub negotiated_protocol: Option<String>,
    pub connection_reused: Option<bool>,
    pub sustained_gain_bytes_per_second: Option<i64>,
    pub attempted_connections: Option<u32>,
}

/// The per-download summary of host state shown to the user.
#[derive(Clone, Debug)]
pub struct HostDiagnosticsSummary {
    pub hard_no_range: bool,
    pub concurrency_locked: bool,
    pub lock_reason: Option<LockReason>,
    pub cooldown_until: Option<i64>,
    pub negotiated_protocol: Option<String>,
    pub reuse_connections: Option<bool>,
}

} // verus!
