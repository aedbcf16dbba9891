//! A download as the engine tracks it: its state, capabilities, diagnostics, runtime
//! checkpoint, integrity check and log.

use vstd::prelude::*;
use crate::model::{DownloadCompatibility, DownloadSegment, HostDiagnosticsSummary, TrafficMode};
use crate::probe::ResumeValidators;

verus! {

#[derive(Clone, Copy, Debug, PartialEq, Eq, Structural)]
pub enum DownloadStatus {
    Queued,
    Downloading,
    Paused,
    Stopped,
    Finished,
    Error,
}

#[derive(Clone, Copy, Debug, PartialEq, Eq, Structural)]
pub enum DownloadFailureKind {
    Http,
    Network,
    FileSystem,
    Validation,
}

#[derive(Clone, Copy, Debug, PartialEq, Eq, Structural)]
pub enum DownloadLogLevel {
    Info,
    Warn,
    Error,
}

#[derive(Clone, Copy, Debug, PartialEq, Eq, Structural)]
pub enum DownloadCategory {
    Compressed,
    Programs,
    Videos,
    Music,
    Pictures,
    Documents,
}

/// One line of a download's engine log.
#[derive(Clone, Debug)]
pub struct DownloadLogEntry {
    pub timestamp: i64,
    pub level: DownloadLogLevel,
    pub code: String,
    pub message: String,
}

#[derive(Clone, Copy, Debug, PartialEq, Eq, Structural)]
pub struct DownloadCapabilities {
    pub resumable: bool,
    pub range_supported: bool,
    pub segmented: bool,
}

#[derive(Clone, Debug)]
pub struct DownloadDiagnostics {
    pub warnings: Vec<String>,
    pub notes: Vec<String>,
    pub failure_kind: Option<DownloadFailureKind>,
    pub restart_required: bool,
    pub terminal_reason: Option<String>,
    pub checkpoint_flushes: u64,
    pub checkpoint_skips: u64,
    pub checkpoint_avg_flush_ms: u64,
    pub checkpoint_last_flush_ms: u64,
    pub checkpoint_disk_pressure_events: u64,
    pub contiguous_fsync_flushes: u64,
    pub contiguous_fsync_window_bytes: u64,
}

/// What the runtime last knew of one segment.
#[derive(Clone, Debug)]
pub struct DownloadRuntimeSegmentSample {
    pub segment_id: u32,
    pub remaining_bytes: u64,
    pub eta_seconds: Option<u64>,
    pub throughput_bytes_per_second: Option<u64>,
    pub retry_attempts: u32,
    pub terminal_failure_reason: Option<String>,
}

/// A slow segment raced by a challenger that repeats its tail.
#[derive(Clone, Copy, Debug, PartialEq, Eq, Structural)]
pub struct DownloadRuntimeRaceState {
    pub slow_segment_id: u32,
    pub companion_segment_id: u32,
    pub slow_baseline_downloaded: i64,
}

/// Runtime state kept across restarts of a transfer.
#[derive(Clone, Debug)]
pub struct DownloadRuntimeCheckpoint {
    pub segment_samples: Vec<DownloadRuntimeSegmentSample>,
    pub active_races: Vec<DownloadRuntimeRaceState>,
}

impl Default for DownloadRuntimeCheckpoint {
    fn default() -> (r: Self)
        ensures
            r.segment_samples@.len() == 0,
            r.active_races@.len() == 0,
    {
        DownloadRuntimeCheckpoint { segment_samples: Vec::new(), active_races: Vec::new() }
    }
}

#[derive(Clone, Copy, Debug, PartialEq, Eq, Structural)]
pub enum ChecksumAlgorithm {
    Md5,
    Sha1,
    Sha256,
    Sha512,
}

/// An expected checksum.
#[derive(Clone, Debug)]
pub struct ChecksumSpec {
    pub algorithm: ChecksumAlgorithm,
    pub value: String,
}

#[derive(Clone, Copy, Debug, PartialEq, Eq, Structural)]
pub enum IntegrityState {
    NoChecksum,
    Pending,
    Verifying,
    Verified,
    Mismatch,
}

/// The checksum check of a download.
#[derive(Clone, Debug)]
pub struct DownloadIntegrity {
    pub expected: Option<ChecksumSpec>,
    pub actual: Option<String>,
    pub checked_at: Option<i64>,
    pub state: IntegrityState,
    pub message: Option<String>,
}

/// A download.
#[derive(Clone, Debug)]
pub struct DownloadRecord {
    pub id: String,
    pub name: String,
    pub url: String,
    pub final_url: String,
    pub host: String,
    pub size: i64,
    pub downloaded: i64,
    pub status: DownloadStatus,
    pub manual_start_requested: bool,
    pub category: DownloadCategory,
    pub speed: u64,
    pub time_left: Option<u64>,
    pub date_added: i64,
    pub save_path: String,
    pub temp_path: String,
    pub target_path: String,
    pub queue: String,
    pub scheduled_for: Option<i64>,
    pub queue_position: u32,
    pub max_connections: u32,
    pub host_max_connections: Option<u32>,
    pub host_cooldown_until: Option<i64>,
    pub host_average_ttfb_ms: Option<u64>,
    pub host_average_throughput_bytes_per_second: Option<u64>,
    pub host_protocol: Option<String>,
    pub host_diagnostics: HostDiagnosticsSummary,
    pub traffic_mode: TrafficMode,
    pub speed_limit_bytes_per_second: Option<u64>,
    pub open_folder_on_completion: bool,
    pub error_message: Option<String>,
    pub content_type: Option<String>,
    pub capabilities: DownloadCapabilities,
    pub validators: ResumeValidators,
    pub compatibility: DownloadCompatibility,
    pub diagnostics: DownloadDiagnostics,
    pub segments: Vec<DownloadSegment>,
    pub target_connections: u32,
    pub writer_backpressure: bool,
    pub engine_log: Vec<DownloadLogEntry>,
    pub runtime_checkpoint: DownloadRuntimeCheckpoint,
    pub integrity: DownloadIntegrity,
}

} // verus!
