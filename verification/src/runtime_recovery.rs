//! What a transfer error does to a download: whether it is retried, falls back to a single
//! stream, or stops.

use vstd::prelude::*;
use vstd::string::StringSliceAdditionalSpecFns;
use crate::download::{
    DownloadCapabilities, DownloadDiagnostics, DownloadFailureKind, DownloadLogLevel, DownloadRecord, DownloadStatus,
};
use crate::download_ops::{
    append_download_log, clear_download_terminal_state, clear_runtime_checkpoint, log_append_spec, log_view,
    reset_download_progress, reset_download_transient_state, reset_integrity_spec,
};
use crate::filename::texts_view;
use crate::model::opt_text;
use crate::text::{contains_ci, decimal_spec, push_decimal, str_contains_ci};

verus! {

pub const GUARDED_FALLBACK_WARNING: &'static str = "Host ignored the opening byte-range request; VDM is retrying this transfer in guarded single-stream mode.";
pub const GUARDED_FALLBACK_REASON: &'static str = "Retrying in guarded single-stream mode after the host ignored the first range request.";
pub const GUARDED_FALLBACK_LOG: &'static str = "Opening range validation failed before progress was committed; retrying in guarded single-stream mode.";
pub const RANGE_VALIDATION_WARNING: &'static str = "Host range validation failed during transfer; follow-up attempts will stay in single-connection mode until a fresh probe proves byte-range support again.";
pub const RANGE_VALIDATION_REASON: &'static str = "Host returned an invalid byte-range response; segmented transfer stopped to avoid corruption.";
pub const RETRIES_EXHAUSTED_REASON: &'static str = "Runtime retries exhausted.";
/// Runtime attempts after which a transfer error is final.
pub const RUNTIME_ATTEMPT_LIMIT: u32 = 3;

/// Whether a runtime error may be retried, and whether it was a byte-range validation failure.
#[derive(Clone, Copy, Debug, PartialEq, Eq, Structural)]
pub struct RuntimeErrorResolution {
    pub retry_allowed: bool,
    pub range_validation_failed: bool,
}

/// `values` with `message` appended unless it is there already.
pub open spec fn unique_push(values: Seq<Seq<char>>, message: Seq<char>) -> Seq<Seq<char>> {
    if values.contains(message) { values } else { values.push(message) }
}

/// Appends `message` to `values` unless an equal text is there already.
pub fn push_unique_diagnostic(values: &mut Vec<String>, message: &str)
    ensures
        texts_view(*final(values)) == unique_push(texts_view(*old(values)), message@),
{
    let ghost before = texts_view(*values);
    let mut i: usize = 0;
    while i < values.len()
        invariant
            i <= values@.len(),
            texts_view(*values) == before,
            forall|j: int| 0 <= j < i ==> before[j] != message@,
        decreases values@.len() - i,
    {
        if crate::text::str_equal(values[i].as_str(), message) {
            assert(before[i as int] == message@);
            return;
        }
        i = i + 1;
    }
    values.push(message.to_owned());
    assert(texts_view(*values) =~= before.push(message@));
}

/// Whether an error text reads as throttling, a timeout and a reset connection.
pub fn classify_runtime_error(error: &str) -> (r: (bool, bool, bool))
    ensures
        r.0 == (contains_ci(error.spec_bytes(), "429".spec_bytes()) || contains_ci(error.spec_bytes(), "too many requests".spec_bytes())),
        r.1 == (contains_ci(error.spec_bytes(), "timed out".spec_bytes()) || contains_ci(error.spec_bytes(), "timeout".spec_bytes())),
        r.2 == (contains_ci(error.spec_bytes(), "connection reset".spec_bytes()) || contains_ci(error.spec_bytes(), "reset by peer".spec_bytes())),
{
    let throttle = str_contains_ci(error, "429") || str_contains_ci(error, "too many requests");
    let timeout = str_contains_ci(error, "timed out") || str_contains_ci(error, "timeout");
    let reset = str_contains_ci(error, "connection reset") || str_contains_ci(error, "reset by peer");
    (throttle, timeout, reset)
}

/// Whether an error only reports that the transfer was stopped or its segment canceled.
pub fn runtime_control_flow_error(error: &str) -> (r: bool)
    ensures
        r == (contains_ci(error.spec_bytes(), "no longer active".spec_bytes())
            || contains_ci(error.spec_bytes(), "segment-canceled".spec_bytes())
            || contains_ci(error.spec_bytes(), "removed during transfer".spec_bytes())),
{
    str_contains_ci(error, "no longer active") || str_contains_ci(error, "segment-canceled")
        || str_contains_ci(error, "removed during transfer")
}

/// Whether an error reports invalid byte-range data.
pub fn runtime_validation_error(error: &str) -> (r: bool)
    ensures
        r == (contains_ci(error.spec_bytes(), "content-range".spec_bytes()) || contains_ci(error.spec_bytes(), "byte range".spec_bytes())),
{
    str_contains_ci(error, "content-range") || str_contains_ci(error, "byte range")
}

/// A range failure may be retried on a single stream while no byte of a sized download is kept.
pub open spec fn can_retry_after_range_failure_spec(d: DownloadRecord) -> bool {
    &&& d.size > 0
    &&& d.downloaded <= 0
    &&& forall|i: int| 0 <= i < d.segments@.len() ==> d.segments@[i].downloaded <= 0
}

pub fn can_retry_after_range_validation_failure(download: &DownloadRecord) -> (r: bool)
    ensures
        r == can_retry_after_range_failure_spec(*download),
{
    if download.size <= 0 || download.downloaded > 0 {
        return false;
    }
    let mut i: usize = 0;
    while i < download.segments.len()
        invariant
            i <= download.segments@.len(),
            forall|j: int| 0 <= j < i ==> download.segments@[j].downloaded <= 0,
        decreases download.segments@.len() - i,
    {
        if download.segments[i].downloaded > 0 {
            return false;
        }
        i = i + 1;
    }
    true
}

/// A download restarted from scratch on one connection, without range requests.
pub open spec fn guarded_fallback_spec(old_d: DownloadRecord, new_d: DownloadRecord) -> bool {
    &&& new_d.segments@.len() == 0
    &&& new_d.runtime_checkpoint.segment_samples@.len() == 0
    &&& new_d.runtime_checkpoint.active_races@.len() == 0
    &&& texts_view(new_d.diagnostics.warnings) == unique_push(texts_view(old_d.diagnostics.warnings), GUARDED_FALLBACK_WARNING@)
    &&& opt_text(new_d.diagnostics.terminal_reason) == Some(GUARDED_FALLBACK_REASON@)
    &&& new_d == (DownloadRecord {
        downloaded: 0,
        integrity: reset_integrity_spec(old_d.integrity),
        speed: 0,
        time_left: None,
        writer_backpressure: false,
        error_message: None,
        capabilities: DownloadCapabilities { range_supported: false, resumable: false, segmented: false },
        target_connections: 1,
        status: DownloadStatus::Queued,
        segments: new_d.segments,
        runtime_checkpoint: new_d.runtime_checkpoint,
        diagnostics: DownloadDiagnostics {
            failure_kind: None,
            restart_required: false,
            warnings: new_d.diagnostics.warnings,
            terminal_reason: new_d.diagnostics.terminal_reason,
            ..old_d.diagnostics
        },
        ..old_d
    })
}

/// Restarts a download from scratch on one connection, without range requests.
pub fn apply_guarded_single_stream_fallback(download: &mut DownloadRecord)
    ensures
        guarded_fallback_spec(*old(download), *final(download)),
{
    reset_download_progress(download);
    reset_download_transient_state(download);
    clear_download_terminal_state(download);
    clear_runtime_checkpoint(download);
    download.capabilities.range_supported = false;
    download.capabilities.resumable = false;
    download.capabilities.segmented = false;
    download.target_connections = 1;
    download.segments = Vec::new();
    download.status = DownloadStatus::Queued;
    download.diagnostics.failure_kind = None;
    download.diagnostics.restart_required = false;
    push_unique_diagnostic(&mut download.diagnostics.warnings, GUARDED_FALLBACK_WARNING);
    download.diagnostics.terminal_reason = Some(GUARDED_FALLBACK_REASON.to_owned());
}

/// A download stopped with an error of kind `kind`: its message, warnings and terminal reason
/// set, its runtime checkpoint dropped, and the log line `code` / `message` appended.
pub open spec fn stopped_with_error(
    old_d: DownloadRecord,
    new_d: DownloadRecord,
    error: Seq<char>,
    kind: DownloadFailureKind,
    warnings: Seq<Seq<char>>,
    terminal: Seq<char>,
    code: Seq<char>,
    message: Seq<char>,
) -> bool {
    &&& opt_text(new_d.error_message) == Some(error)
    &&& new_d.runtime_checkpoint.segment_samples@.len() == 0
    &&& new_d.runtime_checkpoint.active_races@.len() == 0
    &&& texts_view(new_d.diagnostics.warnings) == warnings
    &&& opt_text(new_d.diagnostics.terminal_reason) == Some(terminal)
    &&& exists|now: i64| log_view(new_d.engine_log@) == log_append_spec(
        log_view(old_d.engine_log@), DownloadLogLevel::Error, code, message, now)
    &&& new_d == (DownloadRecord {
        status: DownloadStatus::Error,
        error_message: new_d.error_message,
        runtime_checkpoint: new_d.runtime_checkpoint,
        engine_log: new_d.engine_log,
        diagnostics: DownloadDiagnostics {
            failure_kind: Some(kind),
            restart_required: true,
            warnings: new_d.diagnostics.warnings,
            terminal_reason: new_d.diagnostics.terminal_reason,
            ..old_d.diagnostics
        },
        ..old_d
    })
}

/// The terminal reason of a retried transfer error.
pub open spec fn recovering_reason(attempt: u32) -> Seq<char> {
    "Recovering from transfer error (attempt "@ + decimal_spec(attempt as nat) + ")."@
}

/// Decides what a runtime error does to a download on its `runtime_attempt`-th attempt.
pub fn reconcile_runtime_error(download: &mut DownloadRecord, error: &str, runtime_attempt: u32, validation_error: bool) -> (r: RuntimeErrorResolution)
    ensures
        if old(download).status == DownloadStatus::Paused || old(download).status == DownloadStatus::Stopped {
            &&& r == (RuntimeErrorResolution { retry_allowed: false, range_validation_failed: false })
            &&& *final(download) == *old(download)
        } else if validation_error && can_retry_after_range_failure_spec(*old(download)) {
            &&& r == (RuntimeErrorResolution { retry_allowed: true, range_validation_failed: true })
            &&& exists|mid: DownloadRecord| guarded_fallback_spec(*old(download), mid)
                && (exists|now: i64| log_view(final(download).engine_log@) == log_append_spec(
                    log_view(mid.engine_log@), DownloadLogLevel::Warn, "runtime.range-fallback"@, GUARDED_FALLBACK_LOG@, now))
                && *final(download) == (DownloadRecord { engine_log: final(download).engine_log, ..mid })
        } else if validation_error {
            &&& r == (RuntimeErrorResolution { retry_allowed: false, range_validation_failed: true })
            &&& stopped_with_error(*old(download), *final(download), error@, DownloadFailureKind::Validation,
                unique_push(texts_view(old(download).diagnostics.warnings), RANGE_VALIDATION_WARNING@),
                RANGE_VALIDATION_REASON@, "runtime.range-validation-failed"@,
                "Segmented runtime stopped after invalid byte-range data: "@ + error@)
        } else if runtime_attempt >= RUNTIME_ATTEMPT_LIMIT {
            &&& r == (RuntimeErrorResolution { retry_allowed: false, range_validation_failed: false })
            &&& stopped_with_error(*old(download), *final(download), error@, DownloadFailureKind::Network,
                texts_view(old(download).diagnostics.warnings), RETRIES_EXHAUSTED_REASON@, "runtime.retries-exhausted"@,
                "Segmented runtime exhausted retries: "@ + error@)
        } else {
            &&& r == (RuntimeErrorResolution { retry_allowed: true, range_validation_failed: false })
            &&& opt_text(final(download).diagnostics.terminal_reason) == Some(recovering_reason(runtime_attempt))
            &&& exists|now: i64| log_view(final(download).engine_log@) == log_append_spec(
                log_view(old(download).engine_log@), DownloadLogLevel::Warn, "runtime.retrying"@,
                "Recovering from transfer error: "@ + error@, now)
            &&& *final(download) == (DownloadRecord {
                status: DownloadStatus::Queued,
                error_message: None,
                engine_log: final(download).engine_log,
                diagnostics: DownloadDiagnostics { terminal_reason: final(download).diagnostics.terminal_reason, ..old(download).diagnostics },
                ..*old(download)
            })
        },
{
    if download.status == DownloadStatus::Paused || download.status == DownloadStatus::Stopped {
        return RuntimeErrorResolution { retry_allowed: false, range_validation_failed: false };
    }
    if validation_error && can_retry_after_range_validation_failure(download) {
        apply_guarded_single_stream_fallback(download);
        let ghost mid = *download;
        append_download_log(download, DownloadLogLevel::Warn, "runtime.range-fallback", GUARDED_FALLBACK_LOG);
        assert(guarded_fallback_spec(*old(download), mid));
        return RuntimeErrorResolution { retry_allowed: true, range_validation_failed: true };
    }
    if validation_error {
        download.status = DownloadStatus::Error;
        download.error_message = Some(error.to_owned());
        download.diagnostics.failure_kind = Some(DownloadFailureKind::Validation);
        download.diagnostics.restart_required = true;
        push_unique_diagnostic(&mut download.diagnostics.warnings, RANGE_VALIDATION_WARNING);
        download.diagnostics.terminal_reason = Some(RANGE_VALIDATION_REASON.to_owned());
        let mut message = String::new();
        message.append("Segmented runtime stopped after invalid byte-range data: ");
        message.append(error);
        append_download_log(download, DownloadLogLevel::Error, "runtime.range-validation-failed", message.as_str());
        clear_runtime_checkpoint(download);
        return RuntimeErrorResolution { retry_allowed: false, range_validation_failed: true };
    }
    if runtime_attempt >= RUNTIME_ATTEMPT_LIMIT {
        download.status = DownloadStatus::Error;
        download.error_message = Some(error.to_owned());
        download.diagnostics.failure_kind = Some(DownloadFailureKind::Network);
        download.diagnostics.restart_required = true;
        download.diagnostics.terminal_reason = Some(RETRIES_EXHAUSTED_REASON.to_owned());
        let mut message = String::new();
        message.append("Segmented runtime exhausted retries: ");
        message.append(error);
        append_download_log(download, DownloadLogLevel::Error, "runtime.retries-exhausted", message.as_str());
        clear_runtime_checkpoint(download);
        return RuntimeErrorResolution { retry_allowed: false, range_validation_failed: false };
    }
    download.status = DownloadStatus::Queued;
    download.error_message = None;
    let mut reason = String::new();
    reason.append("Recovering from transfer error (attempt ");
    push_decimal(&mut reason, runtime_attempt as u64);
    reason.append(").");
    download.diagnostics.terminal_reason = Some(reason);
    let mut message = String::new();
    message.append("Recovering from transfer error: ");
    message.append(error);
    append_download_log(download, DownloadLogLevel::Warn, "runtime.retrying", message.as_str());
    RuntimeErrorResolution { retry_allowed: true, range_validation_failed: false }
}

} // verus!
