//! How a download is planned against what is known of its host: the request-shape key,
//! rate limits, buffer sizes, connection targets and the segment plan.

use vstd::prelude::*;
use vstd::string::StringSliceAdditionalSpecFns;
use crate::arith::{ceil_div, clamp_int, max_int, min_int, sat_mul, u64_div_ceil, u64_max, u64_sat_mul};
use crate::chars::{before_first, concat_chars, prefix_before, string_from_chars, trim_chars, trim_ws, TrimClass};
use crate::download::{DownloadFailureKind, DownloadRecord};
use crate::model::{opt_text, DownloadRequestField, DownloadRequestMethod, DownloadSegmentStatus, EngineSettings, HostProfile, TrafficMode};
use crate::text::{chars_of, contains_ci, starts_with_ci, str_contains_ci, str_starts_with_ci};
use crate::urls::{url_without_fragment, without_fragment};

verus! {

pub const TRAFFIC_MODE_LOW_BUFFER_BYTES: usize = 524288;
pub const TRAFFIC_MODE_MEDIUM_BUFFER_BYTES: usize = 1048576;
pub const TRAFFIC_MODE_HIGH_BUFFER_BYTES: usize = 2097152;
pub const TRAFFIC_MODE_MAX_BUFFER_BYTES: usize = 4194304;
pub const RUNTIME_CHUNK_BUFFER_FLOOR_BYTES: usize = 262144;
pub const RUNTIME_CHUNK_BUFFER_CEILING_BYTES: usize = 8388608;
pub const RATE_LIMITER_MIN_BURST_BYTES: u64 = 524288;
/// The least rate a host in cooldown is limited to.
pub const HOST_RATE_FLOOR_BYTES: u64 = 524288;

/// A token bucket holds two seconds of its rate, and at least the minimum burst.
pub fn token_bucket_burst_bytes(rate_bytes_per_second: u64) -> (r: u64)
    ensures
        r == max_int(crate::arith::sat_mul(rate_bytes_per_second as int, 2), RATE_LIMITER_MIN_BURST_BYTES as int),
{
    u64_max(u64_sat_mul(rate_bytes_per_second, 2), RATE_LIMITER_MIN_BURST_BYTES)
}

/// The rate a host in cooldown is held to: its average throughput (at least the floor),
/// halved after throttling and cut by a quarter after timeouts, never below the floor.
pub open spec fn host_rate_spec(profile: Option<HostProfile>, now: i64) -> Option<u64> {
    match profile {
        None => None,
        Some(p) => match p.average_throughput_bytes_per_second {
            None => None,
            Some(base) => match p.cooldown_until {
                None => None,
                Some(deadline) => if deadline <= now {
                    None
                } else {
                    let a0 = max_int(base as int, HOST_RATE_FLOOR_BYTES as int);
                    let a1 = if p.throttle_events > 0 { max_int(a0 / 2, HOST_RATE_FLOOR_BYTES as int) } else { a0 };
                    let a2 = if p.timeout_events > 0 { max_int(sat_mul(a1, 3) / 4, HOST_RATE_FLOOR_BYTES as int) } else { a1 };
                    Some(a2 as u64)
                },
            },
        },
    }
}

pub fn host_token_bucket_rate_at(profile: Option<&HostProfile>, now: i64) -> (r: Option<u64>)
    ensures
        r == host_rate_spec(crate::host_planner::opt_profile(profile), now),
{
    let p = match profile {
        Some(p) => p,
        None => { return None; },
    };
    let base = match p.average_throughput_bytes_per_second {
        Some(b) => b,
        None => { return None; },
    };
    match p.cooldown_until {
        Some(deadline) => {
            if deadline <= now {
                return None;
            }
        },
        None => { return None; },
    }
    let mut adapted = u64_max(base, HOST_RATE_FLOOR_BYTES);
    if p.throttle_events > 0 {
        adapted = u64_max(adapted / 2, HOST_RATE_FLOOR_BYTES);
    }
    if p.timeout_events > 0 {
        adapted = u64_max(u64_sat_mul(adapted, 3) / 4, HOST_RATE_FLOOR_BYTES);
    }
    Some(adapted)
}

/// The rate limit of a host, read at the current time.
pub fn host_token_bucket_rate(profile: Option<&HostProfile>) -> (r: Option<u64>)
    ensures
        exists|now: i64| r == host_rate_spec(crate::host_planner::opt_profile(profile), now),
{
    let now = crate::host_planner::unix_epoch_millis();
    host_token_bucket_rate_at(profile, now)
}

/// A positive limit of the download, else a positive limit of the settings.
pub open spec fn speed_limit_spec(own: Option<u64>, global: Option<u64>) -> Option<u64> {
    match own {
        Some(v) if v > 0 => Some(v),
        _ => match global {
            Some(v) if v > 0 => Some(v),
            _ => None,
        },
    }
}

pub fn effective_download_speed_limit(download: &DownloadRecord, settings: &EngineSettings) -> (r: Option<u64>)
    ensures
        r == speed_limit_spec(download.speed_limit_bytes_per_second, settings.speed_limit_bytes_per_second),
{
    match download.speed_limit_bytes_per_second {
        Some(v) => {
            if v > 0 {
                return Some(v);
            }
        },
        None => {},
    }
    match settings.speed_limit_bytes_per_second {
        Some(v) => if v > 0 { Some(v) } else { None },
        None => None,
    }
}

/// A known, positive size.
pub fn planned_download_size(size: i64) -> (r: Option<u64>)
    ensures
        r == (if size > 0 { Some(size as u64) } else { None::<u64> }),
{
    if size > 0 { Some(size as u64) } else { None }
}

pub open spec fn buffer_base_spec(mode: TrafficMode) -> int {
    match mode {
        TrafficMode::Low => TRAFFIC_MODE_LOW_BUFFER_BYTES as int,
        TrafficMode::Medium => TRAFFIC_MODE_MEDIUM_BUFFER_BYTES as int,
        TrafficMode::High => TRAFFIC_MODE_HIGH_BUFFER_BYTES as int,
        TrafficMode::Max => TRAFFIC_MODE_MAX_BUFFER_BYTES as int,
    }
}

pub fn runtime_chunk_buffer_base_size(traffic_mode: &TrafficMode) -> (r: usize)
    ensures
        r == buffer_base_spec(*traffic_mode),
{
    match traffic_mode {
        TrafficMode::Low => TRAFFIC_MODE_LOW_BUFFER_BYTES,
        TrafficMode::Medium => TRAFFIC_MODE_MEDIUM_BUFFER_BYTES,
        TrafficMode::High => TRAFFIC_MODE_HIGH_BUFFER_BYTES,
        TrafficMode::Max => TRAFFIC_MODE_MAX_BUFFER_BYTES,
    }
}

pub open spec fn buffer_floor_spec(base: int) -> int {
    max_int(base / 4, RUNTIME_CHUNK_BUFFER_FLOOR_BYTES as int)
}

pub fn runtime_chunk_buffer_floor(base: usize) -> (r: usize)
    ensures
        r == buffer_floor_spec(base as int),
{
    let q = base / 4;
    if q > RUNTIME_CHUNK_BUFFER_FLOOR_BYTES { q } else { RUNTIME_CHUNK_BUFFER_FLOOR_BYTES }
}

pub open spec fn buffer_ceiling_spec(base: int) -> int {
    clamp_int(min_int(base * 2, usize::MAX as int), buffer_floor_spec(base), RUNTIME_CHUNK_BUFFER_CEILING_BYTES as int)
}

pub fn runtime_chunk_buffer_ceiling(base: usize) -> (r: usize)
    requires
        buffer_floor_spec(base as int) <= RUNTIME_CHUNK_BUFFER_CEILING_BYTES,
    ensures
        r == buffer_ceiling_spec(base as int),
{
    let doubled = if base > usize::MAX / 2 { usize::MAX } else { base * 2 };
    let floor = runtime_chunk_buffer_floor(base);
    if doubled < floor { floor } else if doubled > RUNTIME_CHUNK_BUFFER_CEILING_BYTES { RUNTIME_CHUNK_BUFFER_CEILING_BYTES } else { doubled }
}

/// Milliseconds of throughput a buffer holds at a disk queue utilization.
pub open spec fn buffer_window_spec(utilization: int) -> int {
    if 85 <= utilization <= 100 { 128 }
    else if 70 <= utilization <= 84 { 96 }
    else if 55 <= utilization <= 69 { 64 }
    else if 0 <= utilization <= 34 { 32 }
    else { 48 }
}

/// A read buffer of `window` milliseconds of throughput, within the floor and ceiling of the
/// traffic mode's base size (the base itself while nothing is measured).
pub open spec fn buffer_size_spec(mode: TrafficMode, throughput: u64, utilization: int) -> int {
    let base = buffer_base_spec(mode);
    let floor = buffer_floor_spec(base);
    let ceiling = buffer_ceiling_spec(base);
    if throughput == 0 {
        clamp_int(base, floor, ceiling)
    } else {
        let target = ceil_div(crate::arith::sat_mul(throughput as int, buffer_window_spec(utilization)), 1000);
        clamp_int(min_int(target, usize::MAX as int), floor, ceiling)
    }
}

pub fn runtime_chunk_buffer_size_with_pressure(traffic_mode: &TrafficMode, throughput_bytes_per_second: u64, queue_utilization_percent: usize) -> (r: usize)
    ensures
        r == buffer_size_spec(*traffic_mode, throughput_bytes_per_second, queue_utilization_percent as int),
{
    let base = runtime_chunk_buffer_base_size(traffic_mode);
    let floor = runtime_chunk_buffer_floor(base);
    let ceiling = runtime_chunk_buffer_ceiling(base);
    let value: usize = if throughput_bytes_per_second == 0 {
        base
    } else {
        let window: u64 = if 85 <= queue_utilization_percent && queue_utilization_percent <= 100 { 128 }
            else if 70 <= queue_utilization_percent && queue_utilization_percent <= 84 { 96 }
            else if 55 <= queue_utilization_percent && queue_utilization_percent <= 69 { 64 }
            else if queue_utilization_percent <= 34 { 32 }
            else { 48 };
        let target = u64_div_ceil(u64_sat_mul(throughput_bytes_per_second, window), 1000);
        if target > usize::MAX as u64 { usize::MAX } else { target as usize }
    };
    if value < floor { floor } else if value > ceiling { ceiling } else { value }
}

/// Whether bytes of a download were kept or one of its segments is transferring.
pub open spec fn live_transfer_spec(d: DownloadRecord) -> bool {
    d.downloaded > 0 || exists|i: int| #![trigger d.segments@[i]] 0 <= i < d.segments@.len()
        && (d.segments@[i].downloaded > 0 || d.segments@[i].status == DownloadSegmentStatus::Downloading)
}

pub fn has_live_transfer_state(download: &DownloadRecord) -> (r: bool)
    ensures
        r == live_transfer_spec(*download),
{
    if download.downloaded > 0 {
        return true;
    }
    let mut i: usize = 0;
    while i < download.segments.len()
        invariant
            i <= download.segments@.len(),
            download.downloaded <= 0,
            forall|j: int| #![trigger download.segments@[j]] 0 <= j < i ==> !(download.segments@[j].downloaded > 0
                || download.segments@[j].status == DownloadSegmentStatus::Downloading),
        decreases download.segments@.len() - i,
    {
        let s = download.segments[i];
        if s.downloaded > 0 || s.status == DownloadSegmentStatus::Downloading {
            return true;
        }
        i = i + 1;
    }
    false
}

/// Whether the exact request of a download can be replayed per byte range.
pub fn compatibility_request_context_supports_segmented_transfer(download: &DownloadRecord) -> (r: bool)
    ensures
        r == crate::http_helpers::segmented_shape_spec(download.compatibility.request_method, download.compatibility.request_form_fields@.len() as int),
{
    crate::http_helpers::request_context_supports_segmented_transfer(&download.compatibility.request_method,
        download.compatibility.request_form_fields.as_slice())
}

/// Segments are used for a sized, resumable, range-capable download with more than one
/// connection whose request can be replayed per range.
pub open spec fn segmented_mode_spec(d: DownloadRecord) -> bool {
    &&& d.capabilities.range_supported
    &&& d.capabilities.resumable
    &&& d.size > 0
    &&& d.max_connections > 1
    &&& crate::http_helpers::segmented_shape_spec(d.compatibility.request_method, d.compatibility.request_form_fields@.len() as int)
}

pub fn should_use_segmented_mode(download: &DownloadRecord) -> (r: bool)
    ensures
        r == segmented_mode_spec(*download),
{
    download.capabilities.range_supported && download.capabilities.resumable && download.size > 0
        && download.max_connections > 1 && compatibility_request_context_supports_segmented_transfer(download)
}

/// The kind of a segmented transfer failure read from its message.
pub open spec fn task_failure_kind_spec(e: Seq<u8>) -> DownloadFailureKind {
    if starts_with_ci(e, "http ".spec_bytes()) {
        DownloadFailureKind::Http
    } else if contains_ci(e, "range".spec_bytes()) || contains_ci(e, "validation".spec_bytes()) {
        DownloadFailureKind::Validation
    } else if contains_ci(e, "disk".spec_bytes()) || contains_ci(e, "file".spec_bytes()) || contains_ci(e, "volume".spec_bytes())
        || contains_ci(e, "space".spec_bytes()) || contains_ci(e, "reserve".spec_bytes()) || contains_ci(e, "rename".spec_bytes())
        || contains_ci(e, "sync".spec_bytes()) {
        DownloadFailureKind::FileSystem
    } else {
        DownloadFailureKind::Network
    }
}

pub fn classify_runtime_task_failure_kind(error: &str) -> (r: DownloadFailureKind)
    ensures
        r == task_failure_kind_spec(error.spec_bytes()),
{
    if str_starts_with_ci(error, "http ") {
        return DownloadFailureKind::Http;
    }
    if str_contains_ci(error, "range") || str_contains_ci(error, "validation") {
        return DownloadFailureKind::Validation;
    }
    if str_contains_ci(error, "disk") || str_contains_ci(error, "file") || str_contains_ci(error, "volume")
        || str_contains_ci(error, "space") || str_contains_ci(error, "reserve") || str_contains_ci(error, "rename")
        || str_contains_ci(error, "sync") {
        return DownloadFailureKind::FileSystem;
    }
    DownloadFailureKind::Network
}

/// The kind of a single-stream failure of unknown size read from its message.
pub open spec fn unknown_size_failure_kind_spec(e: Seq<u8>) -> DownloadFailureKind {
    if contains_ci(e, "disk write".spec_bytes()) || contains_ci(e, "disk space".spec_bytes())
        || contains_ci(e, "volume ran out of space".spec_bytes()) || contains_ci(e, "syncing temp file".spec_bytes())
        || contains_ci(e, "target location".spec_bytes()) || contains_ci(e, "moving temp file".spec_bytes())
        || contains_ci(e, "copying completed temp file".spec_bytes()) || contains_ci(e, "restoring the previous target".spec_bytes()) {
        DownloadFailureKind::FileSystem
    } else if starts_with_ci(e, "http ".spec_bytes()) {
        DownloadFailureKind::Http
    } else {
        DownloadFailureKind::Network
    }
}

pub fn classify_unknown_size_failure_kind(error: &str) -> (r: DownloadFailureKind)
    ensures
        r == unknown_size_failure_kind_spec(error.spec_bytes()),
{
    if str_contains_ci(error, "disk write") || str_contains_ci(error, "disk space")
        || str_contains_ci(error, "volume ran out of space") || str_contains_ci(error, "syncing temp file")
        || str_contains_ci(error, "target location") || str_contains_ci(error, "moving temp file")
        || str_contains_ci(error, "copying completed temp file") || str_contains_ci(error, "restoring the previous target") {
        return DownloadFailureKind::FileSystem;
    }
    if str_starts_with_ci(error, "http ") {
        return DownloadFailureKind::Http;
    }
    DownloadFailureKind::Network
}

/// A URL as a request-shape key: its serialization without fragment, or, when it does not
/// parse, the text before any `#`, trimmed.
pub open spec fn normalized_probe_url_spec(url: Seq<char>) -> Seq<char> {
    match url_without_fragment(url) {
        Some(s) => s,
        None => trim_ws(before_first(url, '#')),
    }
}

pub fn normalize_probe_url(url: &str) -> (r: String)
    ensures
        r@ == normalized_probe_url_spec(url@),
{
    match without_fragment(url) {
        Some(s) => s,
        None => {
            let all = chars_of(url);
            let head = prefix_before(all.as_slice(), '#');
            let t = trim_chars(head.as_slice(), TrimClass::WhiteSpace);
            string_from_chars(t.as_slice())
        },
    }
}

/// `name=value` pairs of the first `n` form fields joined by `&`.
pub open spec fn field_signature(fields: Seq<DownloadRequestField>, n: int) -> Seq<char>
    decreases n,
{
    if n <= 0 {
        Seq::empty()
    } else if n == 1 {
        fields[0].name@ + "="@ + fields[0].value@
    } else {
        field_signature(fields, n - 1) + "&"@ + fields[n - 1].name@ + "="@ + fields[n - 1].value@
    }
}

/// The key of an exact request shape: method, URL without fragment, and the form fields.
pub open spec fn probe_scope_key_spec(url: Seq<char>, method: DownloadRequestMethod, fields: Seq<DownloadRequestField>) -> Seq<char> {
    let label = match method {
        DownloadRequestMethod::Get => "get"@,
        DownloadRequestMethod::Post => "post"@,
    };
    let head = label + "|"@ + normalized_probe_url_spec(url);
    if fields.len() == 0 { head } else { head + "|"@ + field_signature(fields, fields.len() as int) }
}

pub fn probe_scope_key(url: &str, request_method: &DownloadRequestMethod, request_form_fields: &[DownloadRequestField]) -> (r: String)
    ensures
        r@ == probe_scope_key_spec(url@, *request_method, request_form_fields@),
{
    let mut out = String::new();
    match request_method {
        DownloadRequestMethod::Get => out.append("get"),
        DownloadRequestMethod::Post => out.append("post"),
    }
    out.append("|");
    let normalized = normalize_probe_url(url);
    out.append(normalized.as_str());
    if request_form_fields.len() == 0 {
        return out;
    }
    out.append("|");
    let ghost head = out@;
    let mut i: usize = 0;
    while i < request_form_fields.len()
        invariant
            i <= request_form_fields@.len(),
            out@ == head + field_signature(request_form_fields@, i as int),
        decreases request_form_fields@.len() - i,
    {
        let ghost before = out@;
        if i > 0 {
            out.append("&");
        }
        out.append(request_form_fields[i].name.as_str());
        out.append("=");
        out.append(request_form_fields[i].value.as_str());
        proof {
            if i == 0 {
                assert(field_signature(request_form_fields@, 0) =~= Seq::<char>::empty());
                assert(out@ =~= head + field_signature(request_form_fields@, 1));
            } else {
                assert(out@ =~= head + field_signature(request_form_fields@, i + 1));
            }
        }
        i = i + 1;
    }
    out
}

/// The request-shape key of a download.
pub open spec fn download_scope_key_spec(d: DownloadRecord) -> Seq<char> {
    probe_scope_key_spec(d.url@, d.compatibility.request_method, d.compatibility.request_form_fields@)
}

pub fn download_scope_key(download: &DownloadRecord) -> (r: String)
    ensures
        r@ == download_scope_key_spec(*download),
{
    probe_scope_key(download.url.as_str(), &download.compatibility.request_method, download.compatibility.request_form_fields.as_slice())
}

/// The connections a download runs with: one unless it is sized, range-capable, resumable and
/// replayable per range; its current target (within the maximum) while a transfer is live;
/// else the starting target for its host and request shape.
pub open spec fn reconcile_target_spec(
    range_supported: bool,
    resumable: bool,
    size: i64,
    shape_ok: bool,
    live: bool,
    current_target: u32,
    key: Seq<char>,
    settings: EngineSettings,
    max_connections: u32,
    profile: Option<HostProfile>,
    now: i64,
) -> int {
    let m = max_int(max_connections as int, 1);
    if !range_supported || !resumable || size <= 0 || !shape_ok {
        1
    } else if live {
        min_int(max_int(current_target as int, 1), m)
    } else {
        crate::host_planner::initial_target_spec(m, settings, profile, Some(key),
            if size > 0 { Some(size as u64) } else { None::<u64> }, now)
    }
}

pub open spec fn record_target_spec(d: DownloadRecord, settings: EngineSettings, max_connections: u32, profile: Option<HostProfile>, now: i64) -> int {
    reconcile_target_spec(d.capabilities.range_supported, d.capabilities.resumable, d.size,
        crate::http_helpers::segmented_shape_spec(d.compatibility.request_method, d.compatibility.request_form_fields@.len() as int),
        live_transfer_spec(d), d.target_connections, download_scope_key_spec(d), settings, max_connections, profile, now)
}

pub fn reconcile_download_target_connections_at(
    download: &DownloadRecord,
    settings: &EngineSettings,
    effective_max_connections: u32,
    host_profile: Option<&HostProfile>,
    now: i64,
) -> (r: u32)
    ensures
        r == record_target_spec(*download, *settings, effective_max_connections, crate::host_planner::opt_profile(host_profile), now),
{
    let m = if effective_max_connections > 1 { effective_max_connections } else { 1 };
    if !download.capabilities.range_supported || !download.capabilities.resumable || download.size <= 0
        || !compatibility_request_context_supports_segmented_transfer(download) {
        return 1;
    }
    if has_live_transfer_state(download) {
        let t = if download.target_connections > 1 { download.target_connections } else { 1 };
        return if t < m { t } else { m };
    }
    let key = download_scope_key(download);
    crate::host_planner::initial_target_at(m, settings, host_profile, Some(key.as_str()), planned_download_size(download.size), now)
}

/// The connections a download runs with, read at the current time.
pub fn reconcile_download_target_connections(
    download: &DownloadRecord,
    settings: &EngineSettings,
    effective_max_connections: u32,
    host_profile: Option<&HostProfile>,
) -> (r: u32)
    ensures
        exists|now: i64| r == record_target_spec(*download, *settings, effective_max_connections, crate::host_planner::opt_profile(host_profile), now),
{
    let now = crate::host_planner::unix_epoch_millis();
    reconcile_download_target_connections_at(download, settings, effective_max_connections, host_profile, now)
}

/// The hints an initial plan is shaped by.
pub open spec fn plan_hints(settings: EngineSettings, throughput: Option<u64>, ttfb: Option<u64>) -> crate::segmentation::SegmentPlanningHints {
    crate::segmentation::SegmentPlanningHints {
        throughput_bytes_per_second: throughput,
        ttfb_ms: ttfb,
        target_chunk_time_seconds: settings.target_chunk_time_seconds,
    }
}

/// The initial segments of a download of `size` bytes over `target_connections` connections.
pub open spec fn segment_plan_spec(size: u64, target_connections: u32, settings: EngineSettings, throughput: Option<u64>, ttfb: Option<u64>) -> Seq<crate::model::DownloadSegment> {
    crate::segmentation::plan_spec(size as int, max_int(target_connections as int, 1), max_int(settings.min_segment_size_bytes as int, 1),
        crate::download_ops::RUNTIME_SEGMENT_RETRY_BUDGET, plan_hints(settings, throughput, ttfb))
}

pub fn build_segment_plan(
    size: u64,
    target_connections: u32,
    settings: &EngineSettings,
    throughput_hint_bytes_per_second: Option<u64>,
    ttfb_hint_ms: Option<u64>,
) -> (r: Vec<crate::model::DownloadSegment>)
    ensures
        r@ == segment_plan_spec(size, target_connections, *settings, throughput_hint_bytes_per_second, ttfb_hint_ms),
{
    let hints = crate::segmentation::SegmentPlanningHints {
        throughput_bytes_per_second: throughput_hint_bytes_per_second,
        ttfb_ms: ttfb_hint_ms,
        target_chunk_time_seconds: settings.target_chunk_time_seconds,
    };
    crate::segmentation::compute_segments_with_hints(
        size,
        if target_connections > 1 { target_connections } else { 1 },
        if settings.min_segment_size_bytes > 1 { settings.min_segment_size_bytes } else { 1 },
        crate::download_ops::RUNTIME_SEGMENT_RETRY_BUDGET,
        hints,
    )
}

/// Whether some segment has kept bytes, is transferring or is done.
pub open spec fn segments_progressed(segs: Seq<crate::model::DownloadSegment>) -> bool {
    exists|i: int| #![trigger segs[i]] 0 <= i < segs.len()
        && (segs[i].downloaded > 0 || segs[i].status == DownloadSegmentStatus::Downloading
            || segs[i].status == DownloadSegmentStatus::Finished)
}

fn has_segment_progress(segs: &Vec<crate::model::DownloadSegment>) -> (r: bool)
    ensures
        r == segments_progressed(segs@),
{
    let mut i: usize = 0;
    while i < segs.len()
        invariant
            i <= segs@.len(),
            forall|j: int| #![trigger segs@[j]] 0 <= j < i ==> !(segs@[j].downloaded > 0
                || segs@[j].status == DownloadSegmentStatus::Downloading || segs@[j].status == DownloadSegmentStatus::Finished),
        decreases segs@.len() - i,
    {
        let s = segs[i];
        if s.downloaded > 0 || s.status == DownloadSegmentStatus::Downloading || s.status == DownloadSegmentStatus::Finished {
            return true;
        }
        i = i + 1;
    }
    false
}

/// The segments a download gets: a fresh plan when it is segmented and nothing was kept or
/// started, its own segments otherwise.
pub open spec fn ensured_segments(d: DownloadRecord, settings: EngineSettings) -> Seq<crate::model::DownloadSegment> {
    if segmented_mode_spec(d) && d.downloaded <= 0 && !segments_progressed(d.segments@) {
        segment_plan_spec(d.size as u64, d.target_connections, settings, d.host_average_throughput_bytes_per_second, d.host_average_ttfb_ms)
    } else {
        d.segments@
    }
}

/// Marks whether a download is segmented and gives it an initial plan when it has none.
pub fn ensure_segment_plan(download: &mut DownloadRecord, settings: &EngineSettings)
    ensures
        final(download).segments@ == ensured_segments(*old(download), *settings),
        *final(download) == (DownloadRecord {
            capabilities: crate::download::DownloadCapabilities { segmented: segmented_mode_spec(*old(download)), ..old(download).capabilities },
            segments: final(download).segments,
            ..*old(download)
        }),
{
    let segmented = should_use_segmented_mode(download);
    download.capabilities.segmented = segmented;
    if !segmented || download.downloaded > 0 {
        return;
    }
    if has_segment_progress(&download.segments) {
        return;
    }
    let size = download.size as u64;
    download.segments = build_segment_plan(size, download.target_connections, settings,
        download.host_average_throughput_bytes_per_second, download.host_average_ttfb_ms);
}

/// The host summary a download shows: the summary of its host and request shape, with the
/// request shape's range verdict, and a probe-failure reason when no other lock reason shows
/// but the shape's probes keep failing.
pub open spec fn download_summary_spec(
    h: crate::model::HostDiagnosticsSummary,
    profile: Option<HostProfile>,
    key: Seq<char>,
    now: i64,
    hard: bool,
    failures: u32,
) -> bool {
    let failure_reason = if failures > 0 { Some(crate::model::LockReason::ProbeFailures) } else { None };
    &&& h.hard_no_range == hard
    &&& match profile {
        None => {
            &&& !h.concurrency_locked
            &&& h.lock_reason == failure_reason
            &&& h.cooldown_until is None
            &&& h.negotiated_protocol is None
            &&& h.reuse_connections is None
        },
        Some(p) => {
            &&& h.concurrency_locked == crate::host_planner::lock_applies_spec(p, Some(key), now)
            &&& h.lock_reason == match crate::host_planner::shown_lock_reason(p, Some(key), now) {
                Some(r) => Some(r),
                None => failure_reason,
            }
            &&& h.cooldown_until == crate::host_planner::cooldown_until_spec(p, Some(key))
            &&& opt_text(h.negotiated_protocol) == crate::host_planner::normalized_opt_protocol(p.negotiated_protocol)
            &&& h.reuse_connections == crate::host_planner::reuse_preference_spec(p)
        },
    }
}

/// What the host profile makes of a download at time `now`.
pub open spec fn host_profile_applied(
    old_d: DownloadRecord,
    new_d: DownloadRecord,
    settings: EngineSettings,
    profile: Option<HostProfile>,
    now: i64,
) -> bool {
    let key = download_scope_key_spec(old_d);
    let hard = crate::probe_cache::hard_no_range_spec(profile, key, now);
    let strip = hard && !live_transfer_spec(old_d);
    &&& new_d.host_average_ttfb_ms == crate::host_planner::average_ttfb_spec(profile, Some(key))
    &&& new_d.host_average_throughput_bytes_per_second == crate::host_planner::average_throughput_spec(profile, Some(key))
    &&& new_d.host_max_connections == match profile { Some(p) => p.max_connections, None => None }
    &&& new_d.host_cooldown_until == match profile { Some(p) => p.cooldown_until, None => None }
    &&& opt_text(new_d.host_protocol) == match profile {
        Some(p) => match p.negotiated_protocol {
            Some(l) => Some(crate::probe::normalized_protocol_spec(l@)),
            None => opt_text(old_d.host_protocol),
        },
        None => opt_text(old_d.host_protocol),
    }
    &&& download_summary_spec(new_d.host_diagnostics, profile, key, now, hard,
        crate::probe_cache::scoped_failures_spec(profile, key, now))
    &&& new_d.max_connections == crate::host_planner::connection_target_spec(16, settings, profile, Some(key), now)
    &&& new_d.capabilities.range_supported == (old_d.capabilities.range_supported && !strip)
    &&& new_d.capabilities.resumable == (old_d.capabilities.resumable && !strip)
    &&& new_d.capabilities.segmented == segmented_mode_spec(new_d)
    &&& new_d.target_connections == reconcile_target_spec(new_d.capabilities.range_supported, new_d.capabilities.resumable,
        old_d.size, crate::http_helpers::segmented_shape_spec(old_d.compatibility.request_method, old_d.compatibility.request_form_fields@.len() as int),
        live_transfer_spec(old_d), old_d.target_connections, key, settings, new_d.max_connections, profile, now)
    &&& new_d.segments@ == (if segmented_mode_spec(new_d) && old_d.downloaded <= 0 && !segments_progressed(old_d.segments@) {
        segment_plan_spec(old_d.size as u64, new_d.target_connections, settings,
            new_d.host_average_throughput_bytes_per_second, new_d.host_average_ttfb_ms)
    } else {
        old_d.segments@
    })
    &&& new_d == (DownloadRecord {
        host_average_ttfb_ms: new_d.host_average_ttfb_ms,
        host_average_throughput_bytes_per_second: new_d.host_average_throughput_bytes_per_second,
        host_max_connections: new_d.host_max_connections,
        host_cooldown_until: new_d.host_cooldown_until,
        host_protocol: new_d.host_protocol,
        host_diagnostics: new_d.host_diagnostics,
        max_connections: new_d.max_connections,
        target_connections: new_d.target_connections,
        capabilities: new_d.capabilities,
        segments: new_d.segments,
        ..old_d
    })
}

/// The host fields of a download at time `now`, before connections and segments follow.
pub open spec fn host_fields_applied(
    old_d: DownloadRecord,
    new_d: DownloadRecord,
    settings: EngineSettings,
    profile: Option<HostProfile>,
    now: i64,
) -> bool {
    let key = download_scope_key_spec(old_d);
    let hard = crate::probe_cache::hard_no_range_spec(profile, key, now);
    let strip = hard && !live_transfer_spec(old_d);
    &&& new_d.host_average_ttfb_ms == crate::host_planner::average_ttfb_spec(profile, Some(key))
    &&& new_d.host_average_throughput_bytes_per_second == crate::host_planner::average_throughput_spec(profile, Some(key))
    &&& new_d.host_max_connections == match profile { Some(p) => p.max_connections, None => None }
    &&& new_d.host_cooldown_until == match profile { Some(p) => p.cooldown_until, None => None }
    &&& opt_text(new_d.host_protocol) == match profile {
        Some(p) => match p.negotiated_protocol {
            Some(l) => Some(crate::probe::normalized_protocol_spec(l@)),
            None => opt_text(old_d.host_protocol),
        },
        None => opt_text(old_d.host_protocol),
    }
    &&& download_summary_spec(new_d.host_diagnostics, profile, key, now, hard,
        crate::probe_cache::scoped_failures_spec(profile, key, now))
    &&& new_d.max_connections == crate::host_planner::connection_target_spec(16, settings, profile, Some(key), now)
    &&& new_d.capabilities.range_supported == (old_d.capabilities.range_supported && !strip)
    &&& new_d.capabilities.resumable == (old_d.capabilities.resumable && !strip)
    &&& new_d == (DownloadRecord {
        host_average_ttfb_ms: new_d.host_average_ttfb_ms,
        host_average_throughput_bytes_per_second: new_d.host_average_throughput_bytes_per_second,
        host_max_connections: new_d.host_max_connections,
        host_cooldown_until: new_d.host_cooldown_until,
        host_protocol: new_d.host_protocol,
        host_diagnostics: new_d.host_diagnostics,
        max_connections: new_d.max_connections,
        capabilities: new_d.capabilities,
        ..old_d
    })
}

fn apply_host_fields_at(download: &mut DownloadRecord, settings: &EngineSettings, host_profile: Option<&HostProfile>, now: i64)
    ensures
        host_fields_applied(*old(download), *final(download), *settings, crate::host_planner::opt_profile(host_profile), now),
{
    let key = download_scope_key(download);
    download.host_average_ttfb_ms = crate::host_planner::effective_average_ttfb_ms(host_profile, Some(key.as_str()));
    download.host_average_throughput_bytes_per_second =
        crate::host_planner::effective_average_throughput_bytes_per_second(host_profile, Some(key.as_str()));
    download.host_max_connections = match host_profile { Some(p) => p.max_connections, None => None };
    download.host_cooldown_until = match host_profile { Some(p) => p.cooldown_until, None => None };
    let hard_no_range = crate::probe_cache::scoped_hard_no_range(host_profile, key.as_str(), now);
    if hard_no_range && !has_live_transfer_state(download) {
        download.capabilities.range_supported = false;
        download.capabilities.resumable = false;
        download.capabilities.segmented = false;
    }
    match host_profile {
        Some(p) => match &p.negotiated_protocol {
            Some(label) => { download.host_protocol = Some(crate::probe::normalize_protocol_label(label.as_str())); },
            None => {},
        },
        None => {},
    }
    let mut summary = crate::host_planner::host_diagnostics_summary_at(host_profile, Some(key.as_str()), now);
    summary.hard_no_range = hard_no_range;
    if summary.lock_reason.is_none() && crate::probe_cache::scoped_probe_failures(host_profile, key.as_str(), now) > 0 {
        summary.lock_reason = Some(crate::model::LockReason::ProbeFailures);
    }
    download.host_diagnostics = summary;
    download.max_connections = crate::host_planner::connection_target_at(16, settings, host_profile, Some(key.as_str()), now);
}

/// Brings a download in line with its host profile at time `now`: host averages, limits and
/// summary, range support lost on its request shape, connection targets and segment plan.
pub fn apply_download_host_profile_at(download: &mut DownloadRecord, settings: &EngineSettings, host_profile: Option<&HostProfile>, now: i64)
    ensures
        host_profile_applied(*old(download), *final(download), *settings, crate::host_planner::opt_profile(host_profile), now),
{
    let ghost d0 = *download;
    apply_host_fields_at(download, settings, host_profile, now);
    let ghost mid = *download;
    assert(download_scope_key_spec(mid) == download_scope_key_spec(d0));
    assert(live_transfer_spec(mid) == live_transfer_spec(d0));
    let max_connections = download.max_connections;
    download.target_connections = reconcile_download_target_connections_at(download, settings, max_connections, host_profile, now);
    let ghost mid2 = *download;
    ensure_segment_plan(download, settings);
    assert(segmented_mode_spec(mid2) == segmented_mode_spec(*download));
}

/// Brings a download in line with its host profile at the current time.
pub fn apply_download_host_profile(download: &mut DownloadRecord, settings: &EngineSettings, host_profile: Option<&HostProfile>)
    ensures
        exists|now: i64| host_profile_applied(*old(download), *final(download), *settings, crate::host_planner::opt_profile(host_profile), now),
{
    let now = crate::host_planner::unix_epoch_millis();
    apply_download_host_profile_at(download, settings, host_profile, now);
}

} // verus!
