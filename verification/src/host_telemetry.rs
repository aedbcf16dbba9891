//! How one telemetry report from a transfer updates what is known about its host and, when
//! the report names one, about its request shape.

use vstd::prelude::*;
use crate::arith::{sat_sub, sat_add_i64, sat_sub_i64, sat_mul_i64, max_int, min_int, u32_max, u32_min, u32_sat_add, u32_sat_sub, u32_sat_mul, i64_sat_add, i64_sat_sub, i64_sat_mul};
use crate::model::{empty_scope, HostProfile, HostProfileView, HostTelemetryArgs, LockReason, ProbeScopeCache, ProbeScopeEntry};
use crate::host_planner::{
    cooldown_active, cooldown_active_spec, cooldown_lock_connections, cooldown_lock_spec, gain_threshold_spec,
    is_cooldown_reason, is_probe_failure_reason, is_ramp_reason, moving_average, moving_average_spec,
    no_gain_lock_spec, penalty_cooldown_seconds, penalty_seconds_spec, ramp_gain_threshold_bytes_per_second,
    ramp_lock_active_spec, reduced_no_gain_lock_connections, sat_add_u32, sat_mul_u32, unix_epoch_millis,
    EXPERIMENTAL_HOST_CAP, HOST_CAP_RECOVERY_MIN_THROUGHPUT_BYTES_PER_SECOND, HOST_CAP_RECOVERY_STABLE_SAMPLES,
    NO_GAIN_LOCK_ATTEMPTS, PROBE_FAILURE_LOCK_WINDOW_MS, PROTOCOL_MULTIPLEX_CONFIDENCE_MIN_SAMPLES,
    PROTOCOL_RECOVERY_SAMPLE_MULTIPLIER, RAMP_NO_GAIN_LOCK_WINDOW_MS,
};
use crate::scopes::{commit_scope, lemma_pair_pos_bounds, lemma_upsert_then_update, open_scope, pair_lookup, scope_or_empty, upsert_pairs};
use crate::probe::{normalize_protocol_label, normalized_protocol_spec, multiplexed_label_spec, is_multiplexed_label};

verus! {

/// A counter raised by one, saturating.
pub open spec fn bump(x: u32) -> u32 {
    sat_add_u32(x as int, 1) as u32
}

pub open spec fn clear_host_lock(v: HostProfileView) -> HostProfileView {
    HostProfileView { concurrency_locked: false, locked_connections: None, lock_reason: None, ..v }
}

pub open spec fn clear_scope_lock_spec(s: ProbeScopeCache) -> ProbeScopeCache {
    ProbeScopeCache { concurrency_locked: false, locked_connections: None, lock_reason: None, ..s }
}

/// Whether the last probe error is recent enough for a probe-failure lock to stay.
pub open spec fn probe_failure_recent(last_probe_error_at: Option<i64>, now: i64) -> bool {
    match last_probe_error_at {
        Some(t) => sat_sub_i64(now as int, t as int) <= PROBE_FAILURE_LOCK_WINDOW_MS,
        None => false,
    }
}

/// A probe-failure lock is dropped once the last probe error is older than its window.
pub open spec fn release_probe_failure_lock_spec(v: HostProfileView, now: i64) -> HostProfileView {
    if v.concurrency_locked && is_probe_failure_reason(v.lock_reason) && !probe_failure_recent(v.last_probe_error_at, now) {
        clear_host_lock(v)
    } else {
        v
    }
}

/// A ramp lock is dropped, and its count of fruitless ramps reset, once its window has passed.
pub open spec fn release_ramp_lock_spec(v: HostProfileView, now: i64) -> HostProfileView {
    if is_ramp_reason(v.lock_reason) && !ramp_lock_active_spec(v.last_telemetry_at, now) {
        HostProfileView { ramp_attempts_without_gain: 0, ..clear_host_lock(v) }
    } else {
        v
    }
}

/// Throttle, timeout and reset counters; any such event restarts the count of stable samples.
pub open spec fn count_events_spec(v: HostProfileView, payload: HostTelemetryArgs) -> HostProfileView {
    let v1 = HostProfileView {
        throttle_events: if payload.throttle_event { bump(v.throttle_events) } else { v.throttle_events },
        timeout_events: if payload.timeout_event { bump(v.timeout_events) } else { v.timeout_events },
        reset_events: if payload.reset_event { bump(v.reset_events) } else { v.reset_events },
        ..v
    };
    if payload.throttle_event || payload.timeout_event || payload.reset_event {
        HostProfileView { stable_recovery_samples: 0, ..v1 }
    } else {
        v1
    }
}

/// The reported time to first byte and throughput folded into the running means.
pub open spec fn fold_averages_spec(v: HostProfileView, payload: HostTelemetryArgs) -> HostProfileView {
    let n = sat_add_u32(v.telemetry_samples as int, 1);
    HostProfileView {
        average_ttfb_ms: match payload.ttfb_ms {
            Some(t) => moving_average_spec(v.average_ttfb_ms, t, n),
            None => v.average_ttfb_ms,
        },
        average_throughput_bytes_per_second: match payload.throughput_bytes_per_second {
            Some(t) => moving_average_spec(v.average_throughput_bytes_per_second, t, n),
            None => v.average_throughput_bytes_per_second,
        },
        ..v
    }
}

/// Whether a protocol label names HTTP/2 or HTTP/3.
pub open spec fn multiplexed_text(label: Seq<char>) -> bool {
    multiplexed_label_spec(vstd::utf8::encode_utf8(label))
}

/// One protocol downgrade is forgiven once enough multiplexed samples have followed it.
pub open spec fn recover_downgrade_spec(v: HostProfileView) -> HostProfileView {
    if v.protocol_downgrade_events == 0 {
        v
    } else {
        let recovery = sat_add_u32(v.protocol_reuse_events as int, v.protocol_samples as int);
        let required = sat_mul_u32(v.protocol_downgrade_events as int, PROTOCOL_RECOVERY_SAMPLE_MULTIPLIER as int);
        if recovery >= max_int(required, PROTOCOL_MULTIPLEX_CONFIDENCE_MIN_SAMPLES as int) {
            HostProfileView { protocol_downgrade_events: (v.protocol_downgrade_events - 1) as u32, ..v }
        } else {
            v
        }
    }
}

/// A negotiated protocol: a fall from a multiplexed protocol (or a first protocol that is not
/// one) counts as a downgrade; the canonical label is kept.
pub open spec fn observe_protocol_spec(v: HostProfileView, protocol: Seq<char>) -> HostProfileView {
    let mux = multiplexed_text(protocol);
    let downgrade = match v.negotiated_protocol {
        Some(prev) => multiplexed_text(prev) && !mux,
        None => !mux,
    };
    let v1 = HostProfileView {
        protocol_downgrade_events: if downgrade { bump(v.protocol_downgrade_events) } else { v.protocol_downgrade_events },
        negotiated_protocol: Some(normalized_protocol_spec(protocol)),
        protocol_samples: bump(v.protocol_samples),
        ..v
    };
    if mux { recover_downgrade_spec(v1) } else { v1 }
}

/// Whether the report's connection was reused or freshly opened.
pub open spec fn count_reuse_spec(v: HostProfileView, payload: HostTelemetryArgs) -> HostProfileView {
    match payload.connection_reused {
        Some(true) => HostProfileView { protocol_reuse_events: bump(v.protocol_reuse_events), ..v },
        Some(false) => HostProfileView { protocol_new_connection_events: bump(v.protocol_new_connection_events), ..v },
        None => v,
    }
}

pub open spec fn stamp_spec(v: HostProfileView, now: i64) -> HostProfileView {
    HostProfileView { last_telemetry_at: Some(now), telemetry_samples: bump(v.telemetry_samples), ..v }
}

/// A failed range validation marks the host as not resumable.
pub open spec fn range_downgrade_spec(v: HostProfileView, now: i64) -> HostProfileView {
    HostProfileView {
        range_supported: Some(false),
        resumable: Some(false),
        hard_no_range: true,
        last_probe_at: Some(now),
        stable_recovery_samples: 0,
        ..v
    }
}

/// The reference throughput a reported gain is measured against.
pub open spec fn reported_threshold(payload: HostTelemetryArgs) -> int {
    gain_threshold_spec(match payload.throughput_bytes_per_second { Some(t) => t as int, None => 0 })
}

/// A ramp that gained too little is counted; one that gained enough clears the lock.
pub open spec fn host_ramp_gain_spec(v: HostProfileView, payload: HostTelemetryArgs) -> HostProfileView {
    match payload.sustained_gain_bytes_per_second {
        None => v,
        Some(g) => if g <= reported_threshold(payload) {
            HostProfileView { ramp_attempts_without_gain: bump(v.ramp_attempts_without_gain), ..v }
        } else {
            HostProfileView { ramp_attempts_without_gain: 0, ..clear_host_lock(v) }
        },
    }
}

pub open spec fn opt_no_gain(attempted: Option<u32>) -> Option<u32> {
    match attempted {
        Some(a) => Some(no_gain_lock_spec(a as int)),
        None => None,
    }
}

/// After enough fruitless ramps the host is locked below what was attempted.
pub open spec fn host_ramp_lock_spec(v: HostProfileView, payload: HostTelemetryArgs) -> HostProfileView {
    if v.ramp_attempts_without_gain >= NO_GAIN_LOCK_ATTEMPTS {
        HostProfileView {
            concurrency_locked: true,
            locked_connections: opt_no_gain(payload.attempted_connections),
            lock_reason: Some(LockReason::RampNoGain),
            ..v
        }
    } else {
        v
    }
}

/// The end of a cooldown of `seconds` starting at `now`.
pub open spec fn cooldown_deadline(now: i64, seconds: int) -> i64 {
    sat_add_i64(now as int, sat_mul_i64(seconds, 1000)) as i64
}

/// A host cap lowered to one below what was attempted, never under two.
pub open spec fn capped_max_spec(current: Option<u32>, attempted: int) -> u32 {
    let reduced = max_int(sat_sub(attempted, 1), 2);
    max_int(min_int(match current { Some(c) => c as int, None => reduced }, reduced), 2) as u32
}

/// A throttle or timeout puts the host in a cooldown, locks it and lowers its cap.
pub open spec fn host_penalty_spec(v: HostProfileView, payload: HostTelemetryArgs, base: int, now: i64) -> HostProfileView {
    let seconds = penalty_seconds_spec(base, v.throttle_events as int, v.timeout_events as int, v.telemetry_samples as int);
    let v1 = HostProfileView {
        cooldown_until: Some(cooldown_deadline(now, seconds)),
        concurrency_locked: true,
        locked_connections: Some(cooldown_lock_spec(payload) as u32),
        lock_reason: Some(LockReason::CooldownActive),
        ..v
    };
    if payload.attempted_connections is Some && payload.attempted_connections.unwrap() > 1 {
        HostProfileView { max_connections: Some(capped_max_spec(v.max_connections, payload.attempted_connections.unwrap() as int)), ..v1 }
    } else if v.max_connections is None {
        HostProfileView { max_connections: Some(2), ..v1 }
    } else {
        v1
    }
}

/// A reset alone only lowers the host cap, when more than two connections were attempted.
pub open spec fn soft_reset_spec(v: HostProfileView, payload: HostTelemetryArgs) -> HostProfileView {
    if payload.attempted_connections is Some && payload.attempted_connections.unwrap() > 2 {
        HostProfileView { max_connections: Some(capped_max_spec(v.max_connections, payload.attempted_connections.unwrap() as int)), ..v }
    } else {
        v
    }
}

/// Cooldown seconds a report's events start from: four for a throttle, two for a timeout.
pub open spec fn penalty_base(payload: HostTelemetryArgs) -> int {
    if payload.throttle_event { 4 } else if payload.timeout_event { 2 } else { 0 }
}

pub open spec fn soft_reset_only(payload: HostTelemetryArgs) -> bool {
    payload.reset_event && !payload.throttle_event && !payload.timeout_event
}

/// The host-wide penalties of a report that names no request shape.
pub open spec fn host_penalties_spec(v: HostProfileView, payload: HostTelemetryArgs, now: i64) -> HostProfileView {
    let v1 = if payload.range_validation_failed { range_downgrade_spec(v, now) } else { v };
    let v2 = host_ramp_lock_spec(host_ramp_gain_spec(v1, payload), payload);
    if penalty_base(payload) > 0 {
        host_penalty_spec(v2, payload, penalty_base(payload), now)
    } else if soft_reset_only(payload) {
        soft_reset_spec(v2, payload)
    } else if !cooldown_active_spec(v2.cooldown_until, now) && is_cooldown_reason(v2.lock_reason) {
        clear_host_lock(v2)
    } else {
        v2
    }
}

/// Whether a report is a clean, busy sample at or above the host cap.
pub open spec fn clean_sample_at_cap(v: HostProfileView, payload: HostTelemetryArgs, now: i64) -> bool {
    &&& !cooldown_active_spec(v.cooldown_until, now)
    &&& !payload.throttle_event && !payload.timeout_event && !payload.reset_event && !payload.range_validation_failed
    &&& v.max_connections is Some
    &&& payload.attempted_connections is Some && payload.attempted_connections.unwrap() > 0
    &&& payload.throughput_bytes_per_second is Some
        && payload.throughput_bytes_per_second.unwrap() >= HOST_CAP_RECOVERY_MIN_THROUGHPUT_BYTES_PER_SECOND
    &&& payload.attempted_connections.unwrap() >= v.max_connections.unwrap()
}

/// A lowered host cap is raised by one after enough clean samples at the cap in a row.
pub open spec fn recover_max_connections_spec(v: HostProfileView, payload: HostTelemetryArgs, now: i64) -> HostProfileView {
    if !clean_sample_at_cap(v, payload, now) {
        HostProfileView { stable_recovery_samples: 0, ..v }
    } else {
        let s = sat_add_u32(v.stable_recovery_samples as int, 1);
        if s < HOST_CAP_RECOVERY_STABLE_SAMPLES {
            HostProfileView { stable_recovery_samples: s as u32, ..v }
        } else {
            let cap = min_int(sat_add_u32(v.max_connections.unwrap() as int, 1), EXPERIMENTAL_HOST_CAP as int) as u32;
            let v1 = HostProfileView { max_connections: Some(cap), stable_recovery_samples: 0, ..v };
            if is_ramp_reason(v1.lock_reason) {
                HostProfileView { ramp_attempts_without_gain: 0, ..clear_host_lock(v1) }
            } else {
                v1
            }
        }
    }
}

/// A shape record's stale ramp lock and finished cooldown lock are dropped.
pub open spec fn scope_release_spec(s: ProbeScopeCache, now: i64) -> ProbeScopeCache {
    let s1 = if is_ramp_reason(s.lock_reason) && !ramp_lock_active_spec(s.last_telemetry_at, now) {
        ProbeScopeCache { ramp_attempts_without_gain: 0, ..clear_scope_lock_spec(s) }
    } else {
        s
    };
    if !cooldown_active_spec(s1.cooldown_until, now) && is_cooldown_reason(s1.lock_reason) {
        clear_scope_lock_spec(s1)
    } else {
        s1
    }
}

pub open spec fn scope_range_downgrade_spec(s: ProbeScopeCache, now: i64) -> ProbeScopeCache {
    ProbeScopeCache {
        range_supported: Some(false),
        resumable: Some(false),
        hard_no_range: true,
        last_probe_at: Some(now),
        last_instability_at: Some(now),
        ..s
    }
}

/// Event counters of a shape record; each event marks the shape unstable now.
pub open spec fn scope_events_spec(s: ProbeScopeCache, payload: HostTelemetryArgs, now: i64) -> ProbeScopeCache {
    let s1 = if payload.throttle_event {
        ProbeScopeCache { throttle_events: bump(s.throttle_events), last_instability_at: Some(now), ..s }
    } else {
        s
    };
    let s2 = if payload.timeout_event {
        ProbeScopeCache { timeout_events: bump(s1.timeout_events), last_instability_at: Some(now), ..s1 }
    } else {
        s1
    };
    if payload.reset_event {
        ProbeScopeCache { reset_events: bump(s2.reset_events), last_instability_at: Some(now), ..s2 }
    } else {
        s2
    }
}

/// Running means, time and count of a shape record's samples.
pub open spec fn scope_samples_spec(s: ProbeScopeCache, payload: HostTelemetryArgs, now: i64) -> ProbeScopeCache {
    let n = sat_add_u32(s.telemetry_samples as int, 1);
    ProbeScopeCache {
        average_ttfb_ms: match payload.ttfb_ms {
            Some(t) => moving_average_spec(s.average_ttfb_ms, t, n),
            None => s.average_ttfb_ms,
        },
        average_throughput_bytes_per_second: match payload.throughput_bytes_per_second {
            Some(t) => moving_average_spec(s.average_throughput_bytes_per_second, t, n),
            None => s.average_throughput_bytes_per_second,
        },
        last_telemetry_at: Some(now),
        telemetry_samples: bump(s.telemetry_samples),
        ..s
    }
}

/// Ramp gains of a shape record, and its ramp lock after enough fruitless ramps.
pub open spec fn scope_ramp_spec(s: ProbeScopeCache, payload: HostTelemetryArgs, now: i64) -> ProbeScopeCache {
    let s1 = match payload.sustained_gain_bytes_per_second {
        None => s,
        Some(g) => if g <= reported_threshold(payload) {
            ProbeScopeCache { ramp_attempts_without_gain: bump(s.ramp_attempts_without_gain), last_instability_at: Some(now), ..s }
        } else {
            let s0 = ProbeScopeCache { ramp_attempts_without_gain: 0, ..s };
            if is_ramp_reason(s0.lock_reason) { clear_scope_lock_spec(s0) } else { s0 }
        },
    };
    if s1.ramp_attempts_without_gain >= NO_GAIN_LOCK_ATTEMPTS {
        ProbeScopeCache {
            concurrency_locked: true,
            locked_connections: opt_no_gain(payload.attempted_connections),
            lock_reason: Some(LockReason::RampNoGain),
            last_instability_at: Some(now),
            ..s1
        }
    } else {
        s1
    }
}

/// A shape's cooldown and lock after a penalty.
pub open spec fn scope_penalty_spec(s: ProbeScopeCache, payload: HostTelemetryArgs, base: int, now: i64) -> ProbeScopeCache {
    let seconds = penalty_seconds_spec(base, s.throttle_events as int, s.timeout_events as int, s.telemetry_samples as int);
    ProbeScopeCache {
        cooldown_until: Some(cooldown_deadline(now, seconds)),
        concurrency_locked: true,
        locked_connections: Some(cooldown_lock_spec(payload) as u32),
        lock_reason: Some(LockReason::CooldownActive),
        last_instability_at: Some(now),
        ..s
    }
}

/// A report applied to one request shape's record.
pub open spec fn scope_telemetry_spec(s: ProbeScopeCache, payload: HostTelemetryArgs, now: i64) -> ProbeScopeCache {
    let s1 = scope_release_spec(s, now);
    let s2 = if payload.range_validation_failed { scope_range_downgrade_spec(s1, now) } else { s1 };
    let s3 = scope_ramp_spec(scope_samples_spec(scope_events_spec(s2, payload, now), payload, now), payload, now);
    if penalty_base(payload) > 0 {
        scope_penalty_spec(s3, payload, penalty_base(payload), now)
    } else if soft_reset_only(payload) {
        scope_penalty_spec(s3, payload, 1, now)
    } else {
        s3
    }
}

/// The protocol a report carries, when it is not empty.
pub open spec fn reported_protocol(payload: HostTelemetryArgs) -> Option<Seq<char>> {
    match payload.negotiated_protocol {
        Some(p) => if p@.len() > 0 { Some(p@) } else { None },
        None => None,
    }
}

/// A telemetry report applied to a host profile at time `now`.
pub open spec fn host_telemetry_spec(v: HostProfileView, payload: HostTelemetryArgs, now: i64) -> HostProfileView {
    let v2 = release_ramp_lock_spec(release_probe_failure_lock_spec(v, now), now);
    let v4 = fold_averages_spec(count_events_spec(v2, payload), payload);
    let v5 = match reported_protocol(payload) {
        Some(p) => observe_protocol_spec(v4, p),
        None => v4,
    };
    let v7 = stamp_spec(count_reuse_spec(v5, payload), now);
    let v8 = if payload.scope_key is None { host_penalties_spec(v7, payload, now) } else { v7 };
    let v9 = recover_max_connections_spec(v8, payload, now);
    match payload.scope_key {
        Some(k) => HostProfileView {
            probe_scopes: upsert_pairs(v9.probe_scopes, k@, scope_telemetry_spec(scope_or_empty(v9.probe_scopes, k@), payload, now)),
            ..v9
        },
        None => v9,
    }
}

fn clear_lock(profile: &mut HostProfile)
    ensures
        final(profile)@ == clear_host_lock(old(profile)@),
{
    profile.concurrency_locked = false;
    profile.locked_connections = None;
    profile.lock_reason = None;
}

fn maybe_release_stale_probe_failure_lock(profile: &mut HostProfile, now: i64)
    ensures
        final(profile)@ == release_probe_failure_lock_spec(old(profile)@, now),
{
    if !profile.concurrency_locked {
        return;
    }
    let is_probe_lock = match &profile.lock_reason {
        Some(LockReason::ProbeFailures) => true,
        _ => false,
    };
    if !is_probe_lock {
        return;
    }
    let active = match profile.last_probe_error_at {
        Some(t) => i64_sat_sub(now, t) <= PROBE_FAILURE_LOCK_WINDOW_MS,
        None => false,
    };
    if !active {
        clear_lock(profile);
    }
}

fn maybe_release_stale_ramp_lock(profile: &mut HostProfile, now: i64)
    ensures
        final(profile)@ == release_ramp_lock_spec(old(profile)@, now),
{
    let is_ramp = match &profile.lock_reason {
        Some(LockReason::RampNoGain) => true,
        _ => false,
    };
    if !is_ramp {
        return;
    }
    let active = match profile.last_telemetry_at {
        Some(t) => i64_sat_sub(now, t) <= RAMP_NO_GAIN_LOCK_WINDOW_MS,
        None => false,
    };
    if active {
        return;
    }
    profile.ramp_attempts_without_gain = 0;
    clear_lock(profile);
}

fn count_events(profile: &mut HostProfile, payload: &HostTelemetryArgs)
    ensures
        final(profile)@ == count_events_spec(old(profile)@, *payload),
{
    if payload.throttle_event {
        profile.throttle_events = u32_sat_add(profile.throttle_events, 1);
    }
    if payload.timeout_event {
        profile.timeout_events = u32_sat_add(profile.timeout_events, 1);
    }
    if payload.reset_event {
        profile.reset_events = u32_sat_add(profile.reset_events, 1);
    }
    if payload.throttle_event || payload.timeout_event || payload.reset_event {
        profile.stable_recovery_samples = 0;
    }
}

fn fold_averages(profile: &mut HostProfile, payload: &HostTelemetryArgs)
    ensures
        final(profile)@ == fold_averages_spec(old(profile)@, *payload),
{
    let n = u32_sat_add(profile.telemetry_samples, 1);
    match payload.ttfb_ms {
        Some(t) => { profile.average_ttfb_ms = moving_average(profile.average_ttfb_ms, t, n); },
        None => {},
    }
    match payload.throughput_bytes_per_second {
        Some(t) => {
            profile.average_throughput_bytes_per_second = moving_average(profile.average_throughput_bytes_per_second, t, n);
        },
        None => {},
    }
}

fn maybe_recover_protocol_downgrade(profile: &mut HostProfile)
    ensures
        final(profile)@ == recover_downgrade_spec(old(profile)@),
{
    if profile.protocol_downgrade_events == 0 {
        return;
    }
    let recovery = u32_sat_add(profile.protocol_reuse_events, profile.protocol_samples);
    let required = u32_sat_mul(profile.protocol_downgrade_events, PROTOCOL_RECOVERY_SAMPLE_MULTIPLIER);
    if recovery >= u32_max(required, PROTOCOL_MULTIPLEX_CONFIDENCE_MIN_SAMPLES) {
        profile.protocol_downgrade_events = profile.protocol_downgrade_events - 1;
    }
}

fn observe_negotiated_protocol(profile: &mut HostProfile, protocol: &str)
    ensures
        final(profile)@ == observe_protocol_spec(old(profile)@, protocol@),
{
    let normalized = normalize_protocol_label(protocol);
    let mux = is_multiplexed_label(protocol.as_bytes());
    let downgrade = match &profile.negotiated_protocol {
        Some(prev) => is_multiplexed_label(prev.as_str().as_bytes()) && !mux,
        None => !mux,
    };
    if downgrade {
        profile.protocol_downgrade_events = u32_sat_add(profile.protocol_downgrade_events, 1);
    }
    profile.negotiated_protocol = Some(normalized);
    profile.protocol_samples = u32_sat_add(profile.protocol_samples, 1);
    if mux {
        maybe_recover_protocol_downgrade(profile);
    }
}

fn count_reuse(profile: &mut HostProfile, payload: &HostTelemetryArgs)
    ensures
        final(profile)@ == count_reuse_spec(old(profile)@, *payload),
{
    match payload.connection_reused {
        Some(true) => { profile.protocol_reuse_events = u32_sat_add(profile.protocol_reuse_events, 1); },
        Some(false) => {
            profile.protocol_new_connection_events = u32_sat_add(profile.protocol_new_connection_events, 1);
        },
        None => {},
    }
}

fn apply_range_validation_downgrade(profile: &mut HostProfile, now: i64)
    ensures
        final(profile)@ == range_downgrade_spec(old(profile)@, now),
{
    profile.range_supported = Some(false);
    profile.resumable = Some(false);
    profile.hard_no_range = true;
    profile.last_probe_at = Some(now);
    profile.stable_recovery_samples = 0;
}

fn reported_gain_threshold(payload: &HostTelemetryArgs) -> (r: i64)
    ensures
        r == reported_threshold(*payload),
{
    ramp_gain_threshold_bytes_per_second(match payload.throughput_bytes_per_second { Some(t) => t, None => 0 })
}

fn opt_reduced_no_gain(attempted: Option<u32>) -> (r: Option<u32>)
    ensures
        r == opt_no_gain(attempted),
{
    match attempted {
        Some(a) => Some(reduced_no_gain_lock_connections(a)),
        None => None,
    }
}

fn capped_max_connections(current: Option<u32>, attempted: u32) -> (r: u32)
    ensures
        r == capped_max_spec(current, attempted as int),
{
    let reduced = u32_max(u32_sat_sub(attempted, 1), 2);
    u32_max(u32_min(match current { Some(c) => c, None => reduced }, reduced), 2)
}

fn cooldown_deadline_at(now: i64, seconds: i64) -> (r: i64)
    ensures
        r == cooldown_deadline(now, seconds as int),
{
    i64_sat_add(now, i64_sat_mul(seconds, 1000))
}

fn apply_penalty_cooldown(profile: &mut HostProfile, payload: &HostTelemetryArgs, base_seconds: i64, now: i64)
    requires
        1 <= base_seconds <= 300,
    ensures
        final(profile)@ == host_penalty_spec(old(profile)@, *payload, base_seconds as int, now),
{
    let seconds = penalty_cooldown_seconds(base_seconds, profile.throttle_events, profile.timeout_events, profile.telemetry_samples);
    let previous_max = profile.max_connections;
    profile.cooldown_until = Some(cooldown_deadline_at(now, seconds));
    profile.concurrency_locked = true;
    profile.locked_connections = Some(cooldown_lock_connections(payload));
    profile.lock_reason = Some(LockReason::CooldownActive);
    match payload.attempted_connections {
        Some(a) => {
            if a > 1 {
                profile.max_connections = Some(capped_max_connections(previous_max, a));
                return;
            }
        },
        None => {},
    }
    if previous_max.is_none() {
        profile.max_connections = Some(2);
    }
}

fn apply_soft_reset_penalty(profile: &mut HostProfile, payload: &HostTelemetryArgs)
    ensures
        final(profile)@ == soft_reset_spec(old(profile)@, *payload),
{
    match payload.attempted_connections {
        Some(a) => {
            if a > 2 {
                profile.max_connections = Some(capped_max_connections(profile.max_connections, a));
            }
        },
        None => {},
    }
}

fn apply_host_penalties(profile: &mut HostProfile, payload: &HostTelemetryArgs, now: i64)
    ensures
        final(profile)@ == host_penalties_spec(old(profile)@, *payload, now),
{
    if payload.range_validation_failed {
        apply_range_validation_downgrade(profile, now);
    }
    let base: i64 = if payload.throttle_event { 4 } else if payload.timeout_event { 2 } else { 0 };
    let soft = payload.reset_event && !payload.throttle_event && !payload.timeout_event;
    match payload.sustained_gain_bytes_per_second {
        Some(g) => {
            if g <= reported_gain_threshold(payload) {
                profile.ramp_attempts_without_gain = u32_sat_add(profile.ramp_attempts_without_gain, 1);
            } else {
                profile.ramp_attempts_without_gain = 0;
                clear_lock(profile);
            }
        },
        None => {},
    }
    if profile.ramp_attempts_without_gain >= NO_GAIN_LOCK_ATTEMPTS {
        profile.concurrency_locked = true;
        profile.locked_connections = opt_reduced_no_gain(payload.attempted_connections);
        profile.lock_reason = Some(LockReason::RampNoGain);
    }
    if base > 0 {
        apply_penalty_cooldown(profile, payload, base, now);
    } else if soft {
        apply_soft_reset_penalty(profile, payload);
    } else {
        let is_cooldown = match &profile.lock_reason {
            Some(LockReason::CooldownActive) => true,
            _ => false,
        };
        if !cooldown_active(profile.cooldown_until, now) && is_cooldown {
            clear_lock(profile);
        }
    }
}

fn maybe_recover_host_max_connections(profile: &mut HostProfile, payload: &HostTelemetryArgs, now: i64)
    ensures
        final(profile)@ == recover_max_connections_spec(old(profile)@, *payload, now),
{
    if cooldown_active(profile.cooldown_until, now) || payload.throttle_event || payload.timeout_event
        || payload.reset_event || payload.range_validation_failed {
        profile.stable_recovery_samples = 0;
        return;
    }
    let current_cap = match profile.max_connections {
        Some(c) => c,
        None => {
            profile.stable_recovery_samples = 0;
            return;
        },
    };
    let attempted = match payload.attempted_connections {
        Some(a) => a,
        None => {
            profile.stable_recovery_samples = 0;
            return;
        },
    };
    if attempted == 0 {
        profile.stable_recovery_samples = 0;
        return;
    }
    let fast_enough = match payload.throughput_bytes_per_second {
        Some(t) => t >= HOST_CAP_RECOVERY_MIN_THROUGHPUT_BYTES_PER_SECOND,
        None => false,
    };
    if !fast_enough || attempted < current_cap {
        profile.stable_recovery_samples = 0;
        return;
    }
    profile.stable_recovery_samples = u32_sat_add(profile.stable_recovery_samples, 1);
    if profile.stable_recovery_samples < HOST_CAP_RECOVERY_STABLE_SAMPLES {
        return;
    }
    profile.max_connections = Some(u32_min(u32_sat_add(current_cap, 1), EXPERIMENTAL_HOST_CAP));
    profile.stable_recovery_samples = 0;
    let is_ramp = match &profile.lock_reason {
        Some(LockReason::RampNoGain) => true,
        _ => false,
    };
    if is_ramp {
        profile.ramp_attempts_without_gain = 0;
        clear_lock(profile);
    }
}

fn clear_scope_lock(scope: &mut ProbeScopeCache)
    ensures
        *final(scope) == clear_scope_lock_spec(*old(scope)),
{
    scope.concurrency_locked = false;
    scope.locked_connections = None;
    scope.lock_reason = None;
}

fn release_scope_locks(scope: &mut ProbeScopeCache, now: i64)
    ensures
        *final(scope) == scope_release_spec(*old(scope), now),
{
    let is_ramp = match &scope.lock_reason {
        Some(LockReason::RampNoGain) => true,
        _ => false,
    };
    if is_ramp {
        let active = match scope.last_telemetry_at {
            Some(t) => i64_sat_sub(now, t) <= RAMP_NO_GAIN_LOCK_WINDOW_MS,
            None => false,
        };
        if !active {
            scope.ramp_attempts_without_gain = 0;
            clear_scope_lock(scope);
        }
    }
    let is_cooldown = match &scope.lock_reason {
        Some(LockReason::CooldownActive) => true,
        _ => false,
    };
    if !cooldown_active(scope.cooldown_until, now) && is_cooldown {
        clear_scope_lock(scope);
    }
}

fn apply_range_validation_downgrade_to_scope(scope: &mut ProbeScopeCache, now: i64)
    ensures
        *final(scope) == scope_range_downgrade_spec(*old(scope), now),
{
    scope.range_supported = Some(false);
    scope.resumable = Some(false);
    scope.hard_no_range = true;
    scope.last_probe_at = Some(now);
    scope.last_instability_at = Some(now);
}

fn count_scope_events(scope: &mut ProbeScopeCache, payload: &HostTelemetryArgs, now: i64)
    ensures
        *final(scope) == scope_events_spec(*old(scope), *payload, now),
{
    if payload.throttle_event {
        scope.throttle_events = u32_sat_add(scope.throttle_events, 1);
        scope.last_instability_at = Some(now);
    }
    if payload.timeout_event {
        scope.timeout_events = u32_sat_add(scope.timeout_events, 1);
        scope.last_instability_at = Some(now);
    }
    if payload.reset_event {
        scope.reset_events = u32_sat_add(scope.reset_events, 1);
        scope.last_instability_at = Some(now);
    }
}

fn fold_scope_samples(scope: &mut ProbeScopeCache, payload: &HostTelemetryArgs, now: i64)
    ensures
        *final(scope) == scope_samples_spec(*old(scope), *payload, now),
{
    let n = u32_sat_add(scope.telemetry_samples, 1);
    match payload.ttfb_ms {
        Some(t) => { scope.average_ttfb_ms = moving_average(scope.average_ttfb_ms, t, n); },
        None => {},
    }
    match payload.throughput_bytes_per_second {
        Some(t) => {
            scope.average_throughput_bytes_per_second = moving_average(scope.average_throughput_bytes_per_second, t, n);
        },
        None => {},
    }
    scope.last_telemetry_at = Some(now);
    scope.telemetry_samples = n;
}

fn apply_scope_ramp(scope: &mut ProbeScopeCache, payload: &HostTelemetryArgs, now: i64)
    ensures
        *final(scope) == scope_ramp_spec(*old(scope), *payload, now),
{
    match payload.sustained_gain_bytes_per_second {
        Some(g) => {
            if g <= reported_gain_threshold(payload) {
                scope.ramp_attempts_without_gain = u32_sat_add(scope.ramp_attempts_without_gain, 1);
                scope.last_instability_at = Some(now);
            } else {
                scope.ramp_attempts_without_gain = 0;
                let is_ramp = match &scope.lock_reason {
                    Some(LockReason::RampNoGain) => true,
                    _ => false,
                };
                if is_ramp {
                    clear_scope_lock(scope);
                }
            }
        },
        None => {},
    }
    if scope.ramp_attempts_without_gain >= NO_GAIN_LOCK_ATTEMPTS {
        scope.concurrency_locked = true;
        scope.locked_connections = opt_reduced_no_gain(payload.attempted_connections);
        scope.lock_reason = Some(LockReason::RampNoGain);
        scope.last_instability_at = Some(now);
    }
}

fn apply_penalty_cooldown_to_scope(scope: &mut ProbeScopeCache, payload: &HostTelemetryArgs, base_seconds: i64, now: i64)
    requires
        1 <= base_seconds <= 300,
    ensures
        *final(scope) == scope_penalty_spec(*old(scope), *payload, base_seconds as int, now),
{
    let seconds = penalty_cooldown_seconds(base_seconds, scope.throttle_events, scope.timeout_events, scope.telemetry_samples);
    scope.cooldown_until = Some(cooldown_deadline_at(now, seconds));
    scope.concurrency_locked = true;
    scope.locked_connections = Some(cooldown_lock_connections(payload));
    scope.lock_reason = Some(LockReason::CooldownActive);
    scope.last_instability_at = Some(now);
}

/// Applies a report to one request shape's record.
pub fn apply_scope_telemetry(scope: &mut ProbeScopeCache, payload: &HostTelemetryArgs, now: i64)
    ensures
        *final(scope) == scope_telemetry_spec(*old(scope), *payload, now),
{
    release_scope_locks(scope, now);
    if payload.range_validation_failed {
        apply_range_validation_downgrade_to_scope(scope, now);
    }
    count_scope_events(scope, payload, now);
    fold_scope_samples(scope, payload, now);
    apply_scope_ramp(scope, payload, now);
    let base: i64 = if payload.throttle_event { 4 } else if payload.timeout_event { 2 } else { 0 };
    if base > 0 {
        apply_penalty_cooldown_to_scope(scope, payload, base, now);
    } else if payload.reset_event && !payload.throttle_event && !payload.timeout_event {
        apply_penalty_cooldown_to_scope(scope, payload, 1, now);
    }
}

fn record_scope_telemetry(profile: &mut HostProfile, key: &str, payload: &HostTelemetryArgs, now: i64)
    ensures
        final(profile)@ == (HostProfileView {
            probe_scopes: upsert_pairs(old(profile)@.probe_scopes, key@,
                scope_telemetry_spec(scope_or_empty(old(profile)@.probe_scopes, key@), *payload, now)),
            ..old(profile)@
        }),
{
    let ghost before = profile@.probe_scopes;
    let (i, mut scope) = open_scope(profile, key);
    proof { lemma_pair_pos_bounds(profile@.probe_scopes, key@, 0); }
    apply_scope_telemetry(&mut scope, payload, now);
    commit_scope(profile, i, scope);
    proof { lemma_upsert_then_update(before, key@, scope_or_empty(before, key@), i as int, scope); }
}

/// Applies a telemetry report to a host profile, as of time `now`.
pub fn apply_host_telemetry_at(profile: &mut HostProfile, payload: &HostTelemetryArgs, now: i64)
    ensures
        final(profile)@ == host_telemetry_spec(old(profile)@, *payload, now),
{
    maybe_release_stale_probe_failure_lock(profile, now);
    maybe_release_stale_ramp_lock(profile, now);
    count_events(profile, payload);
    fold_averages(profile, payload);
    match &payload.negotiated_protocol {
        Some(p) => {
            if !p.as_str().is_empty() {
                observe_negotiated_protocol(profile, p.as_str());
            }
        },
        None => {},
    }
    count_reuse(profile, payload);
    profile.last_telemetry_at = Some(now);
    profile.telemetry_samples = u32_sat_add(profile.telemetry_samples, 1);
    if payload.scope_key.is_none() {
        apply_host_penalties(profile, payload, now);
    }
    maybe_recover_host_max_connections(profile, payload, now);
    match &payload.scope_key {
        Some(k) => { record_scope_telemetry(profile, k.as_str(), payload, now); },
        None => {},
    }
}

/// Applies a telemetry report to a host profile at the current time.
pub fn apply_host_telemetry(profile: &mut HostProfile, payload: &HostTelemetryArgs)
    ensures
        exists|now: i64| final(profile)@ == host_telemetry_spec(old(profile)@, *payload, now),
{
    let now = unix_epoch_millis();
    apply_host_telemetry_at(profile, payload, now);
}

} // verus!
