//! How many connections a host gets, and how telemetry from transfers updates what is known
//! about it.

use vstd::prelude::*;
use crate::arith::{sat_mul, sat_add, sat_sub, sat_add_i64, sat_sub_i64, sat_mul_i64, ceil_div, max_int, min_int, clamp_int, u32_max, u32_min, u32_sat_add, u32_sat_sub, u32_sat_mul, u64_sat_mul, u64_div_ceil, i64_sat_add, i64_sat_sub, i64_sat_mul};
use crate::model::{EngineSettings, HostDiagnosticsSummary, HostProfile, HostTelemetryArgs, LockReason, ProbeScopeCache, ProbeScopeEntry, TrafficMode};
use crate::scopes::{opt_key, scope_of, scope_index, scope_entry_index, scope_pos, entries_view, upsert_view, copy_scope, copy_opt_reason, lemma_scope_pos_update, lemma_scope_pos_from_bounds};
use crate::probe::{normalize_protocol_label, normalized_protocol_spec, multiplexed_label_spec, is_multiplexed_label};
use crate::text::{push_decimal, decimal_spec};

verus! {

pub const DEFAULT_STABLE_HOST_CAP: u32 = 20;
pub const EXPERIMENTAL_HOST_CAP: u32 = 64;
pub const TRAFFIC_MODE_LOW_CONNECTION_CAP: u32 = 2;
pub const TRAFFIC_MODE_MEDIUM_CONNECTION_CAP: u32 = 4;
pub const TRAFFIC_MODE_HIGH_CONNECTION_CAP: u32 = 8;
pub const DEFAULT_TARGET_CHUNK_TIME_SECONDS: u64 = 2;
pub const NO_GAIN_LOCK_ATTEMPTS: u32 = 5;
pub const NO_GAIN_THRESHOLD: i64 = 131_072;
pub const MAX_GAIN_THRESHOLD: i64 = 33_554_432;
pub const RELATIVE_GAIN_THRESHOLD_DIVISOR: u64 = 24;
pub const MAX_COOLDOWN_SECONDS: i64 = 300;
pub const HOST_CAP_RECOVERY_STABLE_SAMPLES: u32 = 4;
pub const HOST_CAP_RECOVERY_MIN_THROUGHPUT_BYTES_PER_SECOND: u64 = 4_194_304;
pub const PROBE_FAILURE_LOCK_WINDOW_MS: i64 = 600_000;
pub const RAMP_NO_GAIN_LOCK_WINDOW_MS: i64 = 900_000;
pub const PROTOCOL_MULTIPLEX_MAX_CONNECTIONS: u32 = 8;
pub const PROTOCOL_DEGRADED_MAX_CONNECTIONS: u32 = 2;
pub const PROTOCOL_MULTIPLEX_CONFIDENCE_MIN_SAMPLES: u32 = 6;
pub const PROTOCOL_RECOVERY_SAMPLE_MULTIPLIER: u32 = 8;
pub const WARM_START_CONFIDENCE_SAMPLES: u32 = 4;
pub const WARM_START_DEFAULT_CONNECTIONS: u32 = 2;
pub const WARM_START_LARGE_FILE_BYTES: u64 = 67_108_864;
pub const WARM_START_LARGE_FILE_CONNECTIONS: u32 = 3;
pub const WARM_START_HUGE_FILE_BYTES: u64 = 536_870_912;
pub const WARM_START_HUGE_FILE_CONNECTIONS: u32 = 4;
pub const WARM_START_SLOW_HOST_BYTES_PER_SECOND: u64 = 4_194_304;
pub const WARM_START_VERY_FAST_HOST_BYTES_PER_SECOND: u64 = 134_217_728;
pub const WARM_START_VERY_FAST_CONNECTIONS: u32 = 3;

/// The current time in milliseconds since the Unix epoch (`std::time::SystemTime::now`,
/// read as a duration since the epoch and capped to `i64`), 0 if the clock is before it.
/// Only that it is not negative is promised: which instant it reads is the machine's.
#[verifier::external_body]
pub fn unix_epoch_millis() -> (r: i64)
    ensures
        r >= 0,
{
    std::time::SystemTime::now()
        .duration_since(std::time::UNIX_EPOCH)
        .map(|duration| duration.as_millis().min(i64::MAX as u128) as i64)
        .unwrap_or_default()
}

pub open spec fn is_cooldown_reason(r: Option<LockReason>) -> bool {
    r matches Some(LockReason::CooldownActive)
}

pub open spec fn is_ramp_reason(r: Option<LockReason>) -> bool {
    r matches Some(LockReason::RampNoGain)
}

pub open spec fn is_probe_failure_reason(r: Option<LockReason>) -> bool {
    r matches Some(LockReason::ProbeFailures)
}

/// Whole seconds left of a cooldown (at least one), or `None` when it is over or absent.
pub open spec fn cooldown_remaining_spec(cooldown_until: Option<i64>, now: i64) -> Option<i64> {
    match cooldown_until {
        None => None,
        Some(until) => {
            let remaining = sat_sub_i64(until as int, now as int);
            if remaining <= 0 { None } else { Some(max_int(remaining / 1000, 1) as i64) }
        },
    }
}

pub open spec fn cooldown_active_spec(cooldown_until: Option<i64>, now: i64) -> bool {
    cooldown_remaining_spec(cooldown_until, now) is Some
}

pub fn cooldown_remaining_seconds(cooldown_until: Option<i64>, now: i64) -> (r: Option<i64>)
    ensures
        r == cooldown_remaining_spec(cooldown_until, now),
{
    let until = match cooldown_until {
        Some(u) => u,
        None => { return None; },
    };
    let remaining = i64_sat_sub(until, now);
    if remaining <= 0 {
        None
    } else {
        let seconds = remaining / 1000;
        Some(if seconds > 1 { seconds } else { 1 })
    }
}

pub fn cooldown_active(cooldown_until: Option<i64>, now: i64) -> (r: bool)
    ensures
        r == cooldown_active_spec(cooldown_until, now),
{
    cooldown_remaining_seconds(cooldown_until, now).is_some()
}

/// A ramp lock stays in force for a window after the last telemetry.
pub open spec fn ramp_lock_active_spec(last_telemetry_at: Option<i64>, now: i64) -> bool {
    match last_telemetry_at {
        Some(t) => sat_sub_i64(now as int, t as int) <= RAMP_NO_GAIN_LOCK_WINDOW_MS,
        None => false,
    }
}

pub fn ramp_no_gain_lock_active(profile: &HostProfile, now: i64) -> (r: bool)
    ensures
        r == ramp_lock_active_spec(profile.last_telemetry_at, now),
{
    match profile.last_telemetry_at {
        Some(t) => i64_sat_sub(now, t) <= RAMP_NO_GAIN_LOCK_WINDOW_MS,
        None => false,
    }
}

pub fn scope_ramp_no_gain_lock_active(scope: &ProbeScopeCache, now: i64) -> (r: bool)
    ensures
        r == ramp_lock_active_spec(scope.last_telemetry_at, now),
{
    match scope.last_telemetry_at {
        Some(t) => i64_sat_sub(now, t) <= RAMP_NO_GAIN_LOCK_WINDOW_MS,
        None => false,
    }
}

/// A host-wide lock applies unless it was set for probe failures, or its cooldown or ramp
/// window has passed.
pub open spec fn host_lock_applies_spec(profile: HostProfile, now: i64) -> bool {
    if !profile.concurrency_locked {
        false
    } else {
        match profile.lock_reason {
            Some(LockReason::ProbeFailures) => false,
            Some(LockReason::CooldownActive) => cooldown_active_spec(profile.cooldown_until, now),
            Some(LockReason::RampNoGain) => ramp_lock_active_spec(profile.last_telemetry_at, now),
            _ => true,
        }
    }
}

pub fn should_apply_concurrency_lock(profile: &HostProfile, now: i64) -> (r: bool)
    ensures
        r == host_lock_applies_spec(*profile, now),
{
    if !profile.concurrency_locked {
        return false;
    }
    match &profile.lock_reason {
        Some(LockReason::ProbeFailures) => false,
        Some(LockReason::CooldownActive) => cooldown_active(profile.cooldown_until, now),
        Some(LockReason::RampNoGain) => ramp_no_gain_lock_active(profile, now),
        _ => true,
    }
}

/// The lock that applies for a request shape: the shape's own lock when it has a record,
/// the host's otherwise.
pub open spec fn lock_applies_spec(profile: HostProfile, key: Option<Seq<char>>, now: i64) -> bool {
    match scope_of(profile, key) {
        None => host_lock_applies_spec(profile, now),
        Some(scope) => {
            if !scope.concurrency_locked {
                false
            } else {
                match scope.lock_reason {
                    Some(LockReason::CooldownActive) => cooldown_active_spec(scope.cooldown_until, now),
                    Some(LockReason::RampNoGain) => ramp_lock_active_spec(scope.last_telemetry_at, now),
                    _ => true,
                }
            }
        },
    }
}

pub fn should_apply_concurrency_lock_for_scope(profile: &HostProfile, scope_key: Option<&str>, now: i64) -> (r: bool)
    ensures
        r == lock_applies_spec(*profile, opt_key(scope_key), now),
{
    let i = match scope_index(profile, scope_key) {
        Some(i) => i,
        None => { return should_apply_concurrency_lock(profile, now); },
    };
    let scope = &profile.probe_scopes[i].scope;
    if !scope.concurrency_locked {
        return false;
    }
    match &scope.lock_reason {
        Some(LockReason::CooldownActive) => cooldown_active(scope.cooldown_until, now),
        Some(LockReason::RampNoGain) => scope_ramp_no_gain_lock_active(scope, now),
        _ => true,
    }
}

/// Whether a shape record carries telemetry of its own.
pub open spec fn scope_has_telemetry_spec(scope: ProbeScopeCache) -> bool {
    scope.telemetry_samples > 0 || scope.average_ttfb_ms is Some || scope.average_throughput_bytes_per_second is Some
}

pub fn scope_has_telemetry(scope: &ProbeScopeCache) -> (r: bool)
    ensures
        r == scope_has_telemetry_spec(*scope),
{
    scope.telemetry_samples > 0 || scope.average_ttfb_ms.is_some() || scope.average_throughput_bytes_per_second.is_some()
}

/// Telemetry samples behind the estimates for a request shape.
pub open spec fn telemetry_samples_spec(profile: HostProfile, key: Option<Seq<char>>) -> u32 {
    match scope_of(profile, key) {
        Some(scope) if scope_has_telemetry_spec(scope) => scope.telemetry_samples,
        _ => profile.telemetry_samples,
    }
}

pub fn effective_telemetry_samples(profile: &HostProfile, scope_key: Option<&str>) -> (r: u32)
    ensures
        r == telemetry_samples_spec(*profile, opt_key(scope_key)),
{
    match scope_index(profile, scope_key) {
        Some(i) => {
            if scope_has_telemetry(&profile.probe_scopes[i].scope) {
                profile.probe_scopes[i].scope.telemetry_samples
            } else {
                profile.telemetry_samples
            }
        },
        None => profile.telemetry_samples,
    }
}

pub open spec fn cooldown_until_spec(profile: HostProfile, key: Option<Seq<char>>) -> Option<i64> {
    match scope_of(profile, key) {
        Some(scope) => scope.cooldown_until,
        None => profile.cooldown_until,
    }
}

pub fn effective_cooldown_until(profile: &HostProfile, scope_key: Option<&str>) -> (r: Option<i64>)
    ensures
        r == cooldown_until_spec(*profile, opt_key(scope_key)),
{
    match scope_index(profile, scope_key) {
        Some(i) => profile.probe_scopes[i].scope.cooldown_until,
        None => profile.cooldown_until,
    }
}

pub open spec fn locked_connections_spec(profile: HostProfile, key: Option<Seq<char>>) -> Option<u32> {
    match scope_of(profile, key) {
        Some(scope) if scope.locked_connections is Some => scope.locked_connections,
        _ => profile.locked_connections,
    }
}

pub fn effective_locked_connections(profile: &HostProfile, scope_key: Option<&str>) -> (r: Option<u32>)
    ensures
        r == locked_connections_spec(*profile, opt_key(scope_key)),
{
    match scope_index(profile, scope_key) {
        Some(i) => match profile.probe_scopes[i].scope.locked_connections {
            Some(v) => Some(v),
            None => profile.locked_connections,
        },
        None => profile.locked_connections,
    }
}

pub open spec fn lock_reason_spec(profile: HostProfile, key: Option<Seq<char>>) -> Option<LockReason> {
    match scope_of(profile, key) {
        Some(scope) if scope.lock_reason is Some => scope.lock_reason,
        _ => profile.lock_reason,
    }
}

pub fn effective_lock_reason(profile: &HostProfile, scope_key: Option<&str>) -> (r: Option<LockReason>)
    ensures
        r == lock_reason_spec(*profile, opt_key(scope_key)),
{
    match scope_index(profile, scope_key) {
        Some(i) => {
            if profile.probe_scopes[i].scope.lock_reason.is_some() {
                copy_opt_reason(&profile.probe_scopes[i].scope.lock_reason)
            } else {
                copy_opt_reason(&profile.lock_reason)
            }
        },
        None => copy_opt_reason(&profile.lock_reason),
    }
}

pub open spec fn throttle_events_spec(profile: HostProfile, key: Option<Seq<char>>) -> u32 {
    match scope_of(profile, key) {
        Some(scope) => scope.throttle_events,
        None => profile.throttle_events,
    }
}

pub fn effective_throttle_events(profile: &HostProfile, scope_key: Option<&str>) -> (r: u32)
    ensures
        r == throttle_events_spec(*profile, opt_key(scope_key)),
{
    match scope_index(profile, scope_key) {
        Some(i) => profile.probe_scopes[i].scope.throttle_events,
        None => profile.throttle_events,
    }
}

/// Average time to first byte for a request shape: the shape's own when it has telemetry,
/// the host's otherwise.
pub open spec fn average_ttfb_spec(profile: Option<HostProfile>, key: Option<Seq<char>>) -> Option<u64> {
    match profile {
        None => None,
        Some(p) => match scope_of(p, key) {
            Some(scope) if scope_has_telemetry_spec(scope) && scope.average_ttfb_ms is Some => scope.average_ttfb_ms,
            _ => p.average_ttfb_ms,
        },
    }
}

pub open spec fn opt_profile(profile: Option<&HostProfile>) -> Option<HostProfile> {
    match profile {
        Some(p) => Some(*p),
        None => None,
    }
}

pub fn effective_average_ttfb_ms(profile: Option<&HostProfile>, scope_key: Option<&str>) -> (r: Option<u64>)
    ensures
        r == average_ttfb_spec(opt_profile(profile), opt_key(scope_key)),
{
    let profile = match profile {
        Some(p) => p,
        None => { return None; },
    };
    match scope_index(profile, scope_key) {
        Some(i) => {
            let scope = &profile.probe_scopes[i].scope;
            if scope_has_telemetry(scope) && scope.average_ttfb_ms.is_some() {
                scope.average_ttfb_ms
            } else {
                profile.average_ttfb_ms
            }
        },
        None => profile.average_ttfb_ms,
    }
}

/// Average throughput for a request shape, chosen the same way.
pub open spec fn average_throughput_spec(profile: Option<HostProfile>, key: Option<Seq<char>>) -> Option<u64> {
    match profile {
        None => None,
        Some(p) => match scope_of(p, key) {
            Some(scope) if scope_has_telemetry_spec(scope) && scope.average_throughput_bytes_per_second is Some => scope.average_throughput_bytes_per_second,
            _ => p.average_throughput_bytes_per_second,
        },
    }
}

pub fn effective_average_throughput_bytes_per_second(profile: Option<&HostProfile>, scope_key: Option<&str>) -> (r: Option<u64>)
    ensures
        r == average_throughput_spec(opt_profile(profile), opt_key(scope_key)),
{
    let profile = match profile {
        Some(p) => p,
        None => { return None; },
    };
    match scope_index(profile, scope_key) {
        Some(i) => {
            let scope = &profile.probe_scopes[i].scope;
            if scope_has_telemetry(scope) && scope.average_throughput_bytes_per_second.is_some() {
                scope.average_throughput_bytes_per_second
            } else {
                profile.average_throughput_bytes_per_second
            }
        },
        None => profile.average_throughput_bytes_per_second,
    }
}

/// Per-host connection cap of the traffic mode.
pub open spec fn traffic_cap_spec(settings: EngineSettings) -> int {
    match settings.traffic_mode {
        TrafficMode::Low => TRAFFIC_MODE_LOW_CONNECTION_CAP as int,
        TrafficMode::Medium => TRAFFIC_MODE_MEDIUM_CONNECTION_CAP as int,
        TrafficMode::High => TRAFFIC_MODE_HIGH_CONNECTION_CAP as int,
        TrafficMode::Max => if settings.experimental_uncapped_mode { EXPERIMENTAL_HOST_CAP as int } else { DEFAULT_STABLE_HOST_CAP as int },
    }
}

pub fn traffic_mode_connection_cap(settings: &EngineSettings) -> (r: u32)
    ensures
        r == traffic_cap_spec(*settings),
{
    match settings.traffic_mode {
        TrafficMode::Low => TRAFFIC_MODE_LOW_CONNECTION_CAP,
        TrafficMode::Medium => TRAFFIC_MODE_MEDIUM_CONNECTION_CAP,
        TrafficMode::High => TRAFFIC_MODE_HIGH_CONNECTION_CAP,
        TrafficMode::Max => if settings.experimental_uncapped_mode { EXPERIMENTAL_HOST_CAP } else { DEFAULT_STABLE_HOST_CAP },
    }
}

/// Whether a negotiated protocol multiplexes requests over one connection.
pub open spec fn multiplexed_spec(protocol: Option<Seq<u8>>) -> bool {
    match protocol {
        Some(p) => multiplexed_label_spec(p),
        None => false,
    }
}

pub open spec fn opt_bytes(protocol: Option<String>) -> Option<Seq<u8>> {
    match protocol {
        Some(p) => Some(vstd::utf8::encode_utf8(p@)),
        None => None,
    }
}

pub fn protocol_is_multiplexed(protocol: &Option<String>) -> (r: bool)
    ensures
        r == multiplexed_spec(opt_bytes(*protocol)),
{
    match protocol {
        Some(p) => {
            let b = p.as_str().as_bytes();
            is_multiplexed_label(b)
        },
        None => false,
    }
}

/// The connection target for a download: the requested count within the host's hard cap
/// and the traffic mode's cap, then lowered by what is known of the host and request shape.
pub open spec fn connection_target_spec(requested: int, settings: EngineSettings, profile: Option<HostProfile>, key: Option<Seq<char>>, now: i64) -> int {
    let hard_cap = if settings.experimental_uncapped_mode { EXPERIMENTAL_HOST_CAP as int } else { DEFAULT_STABLE_HOST_CAP as int };
    let t0 = min_int(max_int(requested, 1), min_int(hard_cap, traffic_cap_spec(settings)));
    match profile {
        None => t0,
        Some(p) => {
            let t1 = match p.max_connections { Some(limit) => min_int(t0, max_int(limit as int, 1)), None => t0 };
            let t2 = if cooldown_active_spec(cooldown_until_spec(p, key), now) {
                match locked_connections_spec(p, key) { Some(l) => min_int(t1, max_int(l as int, 1)), None => min_int(t1, 1) }
            } else { t1 };
            let t3 = if lock_applies_spec(p, key, now) && locked_connections_spec(p, key) is Some {
                min_int(t2, min_int(max_int(locked_connections_spec(p, key).unwrap() as int, 1), hard_cap))
            } else { t2 };
            let reused = p.protocol_reuse_events as int;
            let opened = p.protocol_new_connection_events as int;
            let t4 = if multiplexed_spec(opt_bytes(p.negotiated_protocol))
                && sat_add_u32(reused, opened) >= PROTOCOL_MULTIPLEX_CONFIDENCE_MIN_SAMPLES
                && reused >= sat_mul_u32(opened, 2) {
                min_int(t3, PROTOCOL_MULTIPLEX_MAX_CONNECTIONS as int)
            } else { t3 };
            if p.protocol_downgrade_events > 0 { min_int(t4, PROTOCOL_DEGRADED_MAX_CONNECTIONS as int) } else { t4 }
        },
    }
}

pub open spec fn sat_add_u32(a: int, b: int) -> int {
    if a + b > u32::MAX { u32::MAX as int } else { a + b }
}

pub open spec fn sat_mul_u32(a: int, b: int) -> int {
    if a * b > u32::MAX { u32::MAX as int } else { a * b }
}

pub fn connection_target_at(
    requested_connections: u32,
    settings: &EngineSettings,
    profile: Option<&HostProfile>,
    scope_key: Option<&str>,
    now: i64,
) -> (r: u32)
    ensures
        r == connection_target_spec(requested_connections as int, *settings, opt_profile(profile), opt_key(scope_key), now),
        1 <= r <= max_int(requested_connections as int, 1),
{
    let host_hard_cap = if settings.experimental_uncapped_mode { EXPERIMENTAL_HOST_CAP } else { DEFAULT_STABLE_HOST_CAP };
    let traffic_cap = traffic_mode_connection_cap(settings);
    let mut target = u32_min(u32_max(requested_connections, 1), u32_min(host_hard_cap, traffic_cap));
    let p = match profile {
        Some(p) => p,
        None => { return target; },
    };
    match p.max_connections {
        Some(limit) => { target = u32_min(target, u32_max(limit, 1)); },
        None => {},
    }
    if cooldown_active(effective_cooldown_until(p, scope_key), now) {
        match effective_locked_connections(p, scope_key) {
            Some(locked) => { target = u32_min(target, u32_max(locked, 1)); },
            None => { target = u32_min(target, 1); },
        }
    }
    if should_apply_concurrency_lock_for_scope(p, scope_key, now) {
        match effective_locked_connections(p, scope_key) {
            Some(locked) => { target = u32_min(target, u32_min(u32_max(locked, 1), host_hard_cap)); },
            None => {},
        }
    }
    if protocol_is_multiplexed(&p.negotiated_protocol) {
        let reused = p.protocol_reuse_events;
        let opened = p.protocol_new_connection_events;
        let samples = u32_sat_add(reused, opened);
        if samples >= PROTOCOL_MULTIPLEX_CONFIDENCE_MIN_SAMPLES && reused >= u32_sat_mul(opened, 2) {
            target = u32_min(target, PROTOCOL_MULTIPLEX_MAX_CONNECTIONS);
        }
    }
    if p.protocol_downgrade_events > 0 {
        target = u32_min(target, PROTOCOL_DEGRADED_MAX_CONNECTIONS);
    }
    target
}

/// The connection target for a download of a host, read at the current time.
pub fn effective_connection_target_for_scope(
    requested_connections: u32,
    settings: &EngineSettings,
    profile: Option<&HostProfile>,
    scope_key: Option<&str>,
) -> (r: u32)
    ensures
        exists|now: i64| r == connection_target_spec(requested_connections as int, *settings, opt_profile(profile), opt_key(scope_key), now),
        1 <= r <= max_int(requested_connections as int, 1),
{
    let now = unix_epoch_millis();
    connection_target_at(requested_connections, settings, profile, scope_key, now)
}

/// The connection target when no request shape is given.
pub fn effective_connection_target(requested_connections: u32, settings: &EngineSettings, profile: Option<&HostProfile>) -> (r: u32)
    ensures
        exists|now: i64| r == connection_target_spec(requested_connections as int, *settings, opt_profile(profile), None, now),
        1 <= r <= max_int(requested_connections as int, 1),
{
    effective_connection_target_for_scope(requested_connections, settings, profile, None)
}

/// The connection target of a host at `now`, with no scope.
pub fn effective_connection_target_at(requested_connections: u32, settings: &EngineSettings, profile: Option<&HostProfile>, now: i64) -> (r: u32)
    ensures
        r == connection_target_spec(requested_connections as int, *settings, opt_profile(profile), None, now),
        1 <= r <= max_int(requested_connections as int, 1),
{
    connection_target_at(requested_connections, settings, profile, None, now)
}

/// At any one clock reading, the target of a host without a scope is the scoped target with
/// no scope key: `effective_connection_target_at` and `connection_target_at(.., None, now)`
/// answer alike.
pub proof fn lemma_unscoped_target_agrees(requested: u32, settings: EngineSettings, profile: Option<&HostProfile>, now: i64)
    ensures
        connection_target_spec(requested as int, settings, opt_profile(profile), None, now)
            == connection_target_spec(requested as int, settings, opt_profile(profile), opt_key(None::<&str>), now),
{
}

/// `target` scaled to the configured chunk time (relative to the default of two seconds),
/// between one and `max_connections`.
pub open spec fn scale_for_chunk_time_spec(target: int, max_connections: int, settings: EngineSettings) -> int {
    let scaled = ceil_div(max_int(target, 1) * DEFAULT_TARGET_CHUNK_TIME_SECONDS, max_int(settings.target_chunk_time_seconds as int, 1));
    clamp_int(min_int(scaled, u32::MAX as int), 1, max_connections)
}

pub fn scale_target_connections_for_chunk_time(target: u32, max_connections: u32, settings: &EngineSettings) -> (r: u32)
    requires
        max_connections >= 1,
    ensures
        r == scale_for_chunk_time_spec(target as int, max_connections as int, *settings),
{
    let scaled = u64_div_ceil(u32_max(target, 1) as u64 * DEFAULT_TARGET_CHUNK_TIME_SECONDS, u32_max(settings.target_chunk_time_seconds, 1) as u64);
    let capped: u32 = if scaled > u32::MAX as u64 { u32::MAX } else { scaled as u32 };
    if capped < 1 { 1 } else if capped > max_connections { max_connections } else { capped }
}

/// Starting connections before anything is known of a host: two, three for large files and
/// four for huge ones (as far as allowed), scaled to the chunk time.
pub open spec fn warm_start_spec(max_connections: int, settings: EngineSettings, planned_size: Option<u64>) -> int {
    let t0 = min_int(max_connections, WARM_START_DEFAULT_CONNECTIONS as int);
    match planned_size {
        Some(size) if size > 0 => {
            let t1 = if size >= WARM_START_LARGE_FILE_BYTES && max_connections >= WARM_START_LARGE_FILE_CONNECTIONS {
                max_int(t0, WARM_START_LARGE_FILE_CONNECTIONS as int)
            } else { t0 };
            let t2 = if size >= WARM_START_HUGE_FILE_BYTES && max_connections >= WARM_START_HUGE_FILE_CONNECTIONS {
                max_int(t1, WARM_START_HUGE_FILE_CONNECTIONS as int)
            } else { t1 };
            scale_for_chunk_time_spec(t2, max_connections, settings)
        },
        _ => scale_for_chunk_time_spec(t0, max_connections, settings),
    }
}

pub fn warm_start_seed_connections(max_connections: u32, settings: &EngineSettings, planned_size: Option<u64>) -> (r: u32)
    requires
        max_connections >= 1,
    ensures
        r == warm_start_spec(max_connections as int, *settings, planned_size),
{
    let mut target = u32_min(max_connections, WARM_START_DEFAULT_CONNECTIONS);
    let size = match planned_size {
        Some(s) => s,
        None => { return scale_target_connections_for_chunk_time(target, max_connections, settings); },
    };
    if size == 0 {
        return scale_target_connections_for_chunk_time(target, max_connections, settings);
    }
    if size >= WARM_START_LARGE_FILE_BYTES && max_connections >= WARM_START_LARGE_FILE_CONNECTIONS {
        target = u32_max(target, WARM_START_LARGE_FILE_CONNECTIONS);
    }
    if size >= WARM_START_HUGE_FILE_BYTES && max_connections >= WARM_START_HUGE_FILE_CONNECTIONS {
        target = u32_max(target, WARM_START_HUGE_FILE_CONNECTIONS);
    }
    scale_target_connections_for_chunk_time(target, max_connections, settings)
}

/// The connections a new transfer starts with: one during a cooldown, the locked count under
/// a lock, the warm start otherwise, adjusted by measured throughput once it is trusted.
pub open spec fn initial_target_spec(max_connections: int, settings: EngineSettings, profile: Option<HostProfile>, key: Option<Seq<char>>, planned_size: Option<u64>, now: i64) -> int {
    let m = max_int(max_connections, 1);
    if m == 1 {
        1
    } else {
        let seed = warm_start_spec(m, settings, planned_size);
        match profile {
            None => seed,
            Some(p) => {
                if cooldown_active_spec(cooldown_until_spec(p, key), now) {
                    1
                } else if lock_applies_spec(p, key, now) && locked_connections_spec(p, key) is Some {
                    min_int(max_int(locked_connections_spec(p, key).unwrap() as int, 1), m)
                } else if telemetry_samples_spec(p, key) < WARM_START_CONFIDENCE_SAMPLES {
                    seed
                } else {
                    let t = match average_throughput_spec(Some(p), key) {
                        Some(tp) => {
                            if tp <= WARM_START_SLOW_HOST_BYTES_PER_SECOND {
                                1
                            } else if multiplexed_spec(opt_bytes(p.negotiated_protocol))
                                && tp >= WARM_START_VERY_FAST_HOST_BYTES_PER_SECOND
                                && m >= WARM_START_VERY_FAST_CONNECTIONS {
                                max_int(seed, WARM_START_VERY_FAST_CONNECTIONS as int)
                            } else { seed }
                        },
                        None => seed,
                    };
                    max_int(min_int(t, m), 1)
                }
            },
        }
    }
}

pub fn initial_target_at(
    max_connections: u32,
    settings: &EngineSettings,
    profile: Option<&HostProfile>,
    scope_key: Option<&str>,
    planned_size: Option<u64>,
    now: i64,
) -> (r: u32)
    ensures
        r == initial_target_spec(max_connections as int, *settings, opt_profile(profile), opt_key(scope_key), planned_size, now),
{
    let max_connections = u32_max(max_connections, 1);
    if max_connections == 1 {
        return 1;
    }
    let mut target = warm_start_seed_connections(max_connections, settings, planned_size);
    let p = match profile {
        Some(p) => p,
        None => { return target; },
    };
    if cooldown_active(effective_cooldown_until(p, scope_key), now) {
        return 1;
    }
    if should_apply_concurrency_lock_for_scope(p, scope_key, now) {
        match effective_locked_connections(p, scope_key) {
            Some(locked) => { return u32_min(u32_max(locked, 1), max_connections); },
            None => {},
        }
    }
    if effective_telemetry_samples(p, scope_key) < WARM_START_CONFIDENCE_SAMPLES {
        return target;
    }
    match effective_average_throughput_bytes_per_second(Some(p), scope_key) {
        Some(throughput) => {
            if throughput <= WARM_START_SLOW_HOST_BYTES_PER_SECOND {
                target = 1;
            } else if protocol_is_multiplexed(&p.negotiated_protocol)
                && throughput >= WARM_START_VERY_FAST_HOST_BYTES_PER_SECOND
                && max_connections >= WARM_START_VERY_FAST_CONNECTIONS {
                target = u32_max(target, WARM_START_VERY_FAST_CONNECTIONS);
            }
        },
        None => {},
    }
    u32_max(u32_min(target, max_connections), 1)
}

/// The starting connections of a new transfer, read at the current time.
pub fn initial_target_connections_for_scope(
    max_connections: u32,
    settings: &EngineSettings,
    profile: Option<&HostProfile>,
    scope_key: Option<&str>,
    planned_size: Option<u64>,
) -> (r: u32)
    ensures
        exists|now: i64| r == initial_target_spec(max_connections as int, *settings, opt_profile(profile), opt_key(scope_key), planned_size, now),
{
    let now = unix_epoch_millis();
    initial_target_at(max_connections, settings, profile, scope_key, planned_size, now)
}

/// The sustained gain a ramp-up must show to count: a 24th of the reference throughput,
/// between 128 KiB/s and 32 MiB/s.
pub open spec fn gain_threshold_spec(reference_throughput: int) -> int {
    clamp_int(min_int(reference_throughput / RELATIVE_GAIN_THRESHOLD_DIVISOR as int, i64::MAX as int), NO_GAIN_THRESHOLD as int, MAX_GAIN_THRESHOLD as int)
}

pub fn ramp_gain_threshold_bytes_per_second(reference_throughput: u64) -> (r: i64)
    ensures
        r == gain_threshold_spec(reference_throughput as int),
        NO_GAIN_THRESHOLD <= r <= MAX_GAIN_THRESHOLD,
{
    let relative = reference_throughput / RELATIVE_GAIN_THRESHOLD_DIVISOR;
    let v: i64 = if relative > i64::MAX as u64 { i64::MAX } else { relative as i64 };
    if v < NO_GAIN_THRESHOLD { NO_GAIN_THRESHOLD } else if v > MAX_GAIN_THRESHOLD { MAX_GAIN_THRESHOLD } else { v }
}

/// Running mean over `sample_count` samples including the new one.
pub open spec fn moving_average_spec(previous: Option<u64>, current: u64, sample_count: int) -> Option<u64> {
    if sample_count <= 1 {
        Some(current)
    } else {
        let old = match previous { Some(p) => p as int, None => current as int };
        Some(((old * (sample_count - 1) + current) / sample_count) as u64)
    }
}

pub fn moving_average(previous: Option<u64>, current: u64, sample_count: u32) -> (r: Option<u64>)
    ensures
        r == moving_average_spec(previous, current, sample_count as int),
{
    if sample_count <= 1 {
        return Some(current);
    }
    let old: u128 = match previous { Some(p) => p as u128, None => current as u128 };
    let n = sample_count as u128;
    assert(old * (n - 1) <= 0xffff_ffff_ffff_ffff * 0xffff_ffff) by (nonlinear_arith)
        requires old <= 0xffff_ffff_ffff_ffffu128, n - 1 <= 0xffff_ffffu128, n >= 1;
    let total = old * (n - 1) + current as u128;
    let weighted = total / n;
    let m: u128 = if old >= current as u128 { old } else { current as u128 };
    assert(weighted <= m) by (nonlinear_arith)
        requires total == old * (n - 1) + current, weighted == total / n, n >= 2, old <= m, current <= m;
    Some(weighted as u64)
}

/// Connections a throttled host is locked to: one up to two attempted, two up to four,
/// otherwise half of the attempted (at least two).
pub open spec fn throttle_lock_spec(attempted: int) -> int {
    if attempted <= 2 { 1 } else if attempted <= 4 { 2 } else { max_int(sat_sub(attempted, max_int(attempted / 2, 1)), 2) }
}

pub fn cooldown_lock_connections_for_throttle(attempted_connections: u32) -> (r: u32)
    ensures
        r == throttle_lock_spec(attempted_connections as int),
{
    if attempted_connections <= 2 {
        return 1;
    }
    if attempted_connections <= 4 {
        return 2;
    }
    u32_max(u32_sat_sub(attempted_connections, u32_max(attempted_connections / 2, 1)), 2)
}

/// Connections a timing-out host is locked to: one up to two attempted, otherwise one fewer.
pub open spec fn timeout_lock_spec(attempted: int) -> int {
    if attempted <= 2 { 1 } else { max_int(sat_sub(attempted, 1), 2) }
}

pub fn cooldown_lock_connections_for_timeout(attempted_connections: u32) -> (r: u32)
    ensures
        r == timeout_lock_spec(attempted_connections as int),
{
    if attempted_connections <= 2 {
        return 1;
    }
    u32_max(u32_sat_sub(attempted_connections, 1), 2)
}

/// The connections a cooldown locks to: the lower of the throttle and timeout locks for the
/// events reported, one when neither was reported.
pub open spec fn cooldown_lock_spec(payload: HostTelemetryArgs) -> int {
    let attempted = max_int(match payload.attempted_connections { Some(a) => a as int, None => 1 }, 1);
    if payload.throttle_event && payload.timeout_event {
        max_int(min_int(throttle_lock_spec(attempted), timeout_lock_spec(attempted)), 1)
    } else if payload.throttle_event {
        max_int(throttle_lock_spec(attempted), 1)
    } else if payload.timeout_event {
        max_int(timeout_lock_spec(attempted), 1)
    } else {
        1
    }
}

pub fn cooldown_lock_connections(payload: &HostTelemetryArgs) -> (r: u32)
    ensures
        r == cooldown_lock_spec(*payload),
        r >= 1,
{
    let attempted = u32_max(match payload.attempted_connections { Some(a) => a, None => 1 }, 1);
    if payload.throttle_event && payload.timeout_event {
        u32_max(u32_min(cooldown_lock_connections_for_throttle(attempted), cooldown_lock_connections_for_timeout(attempted)), 1)
    } else if payload.throttle_event {
        u32_max(cooldown_lock_connections_for_throttle(attempted), 1)
    } else if payload.timeout_event {
        u32_max(cooldown_lock_connections_for_timeout(attempted), 1)
    } else {
        1
    }
}

/// Connections a ramp that showed no gain is locked back to.
pub open spec fn no_gain_lock_spec(attempted: int) -> u32 {
    if attempted <= 2 {
        1
    } else if attempted <= 4 {
        max_int(sat_sub(attempted, 1), 1) as u32
    } else {
        max_int(sat_sub(attempted, max_int(attempted / 3, 1)), 2) as u32
    }
}

pub fn reduced_no_gain_lock_connections(attempted_connections: u32) -> (r: u32)
    ensures
        r == no_gain_lock_spec(attempted_connections as int),
{
    if attempted_connections <= 2 {
        return 1;
    }
    if attempted_connections <= 4 {
        return u32_max(u32_sat_sub(attempted_connections, 1), 1);
    }
    u32_max(u32_sat_sub(attempted_connections, u32_max(attempted_connections / 3, 1)), 2)
}

/// Seconds of a penalty cooldown: the base doubled per recorded throttle or timeout event
/// (at most five doublings) plus a jitter from the sample count, between the base and five minutes.
pub open spec fn penalty_seconds_spec(base_seconds: int, throttle_events: int, timeout_events: int, telemetry_samples: int) -> int {
    let event_count = sat_add_u32(throttle_events, timeout_events);
    let shift = sat_sub(min_int(event_count, 6), 1);
    let multiplier = crate::runtime_transfer::pow2(shift as nat);
    clamp_int(sat_add_i64(sat_mul_i64(base_seconds, multiplier), telemetry_samples % 7), base_seconds, MAX_COOLDOWN_SECONDS as int)
}

pub(crate) fn penalty_cooldown_seconds(base_seconds: i64, throttle_events: u32, timeout_events: u32, telemetry_samples: u32) -> (r: i64)
    requires
        1 <= base_seconds <= MAX_COOLDOWN_SECONDS,
    ensures
        r == penalty_seconds_spec(base_seconds as int, throttle_events as int, timeout_events as int, telemetry_samples as int),
        base_seconds <= r <= MAX_COOLDOWN_SECONDS,
{
    let event_count = u32_sat_add(throttle_events, timeout_events);
    let shift = u32_sat_sub(u32_min(event_count, 6), 1);
    let multiplier: i64 = if shift == 0 {
        1
    } else if shift == 1 {
        2
    } else if shift == 2 {
        4
    } else if shift == 3 {
        8
    } else if shift == 4 {
        16
    } else {
        32
    };
    proof {
        reveal_with_fuel(crate::runtime_transfer::pow2, 6);
        assert(multiplier == crate::runtime_transfer::pow2(shift as nat));
    }
    let jitter = (telemetry_samples % 7) as i64;
    let raw = i64_sat_add(i64_sat_mul(base_seconds, multiplier), jitter);
    if raw < base_seconds { base_seconds } else if raw > MAX_COOLDOWN_SECONDS { MAX_COOLDOWN_SECONDS } else { raw }
}

/// The warning shown for a host or request shape, if any: an active cooldown (with the
/// seconds left), an applied concurrency lock, earlier throttling, or a protocol downgrade,
/// in that order; worded for the request shape when it has a record of its own.
pub open spec fn warning_spec(profile: HostProfile, key: Option<Seq<char>>, now: i64) -> Option<Seq<char>> {
    let shaped = scope_of(profile, key) is Some;
    match cooldown_remaining_spec(cooldown_until_spec(profile, key), now) {
        Some(secs) => Some(if shaped {
            "This request shape is cooling down for about "@ + decimal_spec(secs as nat)
                + "s after throttling or unstable responses on the same replay context."@
        } else {
            "Host cooldown active for about "@ + decimal_spec(secs as nat) + "s due to throttling or network instability."@
        }),
        None => if lock_applies_spec(profile, key, now) {
            Some(if shaped {
                "This request shape is temporarily ramp-locked after repeated low-gain connection increases."@
            } else {
                "Host concurrency is temporarily locked due to low ramp-up gain."@
            })
        } else if throttle_events_spec(profile, key) > 0 {
            Some(if shaped {
                "This request shape previously throttled parallel requests; conservative concurrency is applied only to this replay context."@
            } else {
                "Host previously throttled parallel requests; conservative concurrency applied."@
            })
        } else if profile.protocol_downgrade_events > 0 {
            Some("Host recently downgraded protocol behavior; planner is using conservative socket limits."@)
        } else {
            None
        },
    }
}

pub open spec fn opt_warning_spec(profile: Option<HostProfile>, key: Option<Seq<char>>, now: i64) -> Option<Seq<char>> {
    match profile {
        Some(p) => warning_spec(p, key, now),
        None => None,
    }
}

fn text_with_seconds(prefix: &str, seconds: i64, suffix: &str) -> (r: String)
    requires
        seconds >= 0,
    ensures
        r@ == prefix@ + decimal_spec(seconds as nat) + suffix@,
{
    let mut s = String::from_str(prefix);
    push_decimal(&mut s, seconds as u64);
    s.append(suffix);
    s
}

/// The warning for a host or request shape as of time `now`.
pub fn profile_warning_at(profile: Option<&HostProfile>, scope_key: Option<&str>, now: i64) -> (r: Option<String>)
    ensures
        opt_text_of(r) == opt_warning_spec(opt_profile(profile), opt_key(scope_key), now),
{
    let p = match profile {
        Some(p) => p,
        None => { return None; },
    };
    let shaped = scope_index(p, scope_key).is_some();
    match cooldown_remaining_seconds(effective_cooldown_until(p, scope_key), now) {
        Some(secs) => {
            if shaped {
                return Some(text_with_seconds("This request shape is cooling down for about ", secs,
                    "s after throttling or unstable responses on the same replay context."));
            }
            return Some(text_with_seconds("Host cooldown active for about ", secs, "s due to throttling or network instability."));
        },
        None => {},
    }
    if should_apply_concurrency_lock_for_scope(p, scope_key, now) {
        if shaped {
            return Some(String::from_str("This request shape is temporarily ramp-locked after repeated low-gain connection increases."));
        }
        return Some(String::from_str("Host concurrency is temporarily locked due to low ramp-up gain."));
    }
    if effective_throttle_events(p, scope_key) > 0 {
        if shaped {
            return Some(String::from_str(
                "This request shape previously throttled parallel requests; conservative concurrency is applied only to this replay context."));
        }
        return Some(String::from_str("Host previously throttled parallel requests; conservative concurrency applied."));
    }
    if p.protocol_downgrade_events > 0 {
        return Some(String::from_str("Host recently downgraded protocol behavior; planner is using conservative socket limits."));
    }
    None
}

/// The warning for a host or request shape at the current time.
pub fn profile_warning_for_scope(profile: Option<&HostProfile>, scope_key: Option<&str>) -> (r: Option<String>)
    ensures
        exists|now: i64| opt_text_of(r) == opt_warning_spec(opt_profile(profile), opt_key(scope_key), now),
{
    let now = unix_epoch_millis();
    profile_warning_at(profile, scope_key, now)
}

pub open spec fn opt_text_of(value: Option<String>) -> Option<Seq<char>> {
    crate::model::opt_text(value)
}

/// Whether a host prefers reused connections (`Some(true)`), fresh ones (`Some(false)`), or
/// shows no clear preference or too few samples (`None`).
pub open spec fn reuse_preference_spec(profile: HostProfile) -> Option<bool> {
    let reused = profile.protocol_reuse_events as int;
    let fresh = profile.protocol_new_connection_events as int;
    if sat_add_u32(reused, fresh) < WARM_START_CONFIDENCE_SAMPLES {
        None
    } else if reused >= max_int(sat_mul_u32(fresh, 2), 1) {
        Some(true)
    } else if fresh >= max_int(sat_mul_u32(reused, 2), 1) {
        Some(false)
    } else {
        None
    }
}

pub fn host_reuse_preference(profile: &HostProfile) -> (r: Option<bool>)
    ensures
        r == reuse_preference_spec(*profile),
{
    let reused = profile.protocol_reuse_events;
    let fresh = profile.protocol_new_connection_events;
    if u32_sat_add(reused, fresh) < WARM_START_CONFIDENCE_SAMPLES {
        return None;
    }
    if reused >= u32_max(u32_sat_mul(fresh, 2), 1) {
        return Some(true);
    }
    if fresh >= u32_max(u32_sat_mul(reused, 2), 1) {
        return Some(false);
    }
    None
}

/// The lock reason a summary shows: none when no lock applies or the lock is for probe failures.
pub open spec fn shown_lock_reason(profile: HostProfile, key: Option<Seq<char>>, now: i64) -> Option<LockReason> {
    if !lock_applies_spec(profile, key, now) || is_probe_failure_reason(lock_reason_spec(profile, key)) {
        None
    } else {
        lock_reason_spec(profile, key)
    }
}

pub open spec fn normalized_opt_protocol(protocol: Option<String>) -> Option<Seq<char>> {
    match protocol {
        Some(p) => Some(normalized_protocol_spec(p@)),
        None => None,
    }
}

/// The summary of what is known of a host (and request shape) as of time `now`; all empty
/// when there is no profile.
pub fn host_diagnostics_summary_at(profile: Option<&HostProfile>, scope_key: Option<&str>, now: i64) -> (r: HostDiagnosticsSummary)
    ensures
        !r.hard_no_range,
        match profile {
            None => !r.concurrency_locked && r.lock_reason is None && r.cooldown_until is None
                && r.negotiated_protocol is None && r.reuse_connections is None,
            Some(p) => {
                &&& r.concurrency_locked == lock_applies_spec(*p, opt_key(scope_key), now)
                &&& r.lock_reason == shown_lock_reason(*p, opt_key(scope_key), now)
                &&& r.cooldown_until == cooldown_until_spec(*p, opt_key(scope_key))
                &&& opt_text_of(r.negotiated_protocol) == normalized_opt_protocol(p.negotiated_protocol)
                &&& r.reuse_connections == reuse_preference_spec(*p)
            },
        },
{
    let p = match profile {
        Some(p) => p,
        None => {
            return HostDiagnosticsSummary {
                hard_no_range: false,
                concurrency_locked: false,
                lock_reason: None,
                cooldown_until: None,
                negotiated_protocol: None,
                reuse_connections: None,
            };
        },
    };
    let concurrency_locked = should_apply_concurrency_lock_for_scope(p, scope_key, now);
    let reason = effective_lock_reason(p, scope_key);
    let is_probe = match &reason {
        Some(LockReason::ProbeFailures) => true,
        _ => false,
    };
    let lock_reason = if !concurrency_locked || is_probe { None } else { reason };
    let negotiated_protocol = match &p.negotiated_protocol {
        Some(label) => Some(normalize_protocol_label(label.as_str())),
        None => None,
    };
    HostDiagnosticsSummary {
        hard_no_range: false,
        concurrency_locked,
        lock_reason,
        cooldown_until: effective_cooldown_until(p, scope_key),
        negotiated_protocol,
        reuse_connections: host_reuse_preference(p),
    }
}

/// The summary of what is known of a host (and request shape) at the current time.
pub fn host_diagnostics_summary_for_scope(profile: Option<&HostProfile>, scope_key: Option<&str>) -> (r: HostDiagnosticsSummary)
    ensures
        !r.hard_no_range,
        match profile {
            None => !r.concurrency_locked && r.lock_reason is None && r.cooldown_until is None
                && r.negotiated_protocol is None && r.reuse_connections is None,
            Some(p) => exists|now: i64| {
                &&& r.concurrency_locked == lock_applies_spec(*p, opt_key(scope_key), now)
                &&& r.lock_reason == shown_lock_reason(*p, opt_key(scope_key), now)
                &&& r.cooldown_until == cooldown_until_spec(*p, opt_key(scope_key))
                &&& opt_text_of(r.negotiated_protocol) == normalized_opt_protocol(p.negotiated_protocol)
                &&& r.reuse_connections == reuse_preference_spec(*p)
            },
        },
{
    let now = unix_epoch_millis();
    host_diagnostics_summary_at(profile, scope_key, now)
}

/// A copy of a host summary.
pub fn copy_summary(h: &HostDiagnosticsSummary) -> (r: HostDiagnosticsSummary)
    ensures
        r == *h,
{
    HostDiagnosticsSummary {
        hard_no_range: h.hard_no_range,
        concurrency_locked: h.concurrency_locked,
        lock_reason: crate::scopes::copy_opt_reason(&h.lock_reason),
        cooldown_until: h.cooldown_until,
        negotiated_protocol: crate::scopes::copy_opt_string(&h.negotiated_protocol),
        reuse_connections: h.reuse_connections,
    }
}


/// The connection target is at least one and never above what was requested (at least
/// one), the host hard cap of the mode, the cap of the traffic mode, the host's own limit
/// (at least one) when it has one, and two once the host's protocol was downgraded.
pub proof fn lemma_connection_target_caps(requested: int, settings: EngineSettings, profile: Option<HostProfile>,
    key: Option<Seq<char>>, now: i64)
    ensures
        ({
            let r = connection_target_spec(requested, settings, profile, key, now);
            &&& 1 <= r
            &&& r <= max_int(requested, 1)
            &&& r <= (if settings.experimental_uncapped_mode { 64int } else { 20int })
            &&& (settings.traffic_mode == TrafficMode::Low ==> r <= 2)
            &&& (settings.traffic_mode == TrafficMode::Medium ==> r <= 4)
            &&& (settings.traffic_mode == TrafficMode::High ==> r <= 8)
            &&& match profile {
                Some(p) => {
                    &&& (match p.max_connections { Some(l) => r <= max_int(l as int, 1), None => true })
                    &&& (p.protocol_downgrade_events > 0 ==> r <= 2)
                },
                None => true,
            }
        }),
{
}

} // verus!
