//! How long learned probe capabilities of a request shape stay trusted, and how probes and
//! probe failures update them.

use vstd::prelude::*;
use crate::arith::{sat_sub_i64, i64_sat_sub, u32_sat_add};
use crate::host_planner::{is_probe_failure_reason, sat_add_u32};
use crate::host_telemetry::{bump, clear_host_lock};
use crate::model::{HostProfile, HostProfileView, LockReason, ProbeScopeCache, ProbeScopeEntry};
use crate::probe::{DownloadProbeData, RangeObservation};
use crate::scopes::{
    commit_scope, entries_view, find_scope, lemma_pair_pos_bounds, lemma_upsert_then_update, open_scope, scope_of,
    scope_or_empty, upsert_pairs,
};

verus! {

pub const PROBE_CAPABILITY_TTL_MS: i64 = 1_800_000;
pub const PROBE_CAPABILITY_STABLE_TTL_MS: i64 = 2_700_000;
pub const PROBE_CAPABILITY_UNSTABLE_TTL_MS: i64 = 360_000;
pub const PROBE_RESULT_REUSE_TTL_MS: i64 = 180_000;
pub const PROBE_SCOPE_FAILURE_TTL_MS: i64 = 600_000;
pub const PROBE_SCOPE_STABILITY_WINDOW_MS: i64 = 900_000;
pub const PROBE_FAILURE_LOCK_THRESHOLD: u32 = 3;
pub const PROBE_SCOPE_STABLE_TELEMETRY_SAMPLES: u32 = 4;
pub const MAX_SCOPE_CACHE_ENTRIES: usize = 24;
pub const MAX_RECENT_PROBE_ENTRIES: usize = 64;

/// What a fresh scope record says of a request shape's byte-range support and size.
#[derive(Clone, Copy, Debug, PartialEq, Eq, Structural)]
pub struct CachedProbeCapabilities {
    pub range_supported: Option<bool>,
    pub hard_no_range: bool,
    pub resumable: Option<bool>,
    pub content_length_hint: Option<u64>,
}

pub open spec fn within(now: i64, at: Option<i64>, window: i64) -> bool {
    match at {
        Some(t) => sat_sub_i64(now as int, t as int) <= window,
        None => false,
    }
}

fn within_window(now: i64, at: Option<i64>, window: i64) -> (r: bool)
    ensures
        r == within(now, at, window),
{
    match at {
        Some(t) => i64_sat_sub(now, t) <= window,
        None => false,
    }
}

/// A shape is unstable while cooling down, shortly after probe failures, or shortly after
/// any instability.
pub open spec fn recent_instability_spec(s: ProbeScopeCache, now: i64) -> bool {
    (match s.cooldown_until { Some(u) => u > now, None => false })
        || (s.probe_failure_streak > 0 && within(now, s.last_probe_error_at, PROBE_SCOPE_FAILURE_TTL_MS))
        || within(now, s.last_instability_at, PROBE_SCOPE_STABILITY_WINDOW_MS)
}

pub fn scope_recent_instability(s: &ProbeScopeCache, now: i64) -> (r: bool)
    ensures
        r == recent_instability_spec(*s, now),
{
    let cooling = match s.cooldown_until {
        Some(u) => u > now,
        None => false,
    };
    if cooling {
        return true;
    }
    if s.probe_failure_streak > 0 && within_window(now, s.last_probe_error_at, PROBE_SCOPE_FAILURE_TTL_MS) {
        return true;
    }
    within_window(now, s.last_instability_at, PROBE_SCOPE_STABILITY_WINDOW_MS)
}

/// A shape is stable when nothing was unstable lately, it has enough recent telemetry and a
/// probe, and something was learned of it.
pub open spec fn stable_scope_spec(s: ProbeScopeCache, now: i64) -> bool {
    !recent_instability_spec(s, now) && s.telemetry_samples >= PROBE_SCOPE_STABLE_TELEMETRY_SAMPLES
        && s.last_probe_at is Some && within(now, s.last_telemetry_at, PROBE_CAPABILITY_STABLE_TTL_MS)
        && (s.range_supported is Some || s.content_length_hint is Some)
}

pub fn scope_is_stable(s: &ProbeScopeCache, now: i64) -> (r: bool)
    ensures
        r == stable_scope_spec(*s, now),
{
    !scope_recent_instability(s, now) && s.telemetry_samples >= PROBE_SCOPE_STABLE_TELEMETRY_SAMPLES
        && s.last_probe_at.is_some() && within_window(now, s.last_telemetry_at, PROBE_CAPABILITY_STABLE_TTL_MS)
        && (s.range_supported.is_some() || s.content_length_hint.is_some())
}

/// How long a shape's capabilities are trusted: shorter when unstable, longer when stable.
pub open spec fn capability_ttl_spec(s: ProbeScopeCache, now: i64) -> i64 {
    if recent_instability_spec(s, now) {
        PROBE_CAPABILITY_UNSTABLE_TTL_MS
    } else if stable_scope_spec(s, now) {
        PROBE_CAPABILITY_STABLE_TTL_MS
    } else {
        PROBE_CAPABILITY_TTL_MS
    }
}

pub fn scope_capability_ttl_ms(s: &ProbeScopeCache, now: i64) -> (r: i64)
    ensures
        r == capability_ttl_spec(*s, now),
{
    if scope_recent_instability(s, now) {
        PROBE_CAPABILITY_UNSTABLE_TTL_MS
    } else if scope_is_stable(s, now) {
        PROBE_CAPABILITY_STABLE_TTL_MS
    } else {
        PROBE_CAPABILITY_TTL_MS
    }
}

pub open spec fn caps_of(s: ProbeScopeCache) -> CachedProbeCapabilities {
    CachedProbeCapabilities {
        range_supported: s.range_supported,
        hard_no_range: s.hard_no_range,
        resumable: s.resumable,
        content_length_hint: s.content_length_hint,
    }
}

/// A shape's capabilities while its last probe is within the trusted age.
pub open spec fn fresh_caps_spec(s: ProbeScopeCache, now: i64) -> Option<CachedProbeCapabilities> {
    match s.last_probe_at {
        None => None,
        Some(t) => if sat_sub_i64(now as int, t as int) > capability_ttl_spec(s, now) { None } else { Some(caps_of(s)) },
    }
}

pub fn fresh_scope_capabilities(s: &ProbeScopeCache, now: i64) -> (r: Option<CachedProbeCapabilities>)
    ensures
        r == fresh_caps_spec(*s, now),
{
    let last = match s.last_probe_at {
        Some(t) => t,
        None => { return None; },
    };
    if i64_sat_sub(now, last) > scope_capability_ttl_ms(s, now) {
        return None;
    }
    Some(CachedProbeCapabilities {
        range_supported: s.range_supported,
        hard_no_range: s.hard_no_range,
        resumable: s.resumable,
        content_length_hint: s.content_length_hint,
    })
}

/// The fresh capabilities a profile holds for a request shape.
pub open spec fn profile_caps_spec(profile: HostProfile, key: Seq<char>, now: i64) -> Option<CachedProbeCapabilities> {
    match scope_of(profile, Some(key)) {
        Some(s) => fresh_caps_spec(s, now),
        None => None,
    }
}

pub fn fresh_probe_capabilities(profile: &HostProfile, scope_key: &str, now: i64) -> (r: Option<CachedProbeCapabilities>)
    ensures
        r == profile_caps_spec(*profile, scope_key@, now),
{
    match find_scope(&profile.probe_scopes, scope_key) {
        Some(i) => fresh_scope_capabilities(&profile.probe_scopes[i].scope, now),
        None => None,
    }
}

/// Whether a recorded shape's last probe is older than its trusted age.
pub open spec fn cache_stale_spec(profile: HostProfile, key: Seq<char>, now: i64) -> bool {
    match scope_of(profile, Some(key)) {
        Some(s) => match s.last_probe_at {
            Some(t) => sat_sub_i64(now as int, t as int) > capability_ttl_spec(s, now),
            None => false,
        },
        None => false,
    }
}

pub fn probe_cache_stale(profile: &HostProfile, scope_key: &str, now: i64) -> (r: bool)
    ensures
        r == cache_stale_spec(*profile, scope_key@, now),
{
    match find_scope(&profile.probe_scopes, scope_key) {
        Some(i) => {
            let s = &profile.probe_scopes[i].scope;
            match s.last_probe_at {
                Some(t) => i64_sat_sub(now, t) > scope_capability_ttl_ms(s, now),
                None => false,
            }
        },
        None => false,
    }
}

/// Repeated probe failures on a shape count while the last one is recent.
pub open spec fn probe_failure_active_spec(s: ProbeScopeCache, now: i64) -> bool {
    s.probe_failure_streak >= PROBE_FAILURE_LOCK_THRESHOLD && within(now, s.last_probe_error_at, PROBE_SCOPE_FAILURE_TTL_MS)
}

pub fn scoped_probe_failure_active(s: &ProbeScopeCache, now: i64) -> (r: bool)
    ensures
        r == probe_failure_active_spec(*s, now),
{
    s.probe_failure_streak >= PROBE_FAILURE_LOCK_THRESHOLD && within_window(now, s.last_probe_error_at, PROBE_SCOPE_FAILURE_TTL_MS)
}

/// Whether fresh capabilities of a shape say the host refuses byte ranges.
pub open spec fn hard_no_range_spec(profile: Option<HostProfile>, key: Seq<char>, now: i64) -> bool {
    match profile {
        Some(p) => match profile_caps_spec(p, key, now) {
            Some(c) => c.hard_no_range && c.range_supported == Some(false),
            None => false,
        },
        None => false,
    }
}

pub fn scoped_hard_no_range(profile: Option<&HostProfile>, scope_key: &str, now: i64) -> (r: bool)
    ensures
        r == hard_no_range_spec(crate::host_planner::opt_profile(profile), scope_key@, now),
{
    match profile {
        Some(p) => match fresh_probe_capabilities(p, scope_key, now) {
            Some(c) => c.hard_no_range && c.range_supported == Some(false),
            None => false,
        },
        None => false,
    }
}

/// The active probe-failure streak of a shape, 0 when none is active.
pub open spec fn scoped_failures_spec(profile: Option<HostProfile>, key: Seq<char>, now: i64) -> u32 {
    match profile {
        Some(p) => match scope_of(p, Some(key)) {
            Some(s) => if probe_failure_active_spec(s, now) { s.probe_failure_streak } else { 0 },
            None => 0,
        },
        None => 0,
    }
}

pub fn scoped_probe_failures(profile: Option<&HostProfile>, scope_key: &str, now: i64) -> (r: u32)
    ensures
        r == scoped_failures_spec(crate::host_planner::opt_profile(profile), scope_key@, now),
{
    let p = match profile {
        Some(p) => p,
        None => { return 0; },
    };
    match find_scope(&p.probe_scopes, scope_key) {
        Some(i) => {
            let s = &p.probe_scopes[i].scope;
            if scoped_probe_failure_active(s, now) { s.probe_failure_streak } else { 0 }
        },
        None => 0,
    }
}

/// The newest of a shape's probe and probe-error times (`i64::MIN` when it has neither).
pub open spec fn freshness(s: ProbeScopeCache) -> i64 {
    let a = match s.last_probe_at { Some(t) => t, None => i64::MIN };
    let b = match s.last_probe_error_at { Some(t) => t, None => i64::MIN };
    if a >= b { a } else { b }
}

fn scope_freshness(s: &ProbeScopeCache) -> (r: i64)
    ensures
        r == freshness(*s),
{
    let a = match s.last_probe_at { Some(t) => t, None => i64::MIN };
    let b = match s.last_probe_error_at { Some(t) => t, None => i64::MIN };
    if a >= b { a } else { b }
}

/// A shape record is kept while its newest probe or error is within its retention.
pub open spec fn retained_spec(s: ProbeScopeCache, now: i64) -> bool {
    let f = freshness(s);
    let ttl = if capability_ttl_spec(s, now) >= PROBE_SCOPE_FAILURE_TTL_MS { capability_ttl_spec(s, now) } else { PROBE_SCOPE_FAILURE_TTL_MS };
    f != i64::MIN && sat_sub_i64(now as int, f as int) <= ttl
}

fn scope_retained(s: &ProbeScopeCache, now: i64) -> (r: bool)
    ensures
        r == retained_spec(*s, now),
{
    let f = scope_freshness(s);
    let ttl = scope_capability_ttl_ms(s, now);
    let retention = if ttl >= PROBE_SCOPE_FAILURE_TTL_MS { ttl } else { PROBE_SCOPE_FAILURE_TTL_MS };
    f != i64::MIN && i64_sat_sub(now, f) <= retention
}

/// The pairs whose records are retained, in order.
pub open spec fn retain_pairs(p: Seq<(Seq<char>, ProbeScopeCache)>, now: i64) -> Seq<(Seq<char>, ProbeScopeCache)>
    decreases p.len(),
{
    if p.len() == 0 {
        p
    } else {
        let r = retain_pairs(p.drop_last(), now);
        if retained_spec(p.last().1, now) { r.push(p.last()) } else { r }
    }
}

/// Index of the first pair with the oldest record among `p[..n]`.
pub open spec fn oldest_index(p: Seq<(Seq<char>, ProbeScopeCache)>, n: int) -> int
    decreases n,
{
    if n <= 1 {
        0
    } else {
        let j = oldest_index(p, n - 1);
        if freshness(p[n - 1].1) < freshness(p[j].1) { n - 1 } else { j }
    }
}

pub proof fn lemma_oldest_index_bounds(p: Seq<(Seq<char>, ProbeScopeCache)>, n: int)
    requires
        1 <= n <= p.len(),
    ensures
        0 <= oldest_index(p, n) < n,
        forall|k: int| 0 <= k < n ==> freshness(p[oldest_index(p, n)].1) <= freshness(#[trigger] p[k].1),
    decreases n,
{
    if n > 1 {
        lemma_oldest_index_bounds(p, n - 1);
    }
}

/// `p` without its `k` oldest records, removed one at a time.
pub open spec fn drop_oldest(p: Seq<(Seq<char>, ProbeScopeCache)>, k: nat) -> Seq<(Seq<char>, ProbeScopeCache)>
    decreases k,
{
    if k == 0 || p.len() == 0 {
        p
    } else {
        drop_oldest(p.remove(oldest_index(p, p.len() as int)), (k - 1) as nat)
    }
}

/// The shape records kept: the retained ones, then only the newest ones up to the cap.
pub open spec fn prune_pairs(p: Seq<(Seq<char>, ProbeScopeCache)>, now: i64) -> Seq<(Seq<char>, ProbeScopeCache)> {
    let r = retain_pairs(p, now);
    if r.len() <= MAX_SCOPE_CACHE_ENTRIES { r } else { drop_oldest(r, (r.len() - MAX_SCOPE_CACHE_ENTRIES) as nat) }
}

fn oldest_entry(entries: &Vec<ProbeScopeEntry>) -> (r: usize)
    requires
        entries@.len() > 0,
    ensures
        r == oldest_index(entries_view(entries@), entries@.len() as int),
        r < entries@.len(),
{
    let ghost v = entries_view(entries@);
    let mut best: usize = 0;
    let mut j: usize = 1;
    while j < entries.len()
        invariant
            1 <= j <= entries@.len(),
            v == entries_view(entries@),
            best == oldest_index(v, j as int),
            best < j,
        decreases entries@.len() - j,
    {
        assert(v[j as int].1 == entries@[j as int].scope);
        assert(v[best as int].1 == entries@[best as int].scope);
        if scope_freshness(&entries[j].scope) < scope_freshness(&entries[best].scope) {
            best = j;
        }
        j = j + 1;
    }
    best
}

fn copy_entry(e: &ProbeScopeEntry) -> (r: ProbeScopeEntry)
    ensures
        r == *e,
{
    ProbeScopeEntry { key: e.key.clone(), scope: crate::scopes::copy_scope(&e.scope) }
}

/// Drops expired shape records, then the oldest ones beyond the cap.
pub fn prune_scope_cache(profile: &mut HostProfile, now: i64)
    ensures
        final(profile)@ == (HostProfileView { probe_scopes: prune_pairs(old(profile)@.probe_scopes, now), ..old(profile)@ }),
{
    let ghost all = profile.probe_scopes@;
    let mut kept: Vec<ProbeScopeEntry> = Vec::new();
    let mut i: usize = 0;
    while i < profile.probe_scopes.len()
        invariant
            i <= all.len(),
            all == profile.probe_scopes@,
            entries_view(kept@) == retain_pairs(entries_view(all.take(i as int)), now),
        decreases all.len() - i,
    {
        assert(entries_view(all.take(i + 1)).drop_last() =~= entries_view(all.take(i as int)));
        assert(entries_view(all.take(i + 1)).last() == (all[i as int].key@, all[i as int].scope));
        if scope_retained(&profile.probe_scopes[i].scope, now) {
            let e = copy_entry(&profile.probe_scopes[i]);
            let ghost before = kept@;
            kept.push(e);
            assert(entries_view(kept@) =~= entries_view(before).push((e.key@, e.scope)));
        }
        i = i + 1;
    }
    assert(all.take(all.len() as int) =~= all);
    let ghost target = prune_pairs(entries_view(all), now);
    assert(entries_view(kept@) == retain_pairs(entries_view(all), now));
    while kept.len() > MAX_SCOPE_CACHE_ENTRIES
        invariant
            target == (if entries_view(kept@).len() <= MAX_SCOPE_CACHE_ENTRIES {
                entries_view(kept@)
            } else {
                drop_oldest(entries_view(kept@), (entries_view(kept@).len() - MAX_SCOPE_CACHE_ENTRIES) as nat)
            }),
        decreases kept@.len(),
    {
        let ghost before = entries_view(kept@);
        let idx = oldest_entry(&kept);
        kept.remove(idx);
        assert(entries_view(kept@) =~= before.remove(idx as int));
        proof {
            let k = (before.len() - MAX_SCOPE_CACHE_ENTRIES) as nat;
            assert(drop_oldest(before, k) == drop_oldest(before.remove(oldest_index(before, before.len() as int)), (k - 1) as nat));
            if entries_view(kept@).len() <= MAX_SCOPE_CACHE_ENTRIES {
                assert(k - 1 == 0);
            }
        }
    }
    let ghost old_view = profile@;
    profile.probe_scopes = kept;
    assert(old_view.probe_scopes == entries_view(all));
}

pub open spec fn or_u64(a: Option<u64>, b: Option<u64>) -> Option<u64> {
    if a is Some { a } else { b }
}

/// A successful probe recorded on a shape: what it showed of range support, the size
/// hint, and a reset failure streak.
pub open spec fn probe_scope_update(s: ProbeScopeCache, probe: DownloadProbeData, now: i64) -> ProbeScopeCache {
    let s1 = match probe.range_observation {
        RangeObservation::Supported => ProbeScopeCache {
            range_supported: Some(true),
            resumable: Some(probe.resumable),
            hard_no_range: false,
            ..s
        },
        RangeObservation::Unsupported => ProbeScopeCache {
            range_supported: Some(false),
            resumable: Some(false),
            hard_no_range: true,
            ..s
        },
        RangeObservation::Unknown => s,
    };
    ProbeScopeCache {
        content_length_hint: or_u64(probe.size, s1.content_length_hint),
        last_probe_at: Some(now),
        probe_failure_streak: 0,
        last_probe_error_at: None,
        ..s1
    }
}

/// A successful probe recorded on a host profile and on the probed shape; it also lifts a
/// lock set for probe failures.
pub open spec fn probe_profile_update(v: HostProfileView, key: Seq<char>, probe: DownloadProbeData, now: i64) -> HostProfileView {
    let p0 = prune_pairs(v.probe_scopes, now);
    let v1 = HostProfileView {
        probe_scopes: upsert_pairs(p0, key, probe_scope_update(scope_or_empty(p0, key), probe, now)),
        content_length_hint: or_u64(probe.size, v.content_length_hint),
        last_probe_at: Some(now),
        probe_failure_streak: 0,
        last_probe_error_at: None,
        ..v
    };
    let v2 = match probe.negotiated_protocol {
        Some(p) => if p@.len() > 0 { HostProfileView { negotiated_protocol: Some(p@), ..v1 } } else { v1 },
        None => v1,
    };
    if is_probe_failure_reason(v2.lock_reason) { clear_host_lock(v2) } else { v2 }
}

pub fn update_profile_probe_cache(profile: &mut HostProfile, scope_key: &str, probe: &DownloadProbeData, now: i64)
    ensures
        final(profile)@ == probe_profile_update(old(profile)@, scope_key@, *probe, now),
{
    prune_scope_cache(profile, now);
    let ghost pruned = profile@.probe_scopes;
    let (i, mut scope) = open_scope(profile, scope_key);
    proof { lemma_pair_pos_bounds(profile@.probe_scopes, scope_key@, 0); }
    match probe.range_observation {
        RangeObservation::Supported => {
            scope.range_supported = Some(true);
            scope.resumable = Some(probe.resumable);
            scope.hard_no_range = false;
        },
        RangeObservation::Unsupported => {
            scope.range_supported = Some(false);
            scope.resumable = Some(false);
            scope.hard_no_range = true;
        },
        RangeObservation::Unknown => {},
    }
    scope.content_length_hint = match probe.size { Some(v) => Some(v), None => scope.content_length_hint };
    scope.last_probe_at = Some(now);
    scope.probe_failure_streak = 0;
    scope.last_probe_error_at = None;
    let ghost new_scope = scope;
    commit_scope(profile, i, scope);
    proof { lemma_upsert_then_update(pruned, scope_key@, scope_or_empty(pruned, scope_key@), i as int, new_scope); }
    profile.content_length_hint = match probe.size { Some(v) => Some(v), None => profile.content_length_hint };
    profile.last_probe_at = Some(now);
    profile.probe_failure_streak = 0;
    profile.last_probe_error_at = None;
    match &probe.negotiated_protocol {
        Some(p) => {
            if !p.as_str().is_empty() {
                profile.negotiated_protocol = Some(p.clone());
            }
        },
        None => {},
    }
    let is_probe_lock = match &profile.lock_reason {
        Some(LockReason::ProbeFailures) => true,
        _ => false,
    };
    if is_probe_lock {
        profile.concurrency_locked = false;
        profile.locked_connections = None;
        profile.lock_reason = None;
    }
}

/// A failed probe counted on the probed shape and on the host.
pub open spec fn probe_failure_update(v: HostProfileView, key: Seq<char>, now: i64) -> HostProfileView {
    let p0 = prune_pairs(v.probe_scopes, now);
    let s = scope_or_empty(p0, key);
    let s1 = ProbeScopeCache {
        probe_failure_streak: bump(s.probe_failure_streak),
        last_probe_error_at: Some(now),
        last_instability_at: Some(now),
        ..s
    };
    HostProfileView {
        probe_scopes: upsert_pairs(p0, key, s1),
        probe_failure_streak: bump(v.probe_failure_streak),
        last_probe_error_at: Some(now),
        ..v
    }
}

pub fn record_probe_failure(profile: &mut HostProfile, scope_key: &str, now: i64)
    ensures
        final(profile)@ == probe_failure_update(old(profile)@, scope_key@, now),
{
    prune_scope_cache(profile, now);
    let ghost pruned = profile@.probe_scopes;
    let (i, mut scope) = open_scope(profile, scope_key);
    proof { lemma_pair_pos_bounds(profile@.probe_scopes, scope_key@, 0); }
    scope.probe_failure_streak = u32_sat_add(scope.probe_failure_streak, 1);
    scope.last_probe_error_at = Some(now);
    scope.last_instability_at = Some(now);
    let ghost new_scope = scope;
    commit_scope(profile, i, scope);
    proof { lemma_upsert_then_update(pruned, scope_key@, scope_or_empty(pruned, scope_key@), i as int, new_scope); }
    profile.probe_failure_streak = u32_sat_add(profile.probe_failure_streak, 1);
    profile.last_probe_error_at = Some(now);
}

/// A range validation failure on a shape: it is marked as refusing byte ranges.
pub open spec fn range_failure_update(v: HostProfileView, key: Seq<char>, hint: Option<u64>, now: i64) -> HostProfileView {
    let p0 = prune_pairs(v.probe_scopes, now);
    let s = scope_or_empty(p0, key);
    let s1 = ProbeScopeCache {
        range_supported: Some(false),
        resumable: Some(false),
        hard_no_range: true,
        content_length_hint: or_u64(hint, s.content_length_hint),
        last_probe_at: Some(now),
        probe_failure_streak: 0,
        last_probe_error_at: None,
        last_instability_at: Some(now),
        ..s
    };
    HostProfileView { probe_scopes: upsert_pairs(p0, key, s1), ..v }
}

pub fn apply_scope_range_validation_failure(profile: &mut HostProfile, scope_key: &str, content_length_hint: Option<u64>, now: i64)
    ensures
        final(profile)@ == range_failure_update(old(profile)@, scope_key@, content_length_hint, now),
{
    prune_scope_cache(profile, now);
    let ghost pruned = profile@.probe_scopes;
    let (i, mut scope) = open_scope(profile, scope_key);
    proof { lemma_pair_pos_bounds(profile@.probe_scopes, scope_key@, 0); }
    scope.range_supported = Some(false);
    scope.resumable = Some(false);
    scope.hard_no_range = true;
    scope.content_length_hint = match content_length_hint { Some(v) => Some(v), None => scope.content_length_hint };
    scope.last_probe_at = Some(now);
    scope.probe_failure_streak = 0;
    scope.last_probe_error_at = None;
    scope.last_instability_at = Some(now);
    let ghost new_scope = scope;
    commit_scope(profile, i, scope);
    proof { lemma_upsert_then_update(pruned, scope_key@, scope_or_empty(pruned, scope_key@), i as int, new_scope); }
}

pub open spec fn stale_warning(unstable: bool) -> Seq<char> {
    if unstable {
        "Saved capabilities for this request shape expired early after recent instability; waiting for a fresh probe."@
    } else {
        "Saved capabilities for this request shape expired; waiting for a fresh probe."@
    }
}

pub open spec fn failures_warning() -> Seq<char> {
    "Repeated probe failures were seen on this exact request shape; VDM is planning it conservatively until a fresh probe succeeds."@
}

pub open spec fn no_range_warning() -> Seq<char> {
    "Saved capability learning for this exact request shape shows the host rejected byte-range requests; segmented mode will stay disabled until a fresh probe proves otherwise."@
}

/// The warnings about a shape's saved capabilities: expired (early when unstable), repeated
/// probe failures, and byte ranges refused.
pub open spec fn cache_warnings_spec(profile: Option<HostProfile>, key: Seq<char>, cached: Option<CachedProbeCapabilities>, now: i64) -> Seq<Seq<char>> {
    match profile {
        None => Seq::empty(),
        Some(p) => {
            let scope = scope_of(p, Some(key));
            let w1: Seq<Seq<char>> = if cached is None && cache_stale_spec(p, key, now) {
                seq![stale_warning(match scope { Some(s) => recent_instability_spec(s, now), None => false })]
            } else {
                Seq::empty()
            };
            let w2 = match scope {
                Some(s) => if probe_failure_active_spec(s, now) { w1.push(failures_warning()) } else { w1 },
                None => w1,
            };
            match cached {
                Some(c) => if c.hard_no_range && c.range_supported == Some(false) { w2.push(no_range_warning()) } else { w2 },
                None => w2,
            }
        },
    }
}

pub open spec fn texts(v: Vec<String>) -> Seq<Seq<char>> {
    v@.map_values(|s: String| s@)
}

fn push_warning(warnings: &mut Vec<String>, text: String)
    ensures
        texts(*final(warnings)) == texts(*old(warnings)).push(text@),
{
    warnings.push(text);
    assert(texts(*final(warnings)) =~= texts(*old(warnings)).push(text@));
}

pub fn append_probe_cache_warning(
    warnings: &mut Vec<String>,
    profile: Option<&HostProfile>,
    scope_key: &str,
    cached_probe: Option<&CachedProbeCapabilities>,
    now: i64,
)
    ensures
        texts(*final(warnings)) == texts(*old(warnings)) + cache_warnings_spec(
            crate::host_planner::opt_profile(profile), scope_key@,
            match cached_probe { Some(c) => Some(*c), None => None }, now),
{
    let p = match profile {
        Some(p) => p,
        None => {
            assert(texts(*warnings) =~= texts(*warnings) + Seq::<Seq<char>>::empty());
            return;
        },
    };
    let ghost start = texts(*warnings);
    let idx = find_scope(&p.probe_scopes, scope_key);
    if cached_probe.is_none() && probe_cache_stale(p, scope_key, now) {
        let unstable = match idx {
            Some(i) => scope_recent_instability(&p.probe_scopes[i].scope, now),
            None => false,
        };
        if unstable {
            push_warning(warnings, String::from_str(
                "Saved capabilities for this request shape expired early after recent instability; waiting for a fresh probe."));
        } else {
            push_warning(warnings, String::from_str("Saved capabilities for this request shape expired; waiting for a fresh probe."));
        }
    }
    match idx {
        Some(i) => {
            if scoped_probe_failure_active(&p.probe_scopes[i].scope, now) {
                push_warning(warnings, String::from_str(
                    "Repeated probe failures were seen on this exact request shape; VDM is planning it conservatively until a fresh probe succeeds."));
            }
        },
        None => {},
    }
    match cached_probe {
        Some(c) => {
            if c.hard_no_range && c.range_supported == Some(false) {
                push_warning(warnings, String::from_str(
                    "Saved capability learning for this exact request shape shows the host rejected byte-range requests; segmented mode will stay disabled until a fresh probe proves otherwise."));
            }
        },
        None => {},
    }
    assert(texts(*warnings) =~= start + cache_warnings_spec(Some(*p), scope_key@, match cached_probe { Some(c) => Some(*c), None => None }, now));
}

} // verus!
