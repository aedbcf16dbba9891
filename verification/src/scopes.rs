//! Lookup and update of the per-request-shape records of a host profile.

use vstd::prelude::*;
use crate::model::{empty_scope, HostProfile, HostProfileView, LockReason, ProbeScopeCache, ProbeScopeEntry};
use crate::text::str_equal;

verus! {

/// Index of the first entry at or after `i` whose key is `key`.
pub open spec fn scope_pos_from(entries: Seq<ProbeScopeEntry>, key: Seq<char>, i: int) -> Option<int>
    decreases entries.len() - i,
{
    if i < 0 || i >= entries.len() {
        None
    } else if entries[i].key@ == key {
        Some(i)
    } else {
        scope_pos_from(entries, key, i + 1)
    }
}

/// Index of the entry for `key`.
pub open spec fn scope_pos(entries: Seq<ProbeScopeEntry>, key: Seq<char>) -> Option<int> {
    scope_pos_from(entries, key, 0)
}

pub proof fn lemma_scope_pos_from_bounds(entries: Seq<ProbeScopeEntry>, key: Seq<char>, i: int)
    ensures
        scope_pos_from(entries, key, i) matches Some(j) ==> i <= j < entries.len() && entries[j].key@ == key,
        scope_pos_from(entries, key, i) is None && 0 <= i ==> forall|j: int| i <= j < entries.len() ==> entries[j].key@ != key,
    decreases entries.len() - i,
{
    if 0 <= i < entries.len() && entries[i].key@ != key {
        lemma_scope_pos_from_bounds(entries, key, i + 1);
    }
}

/// The key a caller passed, as text.
pub open spec fn opt_key(key: Option<&str>) -> Option<Seq<char>> {
    match key {
        Some(k) => Some(k@),
        None => None,
    }
}

/// What the profile recorded for a request shape, if a key is given and recorded.
pub open spec fn scope_of(profile: HostProfile, key: Option<Seq<char>>) -> Option<ProbeScopeCache> {
    match key {
        None => None,
        Some(k) => match scope_pos(profile.probe_scopes@, k) {
            Some(i) => Some(profile.probe_scopes@[i].scope),
            None => None,
        },
    }
}

/// The entries as (key, record) pairs.
pub open spec fn entries_view(entries: Seq<ProbeScopeEntry>) -> Seq<(Seq<char>, ProbeScopeCache)> {
    entries.map_values(|e: ProbeScopeEntry| (e.key@, e.scope))
}

/// Index of the first pair at or after `i` whose key is `key`.
pub open spec fn pair_pos_from(pairs: Seq<(Seq<char>, ProbeScopeCache)>, key: Seq<char>, i: int) -> Option<int>
    decreases pairs.len() - i,
{
    if i < 0 || i >= pairs.len() {
        None
    } else if pairs[i].0 == key {
        Some(i)
    } else {
        pair_pos_from(pairs, key, i + 1)
    }
}

/// The record a list of (key, record) pairs holds for `key`.
pub open spec fn pair_lookup(pairs: Seq<(Seq<char>, ProbeScopeCache)>, key: Seq<char>) -> Option<ProbeScopeCache> {
    match pair_pos_from(pairs, key, 0) {
        Some(i) => Some(pairs[i].1),
        None => None,
    }
}

/// The pairs after recording `scope` for `key`: the pair for the key is replaced in place,
/// or a new pair is appended.
pub open spec fn upsert_pairs(pairs: Seq<(Seq<char>, ProbeScopeCache)>, key: Seq<char>, scope: ProbeScopeCache) -> Seq<(Seq<char>, ProbeScopeCache)> {
    match pair_pos_from(pairs, key, 0) {
        Some(i) => pairs.update(i, (key, scope)),
        None => pairs.push((key, scope)),
    }
}

/// Positions in the entries and in their pairs agree.
pub proof fn lemma_pair_pos_matches(entries: Seq<ProbeScopeEntry>, key: Seq<char>, i: int)
    ensures
        pair_pos_from(entries_view(entries), key, i) == scope_pos_from(entries, key, i),
    decreases entries.len() - i,
{
    if 0 <= i < entries.len() {
        lemma_pair_pos_matches(entries, key, i + 1);
    }
}

/// The entries after recording `scope` for `key`: the existing entry is replaced, or a new
/// one is appended.
pub open spec fn upsert_view(entries: Seq<ProbeScopeEntry>, key: Seq<char>, scope: ProbeScopeCache) -> Seq<(Seq<char>, ProbeScopeCache)> {
    match scope_pos(entries, key) {
        Some(i) => entries_view(entries).update(i, (key, scope)),
        None => entries_view(entries).push((key, scope)),
    }
}

pub fn find_scope(entries: &Vec<ProbeScopeEntry>, key: &str) -> (r: Option<usize>)
    ensures
        match r {
            Some(i) => scope_pos(entries@, key@) == Some(i as int) && i < entries@.len(),
            None => scope_pos(entries@, key@) is None,
        },
{
    let mut i: usize = 0;
    while i < entries.len()
        invariant
            i <= entries@.len(),
            scope_pos(entries@, key@) == scope_pos_from(entries@, key@, i as int),
        decreases entries@.len() - i,
    {
        if str_equal(entries[i].key.as_str(), key) {
            return Some(i);
        }
        i = i + 1;
    }
    None
}

/// Index of the record for an optional key.
pub fn scope_index(profile: &HostProfile, scope_key: Option<&str>) -> (r: Option<usize>)
    ensures
        match r {
            Some(i) => i < profile.probe_scopes@.len() && scope_of(*profile, opt_key(scope_key)) == Some(profile.probe_scopes@[i as int].scope),
            None => scope_of(*profile, opt_key(scope_key)) is None,
        },
{
    match scope_key {
        None => None,
        Some(k) => find_scope(&profile.probe_scopes, k),
    }
}

/// A copy of a lock reason.
pub fn copy_reason(reason: &LockReason) -> (r: LockReason)
    ensures
        r == *reason,
{
    match reason {
        LockReason::ProbeFailures => LockReason::ProbeFailures,
        LockReason::CooldownActive => LockReason::CooldownActive,
        LockReason::RampNoGain => LockReason::RampNoGain,
        LockReason::Other(s) => LockReason::Other(s.clone()),
    }
}

pub fn copy_opt_reason(reason: &Option<LockReason>) -> (r: Option<LockReason>)
    ensures
        r == *reason,
{
    match reason {
        Some(x) => Some(copy_reason(x)),
        None => None,
    }
}

pub fn copy_opt_string(value: &Option<String>) -> (r: Option<String>)
    ensures
        r == *value,
{
    match value {
        Some(s) => Some(s.clone()),
        None => None,
    }
}

/// A copy of a scope record.
pub fn copy_scope(s: &ProbeScopeCache) -> (r: ProbeScopeCache)
    ensures
        r == *s,
{
    ProbeScopeCache {
        range_supported: s.range_supported,
        resumable: s.resumable,
        hard_no_range: s.hard_no_range,
        content_length_hint: s.content_length_hint,
        last_probe_at: s.last_probe_at,
        probe_failure_streak: s.probe_failure_streak,
        last_probe_error_at: s.last_probe_error_at,
        last_instability_at: s.last_instability_at,
        cooldown_until: s.cooldown_until,
        telemetry_samples: s.telemetry_samples,
        last_telemetry_at: s.last_telemetry_at,
        average_ttfb_ms: s.average_ttfb_ms,
        average_throughput_bytes_per_second: s.average_throughput_bytes_per_second,
        concurrency_locked: s.concurrency_locked,
        locked_connections: s.locked_connections,
        lock_reason: copy_opt_reason(&s.lock_reason),
        throttle_events: s.throttle_events,
        timeout_events: s.timeout_events,
        reset_events: s.reset_events,
        ramp_attempts_without_gain: s.ramp_attempts_without_gain,
    }
}

/// Index of the record for `key`, appending a blank record first when there is none
/// (what `entry(key).or_default()` does on a map).
pub fn scope_entry_index(entries: &mut Vec<ProbeScopeEntry>, key: &str) -> (i: usize)
    ensures
        i < final(entries)@.len(),
        final(entries)@[i as int].key@ == key@,
        scope_pos(final(entries)@, key@) == Some(i as int),
        match scope_pos(old(entries)@, key@) {
            Some(j) => j == i && final(entries)@ == old(entries)@,
            None => i == old(entries)@.len() && final(entries)@ == old(entries)@.push(final(entries)@[i as int])
                && final(entries)@[i as int].scope == crate::model::empty_scope(),
        },
{
    match find_scope(entries, key) {
        Some(j) => {
            proof { lemma_scope_pos_from_bounds(entries@, key@, 0); }
            j
        },
        None => {
            let ghost before = entries@;
            let owned: String = key.to_owned();
            entries.push(ProbeScopeEntry { key: owned, scope: ProbeScopeCache::default() });
            let i = entries.len() - 1;
            proof {
                lemma_scope_pos_from_bounds(before, key@, 0);
                lemma_scope_pos_after_push(before, entries@[i as int], key@);
            }
            i
        },
    }
}

pub proof fn lemma_scope_pos_after_push(entries: Seq<ProbeScopeEntry>, e: ProbeScopeEntry, key: Seq<char>)
    requires
        scope_pos(entries, key) is None,
        e.key@ == key,
    ensures
        scope_pos(entries.push(e), key) == Some(entries.len() as int),
{
    lemma_scope_pos_from_bounds(entries, key, 0);
    assert forall|i: int| 0 <= i <= entries.len() implies scope_pos_from(entries.push(e), key, i) == Some(entries.len() as int) by {
        lemma_push_pos(entries, e, key, i);
    }
}

proof fn lemma_push_pos(entries: Seq<ProbeScopeEntry>, e: ProbeScopeEntry, key: Seq<char>, i: int)
    requires
        0 <= i <= entries.len(),
        forall|j: int| 0 <= j < entries.len() ==> entries[j].key@ != key,
        e.key@ == key,
    ensures
        scope_pos_from(entries.push(e), key, i) == Some(entries.len() as int),
    decreases entries.len() - i,
{
    if i < entries.len() {
        lemma_push_pos(entries, e, key, i + 1);
    }
}

/// Changing a record's content keeps every key where it is.
pub proof fn lemma_scope_pos_update(entries: Seq<ProbeScopeEntry>, idx: int, e: ProbeScopeEntry, key: Seq<char>, i: int)
    requires
        0 <= idx < entries.len(),
        e.key@ == entries[idx].key@,
    ensures
        scope_pos_from(entries.update(idx, e), key, i) == scope_pos_from(entries, key, i),
    decreases entries.len() - i,
{
    if 0 <= i < entries.len() {
        lemma_scope_pos_update(entries, idx, e, key, i + 1);
    }
}

/// The record a shape has, or a blank one.
pub open spec fn scope_or_empty(pairs: Seq<(Seq<char>, ProbeScopeCache)>, key: Seq<char>) -> ProbeScopeCache {
    match pair_lookup(pairs, key) {
        Some(s) => s,
        None => empty_scope(),
    }
}

pub proof fn lemma_pair_pos_bounds(pairs: Seq<(Seq<char>, ProbeScopeCache)>, key: Seq<char>, i: int)
    ensures
        pair_pos_from(pairs, key, i) matches Some(j) ==> i <= j < pairs.len() && pairs[j].0 == key,
        pair_pos_from(pairs, key, i) is None && 0 <= i ==> forall|j: int| i <= j < pairs.len() ==> pairs[j].0 != key,
    decreases pairs.len() - i,
{
    if 0 <= i < pairs.len() && pairs[i].0 != key {
        lemma_pair_pos_bounds(pairs, key, i + 1);
    }
}

proof fn lemma_pair_pos_update(pairs: Seq<(Seq<char>, ProbeScopeCache)>, idx: int, e: (Seq<char>, ProbeScopeCache), key: Seq<char>, i: int)
    requires
        0 <= idx < pairs.len(),
        e.0 == pairs[idx].0,
    ensures
        pair_pos_from(pairs.update(idx, e), key, i) == pair_pos_from(pairs, key, i),
    decreases pairs.len() - i,
{
    if 0 <= i < pairs.len() {
        lemma_pair_pos_update(pairs, idx, e, key, i + 1);
    }
}

proof fn lemma_pair_pos_push(pairs: Seq<(Seq<char>, ProbeScopeCache)>, e: (Seq<char>, ProbeScopeCache), key: Seq<char>, i: int)
    requires
        0 <= i <= pairs.len(),
        forall|j: int| 0 <= j < pairs.len() ==> pairs[j].0 != key,
        e.0 == key,
    ensures
        pair_pos_from(pairs.push(e), key, i) == Some(pairs.len() as int),
    decreases pairs.len() - i,
{
    if i < pairs.len() {
        lemma_pair_pos_push(pairs, e, key, i + 1);
    }
}

/// After recording a shape once, recording it again replaces the first record in place.
pub proof fn lemma_upsert_then_update(pairs: Seq<(Seq<char>, ProbeScopeCache)>, key: Seq<char>, s0: ProbeScopeCache, i: int, s: ProbeScopeCache)
    requires
        pair_pos_from(upsert_pairs(pairs, key, s0), key, 0) == Some(i),
    ensures
        upsert_pairs(pairs, key, s0).update(i, (key, s)) == upsert_pairs(pairs, key, s),
{
    lemma_pair_pos_bounds(pairs, key, 0);
    match pair_pos_from(pairs, key, 0) {
        Some(j) => {
            lemma_pair_pos_update(pairs, j, (key, s0), key, 0);
            assert(pairs.update(j, (key, s0)).update(i, (key, s)) =~= pairs.update(j, (key, s)));
        },
        None => {
            lemma_pair_pos_push(pairs, (key, s0), key, 0);
            assert(pairs.push((key, s0)).update(i, (key, s)) =~= pairs.push((key, s)));
        },
    }
}

/// The index and a copy of the record for `key`, a blank record being registered first when
/// the key is new; the recorded pairs are as if the current record had been recorded again.
pub fn open_scope(profile: &mut HostProfile, key: &str) -> (r: (usize, ProbeScopeCache))
    ensures
        r.0 < final(profile).probe_scopes@.len(),
        r.1 == scope_or_empty(old(profile)@.probe_scopes, key@),
        final(profile)@ == (HostProfileView {
            probe_scopes: upsert_pairs(old(profile)@.probe_scopes, key@, r.1),
            ..old(profile)@
        }),
        pair_pos_from(final(profile)@.probe_scopes, key@, 0) == Some(r.0 as int),
{
    let ghost before = profile.probe_scopes@;
    proof {
        lemma_pair_pos_matches(before, key@, 0);
        lemma_scope_pos_from_bounds(before, key@, 0);
    }
    let i = scope_entry_index(&mut profile.probe_scopes, key);
    let scope = copy_scope(&profile.probe_scopes[i].scope);
    proof {
        lemma_pair_pos_matches(profile.probe_scopes@, key@, 0);
        if scope_pos(before, key@) is None {
            assert(entries_view(profile.probe_scopes@) =~= entries_view(before).push((key@, scope)));
        } else {
            assert(entries_view(before).update(i as int, (key@, scope)) =~= entries_view(before));
        }
    }
    (i, scope)
}

/// Stores `scope` as the record at index `i`, under its key.
pub fn commit_scope(profile: &mut HostProfile, i: usize, scope: ProbeScopeCache)
    requires
        i < old(profile).probe_scopes@.len(),
    ensures
        final(profile)@ == (HostProfileView {
            probe_scopes: old(profile)@.probe_scopes.update(i as int, (old(profile)@.probe_scopes[i as int].0, scope)),
            ..old(profile)@
        }),
{
    let key = profile.probe_scopes[i].key.clone();
    let ghost before = profile.probe_scopes@;
    let ghost s = scope;
    profile.probe_scopes.set(i, ProbeScopeEntry { key, scope });
    assert(entries_view(profile.probe_scopes@) =~= entries_view(before).update(i as int, (before[i as int].key@, s)));
}

impl HostProfile {
    /// Records `scope` for the request shape `key`, replacing what was recorded for it.
    pub fn set_probe_scope(&mut self, key: &str, scope: ProbeScopeCache)
        ensures
            final(self)@ == (HostProfileView { probe_scopes: upsert_pairs(old(self)@.probe_scopes, key@, scope), ..old(self)@ }),
    {
        let ghost before = self@.probe_scopes;
        let (i, _current) = open_scope(self, key);
        proof { lemma_pair_pos_bounds(self@.probe_scopes, key@, 0); }
        let ghost s = scope;
        commit_scope(self, i, scope);
        proof { lemma_upsert_then_update(before, key@, scope_or_empty(before, key@), i as int, s); }
    }
}

} // verus!
