//! The engine's registry: downloads, settings, what is known of each host, and request
//! shapes probed a moment ago.

use vstd::prelude::*;
use crate::arith::sat_sub_i64;
use crate::download::DownloadRecord;
use crate::model::{opt_text, DownloadCompatibility, EngineSettings, HostProfile, HostProfileView, ProbeScopeCache};
use crate::probe::{DownloadProbeData, RangeObservation, ResumeValidators};
use crate::probe_cache::{probe_failure_update, probe_profile_update, record_probe_failure, update_profile_probe_cache};
use crate::scopes::copy_opt_string;

verus! {

/// A probe result is reused for this long.
pub const PROBE_RESULT_REUSE_TTL_MS: i64 = 180000;
/// At most this many probe results are kept.
pub const MAX_RECENT_PROBE_ENTRIES: usize = 64;

/// A probe result kept for reuse.
#[derive(Clone, Debug)]
pub struct RecentProbeCacheEntry {
    pub captured_at: i64,
    pub host: String,
    pub final_url: String,
    pub size: Option<u64>,
    pub mime_type: Option<String>,
    pub negotiated_protocol: Option<String>,
    pub range_supported: bool,
    pub resumable: bool,
    pub validators: ResumeValidators,
    pub suggested_name: String,
    pub compatibility: DownloadCompatibility,
    pub warnings: Vec<String>,
}

/// A kept probe result and the request shape it answers.
#[derive(Clone, Debug)]
pub struct RecentProbeEntry {
    pub key: String,
    pub entry: RecentProbeCacheEntry,
}

/// A host and its profile.
#[derive(Clone, Debug)]
pub struct HostProfileEntry {
    pub host: String,
    pub profile: HostProfile,
}

/// The engine's registry.
#[derive(Clone, Debug)]
pub struct RegistrySnapshot {
    pub downloads: Vec<DownloadRecord>,
    pub settings: EngineSettings,
    pub queue_running: bool,
    pub next_id: u64,
    pub host_profiles: Vec<HostProfileEntry>,
    pub recent_probes: Vec<RecentProbeEntry>,
}

pub open spec fn strings_view(v: Seq<String>) -> Seq<Seq<char>> {
    v.map_values(|s: String| s@)
}

pub fn copy_strings_pub(v: &Vec<String>) -> (r: Vec<String>)
    ensures
        r@ == v@,
{
    copy_strings(v)
}

fn copy_strings(v: &Vec<String>) -> (r: Vec<String>)
    ensures
        r@ == v@,
{
    let mut out: Vec<String> = Vec::new();
    let mut i: usize = 0;
    while i < v.len()
        invariant
            i <= v@.len(),
            out@ == v@.take(i as int),
        decreases v@.len() - i,
    {
        out.push(v[i].clone());
        assert(out@ =~= v@.take(i + 1));
        i = i + 1;
    }
    assert(v@.take(v@.len() as int) =~= v@);
    out
}

pub fn copy_validators(v: &ResumeValidators) -> (r: ResumeValidators)
    ensures
        r == *v,
{
    ResumeValidators {
        etag: copy_opt_string(&v.etag),
        last_modified: copy_opt_string(&v.last_modified),
        content_length: v.content_length,
        content_type: copy_opt_string(&v.content_type),
        content_disposition: copy_opt_string(&v.content_disposition),
    }
}

/// Two compatibilities hold the same values.
pub open spec fn same_compat(a: DownloadCompatibility, b: DownloadCompatibility) -> bool {
    &&& a.redirect_chain@ == b.redirect_chain@
    &&& a.request_form_fields@ == b.request_form_fields@
    &&& a == (DownloadCompatibility { redirect_chain: a.redirect_chain, request_form_fields: a.request_form_fields, ..b })
}

pub fn copy_compatibility(c: &DownloadCompatibility) -> (r: DownloadCompatibility)
    ensures
        same_compat(r, *c),
{
    DownloadCompatibility {
        redirect_chain: copy_strings(&c.redirect_chain),
        filename_source: copy_opt_string(&c.filename_source),
        classification: copy_opt_string(&c.classification),
        wrapper_detected: c.wrapper_detected,
        direct_url_recovered: c.direct_url_recovered,
        browser_interstitial_only: c.browser_interstitial_only,
        request_referer: copy_opt_string(&c.request_referer),
        request_cookies: copy_opt_string(&c.request_cookies),
        request_method: c.request_method,
        request_form_fields: crate::probe_flow::copy_fields(&c.request_form_fields),
    }
}

/// Two probe results hold the same values.
pub open spec fn same_probe(a: DownloadProbeData, b: DownloadProbeData) -> bool {
    &&& a.warnings@ == b.warnings@
    &&& same_compat(a.compatibility, b.compatibility)
    &&& a == (DownloadProbeData { warnings: a.warnings, compatibility: a.compatibility, ..b })
}

pub fn copy_probe(p: &DownloadProbeData) -> (r: DownloadProbeData)
    ensures
        same_probe(r, *p),
{
    DownloadProbeData {
        final_url: p.final_url.clone(),
        size: p.size,
        mime_type: copy_opt_string(&p.mime_type),
        negotiated_protocol: copy_opt_string(&p.negotiated_protocol),
        range_supported: p.range_supported,
        range_observation: p.range_observation,
        resumable: p.resumable,
        validators: copy_validators(&p.validators),
        suggested_name: p.suggested_name.clone(),
        compatibility: copy_compatibility(&p.compatibility),
        warnings: copy_strings(&p.warnings),
    }
}

/// A kept probe result taken up again: range support as recorded; a range it lacked counts as
/// refused when the request could have asked for one, and as unknown otherwise.
pub open spec fn cached_as_probe(cached: RecentProbeCacheEntry, p: DownloadProbeData) -> bool {
    let shape_ok = crate::http_helpers::segmented_shape_spec(cached.compatibility.request_method,
        cached.compatibility.request_form_fields@.len() as int);
    &&& p.final_url == cached.final_url
    &&& p.size == cached.size
    &&& p.mime_type == cached.mime_type
    &&& p.negotiated_protocol == cached.negotiated_protocol
    &&& p.range_supported == cached.range_supported
    &&& p.range_observation == (if cached.range_supported { RangeObservation::Supported }
        else if shape_ok { RangeObservation::Unsupported } else { RangeObservation::Unknown })
    &&& p.resumable == cached.resumable
    &&& p.validators == cached.validators
    &&& p.suggested_name == cached.suggested_name
    &&& same_compat(p.compatibility, cached.compatibility)
    &&& p.warnings@ == cached.warnings@
}

pub fn cached_probe_to_download_probe(cached: &RecentProbeCacheEntry) -> (r: DownloadProbeData)
    ensures
        cached_as_probe(*cached, r),
{
    let shape_ok = crate::http_helpers::request_context_supports_segmented_transfer(&cached.compatibility.request_method,
        cached.compatibility.request_form_fields.as_slice());
    let range_observation = if cached.range_supported {
        RangeObservation::Supported
    } else if shape_ok {
        RangeObservation::Unsupported
    } else {
        RangeObservation::Unknown
    };
    DownloadProbeData {
        final_url: cached.final_url.clone(),
        size: cached.size,
        mime_type: copy_opt_string(&cached.mime_type),
        negotiated_protocol: copy_opt_string(&cached.negotiated_protocol),
        range_supported: cached.range_supported,
        range_observation,
        resumable: cached.resumable,
        validators: copy_validators(&cached.validators),
        suggested_name: cached.suggested_name.clone(),
        compatibility: copy_compatibility(&cached.compatibility),
        warnings: copy_strings(&cached.warnings),
    }
}

/// The kept result that a probe becomes.
pub open spec fn probe_as_cached(probe: DownloadProbeData, host: Seq<char>, now: i64, e: RecentProbeCacheEntry) -> bool {
    &&& e.captured_at == now
    &&& e.host@ == host
    &&& e.final_url == probe.final_url
    &&& e.size == probe.size
    &&& e.mime_type == probe.mime_type
    &&& e.negotiated_protocol == probe.negotiated_protocol
    &&& e.range_supported == probe.range_supported
    &&& e.resumable == probe.resumable
    &&& e.validators == probe.validators
    &&& e.suggested_name == probe.suggested_name
    &&& same_compat(e.compatibility, probe.compatibility)
    &&& e.warnings@ == probe.warnings@
}

/// Index of the first entry for `key`.
pub open spec fn recent_pos(entries: Seq<RecentProbeEntry>, key: Seq<char>) -> Option<int>
    decreases entries.len(),
{
    if entries.len() == 0 {
        None
    } else {
        match recent_pos(entries.drop_last(), key) {
            Some(i) => Some(i),
            None => if entries.last().key@ == key { Some(entries.len() - 1) } else { None },
        }
    }
}

pub proof fn lemma_recent_pos(entries: Seq<RecentProbeEntry>, key: Seq<char>)
    ensures
        recent_pos(entries, key) matches Some(i) ==> 0 <= i < entries.len() && entries[i].key@ == key
            && forall|j: int| 0 <= j < i ==> entries[j].key@ != key,
        recent_pos(entries, key) is None ==> forall|j: int| 0 <= j < entries.len() ==> entries[j].key@ != key,
    decreases entries.len(),
{
    if entries.len() > 0 {
        lemma_recent_pos(entries.drop_last(), key);
        assert(forall|j: int| 0 <= j < entries.len() - 1 ==> entries.drop_last()[j] == entries[j]);
    }
}

fn find_recent(entries: &Vec<RecentProbeEntry>, key: &str) -> (r: Option<usize>)
    ensures
        match r {
            Some(i) => recent_pos(entries@, key@) == Some(i as int),
            None => recent_pos(entries@, key@) is None,
        },
{
    proof { lemma_recent_pos(entries@, key@); }
    let mut i: usize = 0;
    while i < entries.len()
        invariant
            i <= entries@.len(),
            forall|j: int| 0 <= j < i ==> entries@[j].key@ != key@,
            recent_pos(entries@, key@) matches Some(p) ==> 0 <= p < entries@.len() && entries@[p].key@ == key@
                && forall|j: int| 0 <= j < p ==> entries@[j].key@ != key@,
            recent_pos(entries@, key@) is None ==> forall|j: int| 0 <= j < entries@.len() ==> entries@[j].key@ != key@,
        decreases entries@.len() - i,
    {
        if crate::text::str_equal(entries[i].key.as_str(), key) {
            return Some(i);
        }
        i = i + 1;
    }
    None
}

/// The result kept for a request shape while it is fresh: taken at most the reuse window ago.
pub open spec fn fresh_recent_spec(entries: Seq<RecentProbeEntry>, key: Seq<char>, now: i64) -> Option<RecentProbeCacheEntry> {
    match recent_pos(entries, key) {
        Some(i) => if sat_sub_i64(now as int, entries[i].entry.captured_at as int) > PROBE_RESULT_REUSE_TTL_MS {
            None
        } else {
            Some(entries[i].entry)
        },
        None => None,
    }
}

pub open spec fn same_cached(a: RecentProbeCacheEntry, b: RecentProbeCacheEntry) -> bool {
    &&& a.warnings@ == b.warnings@
    &&& same_compat(a.compatibility, b.compatibility)
    &&& a == (RecentProbeCacheEntry { warnings: a.warnings, compatibility: a.compatibility, ..b })
}

fn copy_cached(e: &RecentProbeCacheEntry) -> (r: RecentProbeCacheEntry)
    ensures
        same_cached(r, *e),
{
    RecentProbeCacheEntry {
        captured_at: e.captured_at,
        host: e.host.clone(),
        final_url: e.final_url.clone(),
        size: e.size,
        mime_type: copy_opt_string(&e.mime_type),
        negotiated_protocol: copy_opt_string(&e.negotiated_protocol),
        range_supported: e.range_supported,
        resumable: e.resumable,
        validators: copy_validators(&e.validators),
        suggested_name: e.suggested_name.clone(),
        compatibility: copy_compatibility(&e.compatibility),
        warnings: copy_strings(&e.warnings),
    }
}

/// The probe result kept for a request shape, when it is fresh.
pub fn fresh_recent_probe(registry: &RegistrySnapshot, scope_key: &str, now: i64) -> (r: Option<RecentProbeCacheEntry>)
    ensures
        match fresh_recent_spec(registry.recent_probes@, scope_key@, now) {
            Some(e) => r matches Some(x) && same_cached(x, e),
            None => r is None,
        },
{
    let i = match find_recent(&registry.recent_probes, scope_key) {
        Some(i) => i,
        None => { return None; },
    };
    proof { lemma_recent_pos(registry.recent_probes@, scope_key@); }
    let cached = &registry.recent_probes[i].entry;
    if crate::arith::i64_sat_sub(now, cached.captured_at) > PROBE_RESULT_REUSE_TTL_MS {
        return None;
    }
    Some(copy_cached(cached))
}

/// The entries whose results are still within the reuse window, in order.
pub open spec fn fresh_entries(entries: Seq<RecentProbeEntry>, now: i64) -> Seq<RecentProbeEntry>
    decreases entries.len(),
{
    if entries.len() == 0 {
        Seq::empty()
    } else {
        let rest = fresh_entries(entries.drop_last(), now);
        if sat_sub_i64(now as int, entries.last().entry.captured_at as int) <= PROBE_RESULT_REUSE_TTL_MS {
            rest.push(entries.last())
        } else {
            rest
        }
    }
}

/// Index of the first entry taken earliest.
pub open spec fn oldest_recent(entries: Seq<RecentProbeEntry>, n: int) -> int
    decreases n,
{
    if n <= 1 {
        0
    } else {
        let m = oldest_recent(entries, n - 1);
        if entries[n - 1].entry.captured_at < entries[m].entry.captured_at { n - 1 } else { m }
    }
}

/// The entries after dropping the earliest taken ones until at most the limit remain.
pub open spec fn trimmed_entries(entries: Seq<RecentProbeEntry>) -> Seq<RecentProbeEntry>
    decreases entries.len(),
{
    if entries.len() <= MAX_RECENT_PROBE_ENTRIES {
        entries
    } else {
        proof { lemma_oldest_recent_bounds(entries, entries.len() as int); }
        trimmed_entries(entries.remove(oldest_recent(entries, entries.len() as int)))
    }
}

pub proof fn lemma_oldest_recent_bounds(entries: Seq<RecentProbeEntry>, n: int)
    requires
        1 <= n <= entries.len(),
    ensures
        0 <= oldest_recent(entries, n) < n,
    decreases n,
{
    if n > 1 {
        lemma_oldest_recent_bounds(entries, n - 1);
    }
}

fn oldest_recent_index(entries: &Vec<RecentProbeEntry>) -> (r: usize)
    requires
        entries@.len() >= 1,
    ensures
        r == oldest_recent(entries@, entries@.len() as int),
        r < entries@.len(),
{
    let mut m: usize = 0;
    let mut i: usize = 1;
    while i < entries.len()
        invariant
            1 <= i <= entries@.len(),
            m == oldest_recent(entries@, i as int),
            m < i,
        decreases entries@.len() - i,
    {
        if entries[i].entry.captured_at < entries[m].entry.captured_at {
            m = i;
        }
        i = i + 1;
    }
    m
}

/// The kept results after recording `e` for `key`: stale results dropped, the shape's result
/// replaced (or added at the end), and the earliest taken dropped beyond the limit.
pub open spec fn stored_entries(entries: Seq<RecentProbeEntry>, key: Seq<char>, e: RecentProbeEntry, now: i64) -> Seq<RecentProbeEntry> {
    let fresh = fresh_entries(entries, now);
    let upserted = match recent_pos(fresh, key) {
        Some(i) => fresh.update(i, e),
        None => fresh.push(e),
    };
    trimmed_entries(upserted)
}

fn copy_recent_entry(e: &RecentProbeEntry) -> (r: RecentProbeEntry)
    ensures
        r.key == e.key,
        same_cached(r.entry, e.entry),
{
    RecentProbeEntry { key: e.key.clone(), entry: copy_cached(&e.entry) }
}

/// Keeps the result of a live probe of a request shape.
pub fn store_recent_probe(registry: &mut RegistrySnapshot, scope_key: &str, host: &str, probe: &DownloadProbeData, now: i64)
    ensures
        exists|e: RecentProbeEntry| e.key@ == scope_key@ && probe_as_cached(*probe, host@, now, e.entry)
            && final(registry).recent_probes@ == stored_entries(old(registry).recent_probes@, scope_key@, e, now),
        *final(registry) == (RegistrySnapshot { recent_probes: final(registry).recent_probes, ..*old(registry) }),
{
    let mut pending: Vec<RecentProbeEntry> = Vec::new();
    std::mem::swap(&mut pending, &mut registry.recent_probes);
    let ghost before = pending@;
    let mut kept: Vec<RecentProbeEntry> = Vec::new();
    while pending.len() > 0
        invariant
            pending@.len() <= before.len(),
            pending@ == before.skip(before.len() - pending@.len()),
            kept@ == fresh_entries(before.take(before.len() - pending@.len()), now),
        decreases pending@.len(),
    {
        let ghost k = before.len() - pending@.len();
        let e = pending.remove(0);
        assert(e == before[k]);
        assert(before.take(k + 1).drop_last() =~= before.take(k));
        assert(pending@ =~= before.skip(k + 1));
        if crate::arith::i64_sat_sub(now, e.entry.captured_at) <= PROBE_RESULT_REUSE_TTL_MS {
            kept.push(e);
        }
    }
    assert(before.take(before.len() as int) =~= before);
    let entry = RecentProbeEntry {
        key: scope_key.to_owned(),
        entry: RecentProbeCacheEntry {
            captured_at: now,
            host: host.to_owned(),
            final_url: probe.final_url.clone(),
            size: probe.size,
            mime_type: copy_opt_string(&probe.mime_type),
            negotiated_protocol: copy_opt_string(&probe.negotiated_protocol),
            range_supported: probe.range_supported,
            resumable: probe.resumable,
            validators: copy_validators(&probe.validators),
            suggested_name: probe.suggested_name.clone(),
            compatibility: copy_compatibility(&probe.compatibility),
            warnings: copy_strings(&probe.warnings),
        },
    };
    let ghost e_view = entry;
    let ghost fresh = kept@;
    match find_recent(&kept, scope_key) {
        Some(i) => {
            proof { lemma_recent_pos(fresh, scope_key@); }
            kept.set(i, entry);
        },
        None => {
            kept.push(entry);
        },
    }
    let ghost upserted = kept@;
    assert(upserted == match recent_pos(fresh, scope_key@) { Some(i) => fresh.update(i, e_view), None => fresh.push(e_view) });
    while kept.len() > MAX_RECENT_PROBE_ENTRIES
        invariant
            trimmed_entries(upserted) == trimmed_entries(kept@),
        decreases kept@.len(),
    {
        let idx = oldest_recent_index(&kept);
        let ghost cur = kept@;
        kept.remove(idx);
        assert(trimmed_entries(cur) == trimmed_entries(cur.remove(idx as int)));
    }
    assert(kept@ == trimmed_entries(kept@));
    assert(fresh == fresh_entries(before, now));
    assert(kept@ == stored_entries(before, scope_key@, e_view, now));
    assert(probe_as_cached(*probe, host@, now, e_view.entry));
    registry.recent_probes = kept;
}

/// Index of the first profile of `host`.
pub open spec fn host_pos(entries: Seq<HostProfileEntry>, host: Seq<char>) -> Option<int>
    decreases entries.len(),
{
    if entries.len() == 0 {
        None
    } else {
        match host_pos(entries.drop_last(), host) {
            Some(i) => Some(i),
            None => if entries.last().host@ == host { Some(entries.len() - 1) } else { None },
        }
    }
}

pub proof fn lemma_host_pos(entries: Seq<HostProfileEntry>, host: Seq<char>)
    ensures
        host_pos(entries, host) matches Some(i) ==> 0 <= i < entries.len() && entries[i].host@ == host
            && forall|j: int| 0 <= j < i ==> entries[j].host@ != host,
        host_pos(entries, host) is None ==> forall|j: int| 0 <= j < entries.len() ==> entries[j].host@ != host,
    decreases entries.len(),
{
    if entries.len() > 0 {
        lemma_host_pos(entries.drop_last(), host);
        assert(forall|j: int| 0 <= j < entries.len() - 1 ==> entries.drop_last()[j] == entries[j]);
    }
}

/// Position of the profile of `host`.
pub fn find_host_profile(registry: &RegistrySnapshot, host: &str) -> (r: Option<usize>)
    ensures
        match r {
            Some(i) => host_pos(registry.host_profiles@, host@) == Some(i as int),
            None => host_pos(registry.host_profiles@, host@) is None,
        },
{
    proof { lemma_host_pos(registry.host_profiles@, host@); }
    let mut i: usize = 0;
    while i < registry.host_profiles.len()
        invariant
            i <= registry.host_profiles@.len(),
            forall|j: int| 0 <= j < i ==> registry.host_profiles@[j].host@ != host@,
            host_pos(registry.host_profiles@, host@) matches Some(p) ==> 0 <= p < registry.host_profiles@.len()
                && registry.host_profiles@[p].host@ == host@ && forall|j: int| 0 <= j < p ==> registry.host_profiles@[j].host@ != host@,
            host_pos(registry.host_profiles@, host@) is None ==> forall|j: int| 0 <= j < registry.host_profiles@.len() ==> registry.host_profiles@[j].host@ != host@,
        decreases registry.host_profiles@.len() - i,
    {
        if crate::text::str_equal(registry.host_profiles[i].host.as_str(), host) {
            return Some(i);
        }
        i = i + 1;
    }
    None
}

/// The profile of `host`, if there is one.
pub open spec fn profile_of(entries: Seq<HostProfileEntry>, host: Seq<char>) -> Option<HostProfile> {
    match host_pos(entries, host) {
        Some(i) => Some(entries[i].profile),
        None => None,
    }
}

pub fn host_profile<'a>(registry: &'a RegistrySnapshot, host: &str) -> (r: Option<&'a HostProfile>)
    ensures
        crate::host_planner::opt_profile(r) == profile_of(registry.host_profiles@, host@),
{
    match find_host_profile(registry, host) {
        Some(i) => {
            proof { lemma_host_pos(registry.host_profiles@, host@); }
            Some(&registry.host_profiles[i].profile)
        },
        None => None,
    }
}

/// The profiles as (host, profile view) pairs.
pub open spec fn profiles_view(entries: Seq<HostProfileEntry>) -> Seq<(Seq<char>, HostProfileView)> {
    entries.map_values(|e: HostProfileEntry| (e.host@, e.profile@))
}

/// The blank profile a host starts with.
pub open spec fn blank_profile_view() -> HostProfileView {
    HostProfileView {
        max_connections: None,
        cooldown_until: None,
        concurrency_locked: false,
        locked_connections: None,
        lock_reason: None,
        negotiated_protocol: None,
        protocol_reuse_events: 0,
        protocol_new_connection_events: 0,
        protocol_downgrade_events: 0,
        protocol_samples: 0,
        telemetry_samples: 0,
        average_ttfb_ms: None,
        average_throughput_bytes_per_second: None,
        throttle_events: 0,
        timeout_events: 0,
        reset_events: 0,
        stable_recovery_samples: 0,
        last_telemetry_at: None,
        ramp_attempts_without_gain: 0,
        range_supported: None,
        resumable: None,
        hard_no_range: false,
        last_probe_at: None,
        last_probe_error_at: None,
        probe_failure_streak: 0,
        content_length_hint: None,
        probe_scopes: Seq::empty(),
    }
}

/// The profiles after `f` changes the profile of `host` (a blank one appended when missing).
pub open spec fn profile_updated(
    entries: Seq<HostProfileEntry>,
    host: Seq<char>,
    new_view: spec_fn(HostProfileView) -> HostProfileView,
) -> Seq<(Seq<char>, HostProfileView)> {
    match host_pos(entries, host) {
        Some(i) => profiles_view(entries).update(i, (host, new_view(entries[i].profile@))),
        None => profiles_view(entries).push((host, new_view(blank_profile_view()))),
    }
}

/// Position of the profile of `host`, appending a blank profile when there is none.
pub fn host_profile_slot(registry: &mut RegistrySnapshot, host: &str) -> (i: usize)
    ensures
        i < final(registry).host_profiles@.len(),
        final(registry).host_profiles@[i as int].host@ == host@,
        host_pos(final(registry).host_profiles@, host@) == Some(i as int),
        match host_pos(old(registry).host_profiles@, host@) {
            Some(j) => i == j && final(registry).host_profiles@ == old(registry).host_profiles@,
            None => i == old(registry).host_profiles@.len()
                && profiles_view(final(registry).host_profiles@) == profiles_view(old(registry).host_profiles@).push((host@, blank_profile_view())),
        },
        *final(registry) == (RegistrySnapshot { host_profiles: final(registry).host_profiles, ..*old(registry) }),
{
    match find_host_profile(registry, host) {
        Some(i) => {
            proof { lemma_host_pos(registry.host_profiles@, host@); }
            i
        },
        None => {
            proof { lemma_host_pos(registry.host_profiles@, host@); }
            let ghost before = registry.host_profiles@;
            let profile = HostProfile::default();
            assert(crate::scopes::entries_view(profile.probe_scopes@) =~= Seq::empty());
            assert(profile@ == blank_profile_view());
            registry.host_profiles.push(HostProfileEntry { host: host.to_owned(), profile });
            let i = registry.host_profiles.len() - 1;
            proof {
                lemma_host_pos(registry.host_profiles@, host@);
                assert(registry.host_profiles@.drop_last() =~= before);
                assert(profiles_view(registry.host_profiles@) =~= profiles_view(before).push((host@, blank_profile_view())));
            }
            i
        },
    }
}

/// What a planning probe teaches the registry: a live result updates the host's profile and
/// is kept for reuse; having no result at all counts as a probe failure; a reused result
/// teaches nothing.
pub open spec fn probe_learning_spec(
    old_r: RegistrySnapshot,
    new_r: RegistrySnapshot,
    host: Seq<char>,
    key: Seq<char>,
    probe: Option<DownloadProbeData>,
    from_live: bool,
    now: i64,
) -> bool {
    if from_live && probe is Some {
        let p = probe->0;
        &&& profiles_view(new_r.host_profiles@) == profile_updated(old_r.host_profiles@, host,
            |v: HostProfileView| probe_profile_update(v, key, p, now))
        &&& exists|e: RecentProbeEntry| e.key@ == key && probe_as_cached(p, host, now, e.entry)
            && new_r.recent_probes@ == stored_entries(old_r.recent_probes@, key, e, now)
        &&& new_r == (RegistrySnapshot { host_profiles: new_r.host_profiles, recent_probes: new_r.recent_probes, ..old_r })
    } else if probe is None {
        &&& profiles_view(new_r.host_profiles@) == profile_updated(old_r.host_profiles@, host,
            |v: HostProfileView| probe_failure_update(v, key, now))
        &&& new_r == (RegistrySnapshot { host_profiles: new_r.host_profiles, ..old_r })
    } else {
        new_r == old_r
    }
}

pub proof fn lemma_profile_slot_update(
    before: Seq<HostProfileEntry>,
    mid: Seq<HostProfileEntry>,
    fin: Seq<HostProfileEntry>,
    host: Seq<char>,
    i: int,
    f: spec_fn(HostProfileView) -> HostProfileView,
)
    requires
        0 <= i < mid.len(),
        mid[i].host@ == host,
        match host_pos(before, host) {
            Some(j) => i == j && mid == before,
            None => i == before.len() && profiles_view(mid) == profiles_view(before).push((host, blank_profile_view())),
        },
        fin.len() == mid.len(),
        forall|j: int| 0 <= j < fin.len() && j != i ==> fin[j] == mid[j],
        fin[i].host == mid[i].host,
        fin[i].profile@ == f(mid[i].profile@),
    ensures
        profiles_view(fin) == profile_updated(before, host, f),
{
    lemma_host_pos(before, host);
    match host_pos(before, host) {
        Some(j) => {
            assert(profiles_view(fin) =~= profiles_view(before).update(j, (host, f(before[j].profile@))));
        },
        None => {
            assert(profiles_view(mid)[i] == (host, blank_profile_view()));
            assert(mid[i].profile@ == blank_profile_view());
            assert(profiles_view(mid).len() == before.len() + 1);
            assert(profiles_view(fin) =~= profiles_view(before).push((host, f(blank_profile_view())))) by {
                assert forall|j: int| 0 <= j < fin.len() implies profiles_view(fin)[j] == profiles_view(before).push((host, f(blank_profile_view())))[j] by {
                    if j < before.len() {
                        assert(fin[j] == mid[j]);
                        assert(profiles_view(mid)[j] == profiles_view(before)[j]);
                        assert(profiles_view(fin)[j] == profiles_view(mid)[j]);
                    } else {
                        assert(j == i);
                    }
                }
            }
        },
    }
}

pub fn apply_probe_learning(
    registry: &mut RegistrySnapshot,
    host: &str,
    scope_key: &str,
    probe: Option<&DownloadProbeData>,
    from_live: bool,
    now: i64,
)
    ensures
        probe_learning_spec(*old(registry), *final(registry), host@, scope_key@,
            match probe { Some(p) => Some(*p), None => None }, from_live, now),
{
    let ghost before = registry.host_profiles@;
    match probe {
        Some(p) => {
            if from_live {
                let i = host_profile_slot(registry, host);
                let ghost mid = registry.host_profiles@;
                update_profile_probe_cache(&mut registry.host_profiles[i].profile, scope_key, p, now);
                proof {
                    lemma_profile_slot_update(before, mid, registry.host_profiles@, host@, i as int,
                        |v: HostProfileView| probe_profile_update(v, scope_key@, *p, now));
                }
                store_recent_probe(registry, scope_key, host, p, now);
            }
        },
        None => {
            let i = host_profile_slot(registry, host);
            let ghost mid = registry.host_profiles@;
            record_probe_failure(&mut registry.host_profiles[i].profile, scope_key, now);
            proof {
                lemma_profile_slot_update(before, mid, registry.host_profiles@, host@, i as int,
                    |v: HostProfileView| probe_failure_update(v, scope_key@, now));
            }
        },
    }
}

} // verus!
