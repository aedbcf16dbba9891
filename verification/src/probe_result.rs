//! What a probe of a URL reports before anything is downloaded: the file it would be, the
//! host's capabilities and diagnostics, how the transfer would be planned, and the warnings
//! that go with it. The registry learns from the probe on the way.

use vstd::prelude::*;
use crate::download::DownloadCategory;
use crate::filename::texts_view;
use crate::host_planner::opt_profile;
use crate::model::{opt_text, DownloadCompatibility, DownloadRequestMethod, HostDiagnosticsSummary, HostProfile};
use crate::operations::{
    blank_compat, first_known, merged_compat_spec, new_name_spec, plan_cached, planned_size_spec, source_warning_spec,
    storage_warnings_spec, ProbePlanningState, EXACT_REPLAY_WARNING,
};
use crate::probe::{DownloadProbeData, ResumeValidators};
use crate::registry::RegistrySnapshot;

verus! {

pub const PROBE_FAILED_CACHED_WARNING: &'static str = "Remote probe failed; using fresh host capability cache for planning.";
pub const PROBE_FAILED_UNCACHED_WARNING: &'static str = "Remote probe failed; no fresh host capability cache is available.";
pub const STALE_CACHE_REFRESHED_WARNING: &'static str = "Host capability cache was stale before this probe and has now been refreshed.";
pub const GUARDED_SINGLE_STREAM: &'static str = "guarded single-stream";

/// The report of a probe.
#[derive(Debug)]
pub struct ProbeResult {
    pub original_url: String,
    pub final_url: String,
    pub host: String,
    pub host_max_connections: Option<u32>,
    pub host_average_ttfb_ms: Option<u64>,
    pub host_average_throughput_bytes_per_second: Option<u64>,
    pub host_diagnostics: HostDiagnosticsSummary,
    pub suggested_name: String,
    pub target_path: Option<String>,
    pub size: Option<u64>,
    pub mime_type: Option<String>,
    pub available_space: Option<u64>,
    pub resumable: bool,
    pub range_supported: bool,
    pub segmented: bool,
    pub planned_connections: u32,
    pub suggested_category: DownloadCategory,
    pub warnings: Vec<String>,
    pub validators: ResumeValidators,
    pub compatibility: DownloadCompatibility,
}

/// Whether some text of `ws` holds `sub`.
pub open spec fn any_contains(ws: Seq<Seq<char>>, sub: Seq<char>) -> bool {
    exists|i: int| 0 <= i < ws.len() && #[trigger] crate::chars::contains_sub(ws[i], sub)
}

/// Whether the host's cached capabilities were stale before a live probe refreshed them.
pub open spec fn stale_before(registry: RegistrySnapshot, planning: ProbePlanningState) -> bool {
    planning.from_live && match crate::registry::profile_of(registry.host_profiles@, planning.host@) {
        Some(p) => crate::probe_cache::cache_stale_spec(p, planning.scope_key@, planning.now),
        None => false,
    }
}

/// The warnings of a probe before its storage and replay warnings: the probe's own, where
/// its metadata came from, a note when the probe failed (or refreshed a stale cache), the
/// cache's, and the host's.
pub open spec fn probe_warnings_spec(
    probe: Option<DownloadProbeData>,
    from_cache: bool,
    from_live: bool,
    stale: bool,
    profile: Option<HostProfile>,
    key: Seq<char>,
    cached: Option<crate::probe_cache::CachedProbeCapabilities>,
    now: i64,
) -> Seq<Seq<char>> {
    let base = match probe { Some(p) => crate::registry::strings_view(p.warnings@), None => Seq::empty() };
    let w1 = base.push(source_warning_spec(from_cache, from_live));
    let w2 = if probe is None {
        w1.push(if cached is Some { PROBE_FAILED_CACHED_WARNING@ } else { PROBE_FAILED_UNCACHED_WARNING@ })
    } else if stale {
        w1.push(STALE_CACHE_REFRESHED_WARNING@)
    } else {
        w1
    };
    let w3 = w2 + crate::probe_cache::cache_warnings_spec(profile, key, cached, now);
    match crate::host_planner::opt_warning_spec(profile, Some(key), now) { Some(w) => w3.push(w), None => w3 }
}

/// What a host's diagnostics summary says at `now`.
pub open spec fn diagnostics_spec(d: HostDiagnosticsSummary, profile: Option<HostProfile>, key: Seq<char>, now: i64) -> bool {
    &&& !d.hard_no_range
    &&& match profile {
        None => !d.concurrency_locked && d.lock_reason is None && d.cooldown_until is None
            && d.negotiated_protocol is None && d.reuse_connections is None,
        Some(p) => {
            &&& d.concurrency_locked == crate::host_planner::lock_applies_spec(p, Some(key), now)
            &&& d.lock_reason == crate::host_planner::shown_lock_reason(p, Some(key), now)
            &&& d.cooldown_until == crate::host_planner::cooldown_until_spec(p, Some(key))
            &&& crate::host_planner::opt_text_of(d.negotiated_protocol) == crate::host_planner::normalized_opt_protocol(p.negotiated_protocol)
            &&& d.reuse_connections == crate::host_planner::reuse_preference_spec(p)
        },
    }
}

/// The transfer a probe plans: capabilities as probed (else cached), kept only when the
/// request can be replayed per range; more than one connection only for a sized, resumable,
/// range-capable download, as many as the host's initial target allows.
pub open spec fn probe_plan_spec(r: ProbeResult, probe: Option<DownloadProbeData>, cached: Option<crate::probe_cache::CachedProbeCapabilities>,
    shape_ok: bool, size: Option<u64>, settings: crate::model::EngineSettings, profile: Option<HostProfile>, key: Seq<char>, now: i64) -> bool
{
    let range = first_known(match probe { Some(p) => Some(p.range_supported), None => None }, None,
        match cached { Some(c) => c.range_supported, None => None }) && shape_ok;
    let resumable = first_known(match probe { Some(p) => Some(p.resumable), None => None }, None,
        match cached { Some(c) => c.resumable, None => None }) && shape_ok;
    let sized = match size { Some(v) => v > 0, None => false };
    let effective = crate::host_planner::connection_target_spec(16, settings, profile, Some(key), now);
    &&& r.range_supported == range
    &&& r.resumable == resumable
    &&& r.planned_connections == (if range && resumable && sized {
        crate::host_planner::initial_target_spec(effective, settings, profile, Some(key), size, now)
    } else {
        1
    })
    &&& r.segmented == (range && r.planned_connections > 1)
}

/// The report of a probe of `url`, given the planning state, the state of the registry after
/// it learned from the probe (`profile` is the host's profile then), whether the host's cache
/// was stale before, the save directory, the name asked for, the request shape and the free
/// space; `label` prints byte counts.
pub open spec fn probe_result_spec<F: Fn(u64) -> String>(
    r: ProbeResult,
    planning: ProbePlanningState,
    settings: crate::model::EngineSettings,
    profile: Option<HostProfile>,
    stale: bool,
    url: Seq<char>,
    save_path: Option<String>,
    requested_name: Option<String>,
    request_referer: Option<String>,
    request_cookies: Option<String>,
    request_method: DownloadRequestMethod,
    available_space: Option<u64>,
    label: F,
) -> bool {
    let now = planning.now;
    let key = planning.scope_key@;
    let probe = planning.probe;
    let cached = plan_cached(profile, key, now);
    let size = planned_size_spec(probe, None, cached);
    let name = new_name_spec(requested_name, probe, planning.final_url@);
    let shape_ok = crate::http_helpers::segmented_shape_spec(r.compatibility.request_method,
        r.compatibility.request_form_fields@.len() as int);
    let warnings = probe_warnings_spec(probe, planning.from_cache, planning.from_live, stale, profile, key, cached, now);
    &&& r.original_url@ == url
    &&& r.final_url@ == planning.final_url@
    &&& r.host@ == planning.host@
    &&& r.host_max_connections == (match profile { Some(p) => p.max_connections, None => None })
    &&& r.host_average_ttfb_ms == crate::host_planner::average_ttfb_spec(profile, Some(key))
    &&& r.host_average_throughput_bytes_per_second == crate::host_planner::average_throughput_spec(profile, Some(key))
    &&& diagnostics_spec(r.host_diagnostics, profile, key, now)
    &&& r.suggested_name@ == name
    &&& match (match save_path { Some(s) => crate::download_ops::non_empty_spec(s@), None => None }) {
        None => r.target_path is None,
        Some(dir) => r.target_path matches Some(t)
            && (crate::download_identity::plain_file_name(name) && crate::download_identity::plain_base(dir)
                ==> crate::download_identity::joined_under(t@, dir, name)),
    }
    &&& r.size == size
    &&& r.mime_type == (match probe { Some(p) => p.mime_type, None => None })
    &&& r.available_space == available_space
    &&& probe_plan_spec(r, probe, cached, shape_ok, size, settings, profile, key, now)
    &&& r.suggested_category == crate::download_identity::category_spec(crate::download_identity::name_extension_lower(name))
    &&& exists|storage: Seq<Seq<char>>| storage_warnings_spec(available_space, size, label, storage)
        && texts_view(r.warnings) == warnings + storage
            + (if !shape_ok && !any_contains(warnings + storage, GUARDED_SINGLE_STREAM@) { seq![EXACT_REPLAY_WARNING@] } else { Seq::empty() })
    &&& r.validators == (match probe { Some(p) => p.validators, None => crate::operations::no_validators() })
    &&& match probe {
        Some(p) => merged_compat_spec(p.compatibility, request_referer, request_cookies, request_method,
            planning.request_form_fields@, r.compatibility),
        None => exists|base: DownloadCompatibility| blank_compat(base) && merged_compat_spec(base, request_referer,
            request_cookies, request_method, planning.request_form_fields@, r.compatibility),
    }
}

fn any_text_contains(ws: &Vec<String>, sub: &str) -> (r: bool)
    ensures
        r == any_contains(texts_view(*ws), sub@),
{
    let mut i: usize = 0;
    while i < ws.len()
        invariant
            i <= ws@.len(),
            forall|k: int| 0 <= k < i ==> !crate::chars::contains_sub(#[trigger] texts_view(*ws)[k], sub@),
        decreases ws@.len() - i,
    {
        let cs = crate::text::chars_of(ws[i].as_str());
        if crate::chars::contains_text(cs.as_slice(), sub) {
            assert(texts_view(*ws)[i as int] == cs@);
            return true;
        }
        assert(texts_view(*ws)[i as int] == cs@);
        i = i + 1;
    }
    false
}

fn probe_warnings(
    planning: &ProbePlanningState,
    stale: bool,
    profile: Option<&HostProfile>,
    cached: &Option<crate::probe_cache::CachedProbeCapabilities>,
) -> (r: Vec<String>)
    ensures
        texts_view(r) == probe_warnings_spec(planning.probe, planning.from_cache, planning.from_live, stale,
            opt_profile(profile), planning.scope_key@, *cached, planning.now),
{
    let now = planning.now;
    let mut warnings: Vec<String> = match &planning.probe {
        Some(p) => {
            let w = crate::registry::copy_strings_pub(&p.warnings);
            assert(texts_view(w) =~= crate::registry::strings_view(p.warnings@));
            w
        },
        None => {
            let w: Vec<String> = Vec::new();
            assert(texts_view(w) =~= Seq::<Seq<char>>::empty());
            w
        },
    };
    crate::operations::append_probe_source_warning(&mut warnings, planning.from_cache, planning.from_live);
    if planning.probe.is_none() {
        let ghost before = texts_view(warnings);
        let text = if cached.is_some() { PROBE_FAILED_CACHED_WARNING } else { PROBE_FAILED_UNCACHED_WARNING };
        warnings.push(text.to_owned());
        assert(texts_view(warnings) =~= before.push(text@));
    } else if stale {
        let ghost before = texts_view(warnings);
        warnings.push(STALE_CACHE_REFRESHED_WARNING.to_owned());
        assert(texts_view(warnings) =~= before.push(STALE_CACHE_REFRESHED_WARNING@));
    }
    let cached_ref: Option<&crate::probe_cache::CachedProbeCapabilities> = match cached {
        Some(c) => Some(c),
        None => None,
    };
    let ghost w2 = texts_view(warnings);
    crate::probe_cache::append_probe_cache_warning(&mut warnings, profile, planning.scope_key.as_str(), cached_ref, now);
    assert(crate::probe_cache::texts(warnings) == texts_view(warnings));
    match crate::host_planner::profile_warning_at(profile, Some(planning.scope_key.as_str()), now) {
        Some(w) => {
            let ghost before = texts_view(warnings);
            warnings.push(w);
            assert(texts_view(warnings) =~= before.push(w@));
        },
        None => {},
    }
    warnings
}

/// Probes planning into a report: the registry learns from the probe (as when a download is
/// added), and the report says what the download would be.
#[verifier::rlimit(60)]
pub fn probe_result_from<F: Fn(u64) -> String>(
    registry: &mut RegistrySnapshot,
    url: &str,
    save_path: &Option<String>,
    requested_name: &Option<String>,
    request_referer: &Option<String>,
    request_cookies: &Option<String>,
    request_method: DownloadRequestMethod,
    planning: &ProbePlanningState,
    available_space: Option<u64>,
    label: &F,
) -> (r: ProbeResult)
    requires
        forall|x: u64| call_requires(*label, (x,)),
    ensures
        crate::registry::probe_learning_spec(*old(registry), *final(registry), planning.host@, planning.scope_key@,
            planning.probe, planning.from_live, planning.now),
        probe_result_spec(r, *planning, old(registry).settings,
            crate::registry::profile_of(final(registry).host_profiles@, planning.host@),
            stale_before(*old(registry), *planning), url@, *save_path, *requested_name, *request_referer,
            *request_cookies, request_method, available_space, *label),
{
    let now = planning.now;
    let key = planning.scope_key.as_str();
    let host = planning.host.as_str();
    let stale = planning.from_live && match crate::registry::host_profile(registry, host) {
        Some(p) => crate::probe_cache::probe_cache_stale(p, key, now),
        None => false,
    };
    let probe_ref: Option<&DownloadProbeData> = match &planning.probe { Some(p) => Some(p), None => None };
    crate::registry::apply_probe_learning(registry, host, key, probe_ref, planning.from_live, now);
    let registry: &RegistrySnapshot = registry;
    let profile = crate::registry::host_profile(registry, host);
    let cached: Option<crate::probe_cache::CachedProbeCapabilities> = match profile {
        Some(p) => crate::probe_cache::fresh_probe_capabilities(p, key, now),
        None => None,
    };
    let name = crate::operations::new_download_name(requested_name, &planning.probe, planning.final_url.as_str());
    let target_path = match save_path {
        Some(s) => match crate::download_ops::non_empty(s.clone()) {
            Some(dir) => Some(crate::download_identity::join_target_path(dir.as_str(), name.as_str())),
            None => None,
        },
        None => None,
    };
    let size = crate::operations::planned_size(&planning.probe, None, &cached);
    let mut warnings = probe_warnings(planning, stale, profile, &cached);
    crate::operations::append_storage_warning(&mut warnings, available_space, size, label);
    let probe_compat: Option<DownloadCompatibility> = match &planning.probe {
        Some(p) => Some(crate::registry::copy_compatibility(&p.compatibility)),
        None => None,
    };
    let ghost pc = probe_compat;
    let compatibility = crate::operations::merge_probe_compatibility(probe_compat,
        crate::scopes::copy_opt_string(request_referer), crate::scopes::copy_opt_string(request_cookies),
        request_method, &planning.request_form_fields);
    proof {
        if planning.probe is Some {
            assert(crate::registry::same_compat(pc->0, planning.probe->0.compatibility));
        }
    }
    let shape_ok = crate::http_helpers::request_context_supports_segmented_transfer(&compatibility.request_method,
        compatibility.request_form_fields.as_slice());
    let ghost before_replay = texts_view(warnings);
    if !shape_ok && !any_text_contains(&warnings, GUARDED_SINGLE_STREAM) {
        warnings.push(EXACT_REPLAY_WARNING.to_owned());
        assert(texts_view(warnings) =~= before_replay + seq![EXACT_REPLAY_WARNING@]);
    } else {
        assert(texts_view(warnings) =~= before_replay + Seq::<Seq<char>>::empty());
    }
    let probed_range = match &planning.probe { Some(p) => Some(p.range_supported), None => None };
    let probed_resumable = match &planning.probe { Some(p) => Some(p.resumable), None => None };
    let cached_range = match &cached { Some(c) => c.range_supported, None => None };
    let cached_resumable = match &cached { Some(c) => c.resumable, None => None };
    let range_supported = (match probed_range { Some(v) => v, None => match cached_range { Some(v) => v, None => false } }) && shape_ok;
    let resumable = (match probed_resumable { Some(v) => v, None => match cached_resumable { Some(v) => v, None => false } }) && shape_ok;
    let sized = match size { Some(v) => v > 0, None => false };
    let effective = crate::host_planner::connection_target_at(16, &registry.settings, profile, Some(key), now);
    let planned_connections = if range_supported && resumable && sized {
        crate::host_planner::initial_target_at(effective, &registry.settings, profile, Some(key), size, now)
    } else {
        1
    };
    let segmented = range_supported && planned_connections > 1;
    let suggested_category = crate::download_identity::classify_category(name.as_str());
    let r = ProbeResult {
        original_url: url.to_owned(),
        final_url: planning.final_url.clone(),
        host: planning.host.clone(),
        host_max_connections: match profile { Some(p) => p.max_connections, None => None },
        host_average_ttfb_ms: crate::host_planner::effective_average_ttfb_ms(profile, Some(key)),
        host_average_throughput_bytes_per_second: crate::host_planner::effective_average_throughput_bytes_per_second(profile, Some(key)),
        host_diagnostics: crate::host_planner::host_diagnostics_summary_at(profile, Some(key), now),
        suggested_name: name,
        target_path,
        size,
        mime_type: match &planning.probe { Some(p) => crate::scopes::copy_opt_string(&p.mime_type), None => None },
        available_space,
        resumable,
        range_supported,
        segmented,
        planned_connections,
        suggested_category,
        warnings,
        validators: match &planning.probe {
            Some(p) => crate::registry::copy_validators(&p.validators),
            None => ResumeValidators::default(),
        },
        compatibility,
    };
    r
}

} // verus!
