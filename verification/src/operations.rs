//! Planning a new download and answering a probe request: the name, the duplicate check,
//! the capabilities and size assumed, the warnings shown, and the record created.

use vstd::prelude::*;
use vstd::string::StringSliceAdditionalSpecFns;
use crate::chars::{lower_chars, trim_ws};
use crate::download::{DownloadRecord, DownloadStatus};
use crate::filename::texts_view;
use crate::html::url_key_spec;
use crate::model::{opt_text, DownloadCompatibility, DownloadRequestField, DownloadRequestMethod};
use crate::probe::{DownloadProbeData, ResumeValidators};
use crate::registry::{cached_as_probe, cached_probe_to_download_probe, copy_compatibility, copy_probe, same_compat, same_probe, RecentProbeCacheEntry};
use crate::scopes::copy_opt_string;
use crate::text::chars_of;

verus! {

/// An unknown-size download warns about free space at or below this many bytes.
pub const LOW_SPACE_UNKNOWN_SIZE_WARNING_BYTES: u64 = 536870912;
pub const PROBE_SOURCE_WARNING_LIVE: &'static str = "Probe metadata source: live network probe.";
pub const PROBE_SOURCE_WARNING_CACHED: &'static str = "Probe metadata source: recent probe cache reuse.";
pub const PROBE_SOURCE_WARNING_FALLBACK: &'static str = "Probe metadata source: planning fallback without fresh metadata.";
pub const EXACT_REPLAY_WARNING: &'static str = "This download requires an exact request replay; VDM will keep it on guarded single-stream mode until byte-range support is proven on that same request shape.";

/// A schedule in the future, or none.
pub fn normalize_scheduled_for_at(scheduled_for: Option<i64>, now: i64) -> (r: Option<i64>)
    ensures
        r == match scheduled_for {
            Some(v) => if v > now { Some(v) } else { None },
            None => None,
        },
{
    match scheduled_for {
        Some(v) => if v > now { Some(v) } else { None },
        None => None,
    }
}

/// Two target paths are the same file: exactly equal, or equal ignoring ASCII case on a
/// file system that ignores case.
pub open spec fn same_target_spec(left: Seq<u8>, right: Seq<u8>, case_insensitive: bool) -> bool {
    if case_insensitive { crate::text::lower_seq(left) == crate::text::lower_seq(right) } else { left == right }
}

pub fn target_path_matches(left: &str, right: &str, case_insensitive: bool) -> (r: bool)
    ensures
        r == same_target_spec(left.spec_bytes(), right.spec_bytes(), case_insensitive),
{
    if case_insensitive {
        crate::text::str_eq_ci(left, right)
    } else {
        crate::text::bytes_equal(left.as_bytes(), right.as_bytes())
    }
}

/// A tracked download shares a source URL with a request.
pub open spec fn urls_overlap_spec(existing: DownloadRecord, requested: Seq<char>, final_url: Seq<char>) -> bool {
    let a = url_key_spec(existing.url@);
    let b = url_key_spec(existing.final_url@);
    a == url_key_spec(requested) || a == url_key_spec(final_url) || b == url_key_spec(requested) || b == url_key_spec(final_url)
}

pub fn urls_overlap(existing: &DownloadRecord, requested_url: &str, final_url: &str) -> (r: bool)
    ensures
        r == urls_overlap_spec(*existing, requested_url@, final_url@),
{
    crate::html::urls_match_after_normalization(existing.url.as_str(), requested_url)
        || crate::html::urls_match_after_normalization(existing.url.as_str(), final_url)
        || crate::html::urls_match_after_normalization(existing.final_url.as_str(), requested_url)
        || crate::html::urls_match_after_normalization(existing.final_url.as_str(), final_url)
}

pub fn etag_matches(left: &str, right: &str) -> (r: bool)
    ensures
        r == (trim_ws(left@) == trim_ws(right@)),
{
    let a = chars_of(left);
    let b = chars_of(right);
    let ta = crate::chars::trim_chars(a.as_slice(), crate::chars::TrimClass::WhiteSpace);
    let tb = crate::chars::trim_chars(b.as_slice(), crate::chars::TrimClass::WhiteSpace);
    crate::chars::chars_equal(ta.as_slice(), tb.as_slice())
}

pub fn last_modified_matches(left: &str, right: &str) -> (r: bool)
    ensures
        r == (lower_chars(trim_ws(left@)) == lower_chars(trim_ws(right@))),
{
    let a = chars_of(left);
    let b = chars_of(right);
    let ta = crate::chars::trim_chars(a.as_slice(), crate::chars::TrimClass::WhiteSpace);
    let tb = crate::chars::trim_chars(b.as_slice(), crate::chars::TrimClass::WhiteSpace);
    let la = crate::chars::lower_ascii(ta.as_slice());
    let lb = crate::chars::lower_ascii(tb.as_slice());
    crate::chars::chars_equal(la.as_slice(), lb.as_slice())
}

/// Two sets of validators name the same remote file: equal lengths, and a matching entity tag
/// or modification time.
pub open spec fn validators_match_spec(existing: ResumeValidators, requested: ResumeValidators) -> bool {
    match (existing.content_length, requested.content_length) {
        (Some(a), Some(b)) => a == b && (
            (match (existing.etag, requested.etag) {
                (Some(x), Some(y)) => trim_ws(x@) == trim_ws(y@),
                _ => false,
            }) || (match (existing.last_modified, requested.last_modified) {
                (Some(x), Some(y)) => lower_chars(trim_ws(x@)) == lower_chars(trim_ws(y@)),
                _ => false,
            })),
        _ => false,
    }
}

pub fn validators_match(existing: &ResumeValidators, requested: &ResumeValidators) -> (r: bool)
    ensures
        r == validators_match_spec(*existing, *requested),
{
    let (a, b) = match (existing.content_length, requested.content_length) {
        (Some(a), Some(b)) => (a, b),
        _ => { return false; },
    };
    if a != b {
        return false;
    }
    let etag = match (&existing.etag, &requested.etag) {
        (Some(x), Some(y)) => etag_matches(x.as_str(), y.as_str()),
        _ => false,
    };
    etag || match (&existing.last_modified, &requested.last_modified) {
        (Some(x), Some(y)) => last_modified_matches(x.as_str(), y.as_str()),
        _ => false,
    }
}

/// The name a status prints as.
pub open spec fn status_label_spec(status: DownloadStatus) -> Seq<char> {
    match status {
        DownloadStatus::Queued => "Queued"@,
        DownloadStatus::Downloading => "Downloading"@,
        DownloadStatus::Paused => "Paused"@,
        DownloadStatus::Stopped => "Stopped"@,
        DownloadStatus::Finished => "Finished"@,
        DownloadStatus::Error => "Error"@,
    }
}

pub fn status_label(status: DownloadStatus) -> (r: &'static str)
    ensures
        r@ == status_label_spec(status),
{
    match status {
        DownloadStatus::Queued => "Queued",
        DownloadStatus::Downloading => "Downloading",
        DownloadStatus::Paused => "Paused",
        DownloadStatus::Stopped => "Stopped",
        DownloadStatus::Finished => "Finished",
        DownloadStatus::Error => "Error",
    }
}

pub open spec fn duplicate_message_spec(existing: DownloadRecord, reason: Seq<char>) -> Seq<char> {
    "Download already exists: '"@ + existing.name@ + "' is already "@ + reason + ". Existing status: "@
        + status_label_spec(existing.status) + "."@
}

pub fn duplicate_download_message(existing: &DownloadRecord, reason: &str) -> (r: String)
    ensures
        r@ == duplicate_message_spec(*existing, reason@),
{
    let mut out = String::new();
    out.append("Download already exists: '");
    out.append(existing.name.as_str());
    out.append("' is already ");
    out.append(reason);
    out.append(". Existing status: ");
    out.append(status_label(existing.status));
    out.append(".");
    out
}

pub const SAME_SOURCE_REASON: &'static str = "tracking the same source URL";
pub const SAME_VALIDATORS_REASON: &'static str = "matching the same remote file validators";
pub const SAME_TARGET_REASON: &'static str = "using the same target file";

/// Why a tracked download duplicates a request: the same source URL, the same remote file,
/// or the same target file, tested in that order.
pub open spec fn duplicate_reason_spec(
    existing: DownloadRecord,
    requested_url: Seq<char>,
    final_url: Seq<char>,
    validators: Option<ResumeValidators>,
    target_path: Seq<u8>,
    case_insensitive: bool,
) -> Option<Seq<char>> {
    if urls_overlap_spec(existing, requested_url, final_url) {
        Some(SAME_SOURCE_REASON@)
    } else if validators matches Some(v) && validators_match_spec(existing.validators, v) {
        Some(SAME_VALIDATORS_REASON@)
    } else if same_target_spec(vstd::utf8::encode_utf8(existing.target_path@), target_path, case_insensitive) {
        Some(SAME_TARGET_REASON@)
    } else {
        None
    }
}

fn duplicate_reason(
    existing: &DownloadRecord,
    requested_url: &str,
    final_url: &str,
    validators: Option<&ResumeValidators>,
    target_path: &str,
    case_insensitive: bool,
) -> (r: Option<&'static str>)
    ensures
        match r {
            Some(t) => duplicate_reason_spec(*existing, requested_url@, final_url@, match validators { Some(v) => Some(*v), None => None },
                target_path.spec_bytes(), case_insensitive) == Some(t@),
            None => duplicate_reason_spec(*existing, requested_url@, final_url@, match validators { Some(v) => Some(*v), None => None },
                target_path.spec_bytes(), case_insensitive) is None,
        },
{
    if urls_overlap(existing, requested_url, final_url) {
        return Some(SAME_SOURCE_REASON);
    }
    match validators {
        Some(v) => {
            if validators_match(&existing.validators, v) {
                return Some(SAME_VALIDATORS_REASON);
            }
        },
        None => {},
    }
    if target_path_matches(existing.target_path.as_str(), target_path, case_insensitive) {
        return Some(SAME_TARGET_REASON);
    }
    None
}

/// The first tracked download at or after `i` that duplicates a request, with the reason.
pub open spec fn first_duplicate_from(
    downloads: Seq<DownloadRecord>,
    requested_url: Seq<char>,
    final_url: Seq<char>,
    validators: Option<ResumeValidators>,
    target_path: Seq<u8>,
    case_insensitive: bool,
    i: int,
) -> Option<(int, Seq<char>)>
    decreases downloads.len() - i,
{
    if i < 0 || i >= downloads.len() {
        None
    } else {
        match duplicate_reason_spec(downloads[i], requested_url, final_url, validators, target_path, case_insensitive) {
            Some(reason) => Some((i, reason)),
            None => first_duplicate_from(downloads, requested_url, final_url, validators, target_path, case_insensitive, i + 1),
        }
    }
}

pub proof fn lemma_first_duplicate_bounds(
    downloads: Seq<DownloadRecord>,
    requested_url: Seq<char>,
    final_url: Seq<char>,
    validators: Option<ResumeValidators>,
    target_path: Seq<u8>,
    case_insensitive: bool,
    i: int,
)
    requires
        0 <= i,
    ensures
        first_duplicate_from(downloads, requested_url, final_url, validators, target_path, case_insensitive, i) matches Some((j, _))
            ==> i <= j < downloads.len(),
    decreases downloads.len() - i,
{
    if i < downloads.len() {
        lemma_first_duplicate_bounds(downloads, requested_url, final_url, validators, target_path, case_insensitive, i + 1);
    }
}

/// The first tracked download that duplicates a request, and why.
pub fn find_duplicate_download(
    downloads: &Vec<DownloadRecord>,
    requested_url: &str,
    final_url: &str,
    requested_validators: Option<&ResumeValidators>,
    target_path: &str,
    case_insensitive: bool,
) -> (r: Option<(usize, &'static str)>)
    ensures
        match r {
            Some((i, reason)) => first_duplicate_from(downloads@, requested_url@, final_url@,
                match requested_validators { Some(v) => Some(*v), None => None }, target_path.spec_bytes(), case_insensitive, 0)
                == Some((i as int, reason@)) && i < downloads@.len(),
            None => first_duplicate_from(downloads@, requested_url@, final_url@,
                match requested_validators { Some(v) => Some(*v), None => None }, target_path.spec_bytes(), case_insensitive, 0) is None,
        },
{
    let ghost vals = match requested_validators { Some(v) => Some(*v), None => None };
    let mut i: usize = 0;
    while i < downloads.len()
        invariant
            i <= downloads@.len(),
            vals == match requested_validators { Some(v) => Some(*v), None => None },
            first_duplicate_from(downloads@, requested_url@, final_url@, vals, target_path.spec_bytes(), case_insensitive, 0)
                == first_duplicate_from(downloads@, requested_url@, final_url@, vals, target_path.spec_bytes(), case_insensitive, i as int),
        decreases downloads@.len() - i,
    {
        match duplicate_reason(&downloads[i], requested_url, final_url, requested_validators, target_path, case_insensitive) {
            Some(reason) => { return Some((i, reason)); },
            None => {},
        }
        i = i + 1;
    }
    None
}

/// Where the probe data of a plan came from.
pub open spec fn source_warning_spec(from_cache: bool, from_live: bool) -> Seq<char> {
    if from_cache { PROBE_SOURCE_WARNING_CACHED@ } else if from_live { PROBE_SOURCE_WARNING_LIVE@ } else { PROBE_SOURCE_WARNING_FALLBACK@ }
}

pub fn append_probe_source_warning(warnings: &mut Vec<String>, has_cached_recent_probe: bool, has_live_probe: bool)
    ensures
        texts_view(*final(warnings)) == texts_view(*old(warnings)).push(source_warning_spec(has_cached_recent_probe, has_live_probe)),
{
    let text = if has_cached_recent_probe {
        PROBE_SOURCE_WARNING_CACHED
    } else if has_live_probe {
        PROBE_SOURCE_WARNING_LIVE
    } else {
        PROBE_SOURCE_WARNING_FALLBACK
    };
    warnings.push(text.to_owned());
    assert(texts_view(*warnings) =~= texts_view(*old(warnings)).push(text@));
}

pub open spec fn insufficient_space_text(available: Seq<char>, required: Seq<char>) -> Seq<char> {
    "Selected folder has "@ + available + " free but the remote file reports "@ + required + "."@
}

pub open spec fn low_space_text(available: Seq<char>) -> Seq<char> {
    "Selected folder currently has "@ + available
        + " free. Unknown-size downloads will stream with live disk-space checks and may stop early if the host keeps sending data."@
}

/// The storage warnings of a plan, with byte counts printed by `label`: one when the file is
/// larger than the free space, or, for an unknown size, when the free space is low.
pub open spec fn storage_warnings_spec<F: Fn(u64) -> String>(
    available: Option<u64>,
    required: Option<u64>,
    label: F,
    added: Seq<Seq<char>>,
) -> bool {
    match available {
        None => added.len() == 0,
        Some(a) => match required {
            Some(r) => if r > a {
                exists|la: String, lr: String| call_ensures(label, (a,), la) && call_ensures(label, (r,), lr)
                    && added == seq![insufficient_space_text(la@, lr@)]
            } else {
                added.len() == 0
            },
            None => if a <= LOW_SPACE_UNKNOWN_SIZE_WARNING_BYTES {
                exists|la: String| call_ensures(label, (a,), la) && added == seq![low_space_text(la@)]
            } else {
                added.len() == 0
            },
        },
    }
}

/// Adds the storage warning of a plan; `label` prints a byte count.
pub fn append_storage_warning<F: Fn(u64) -> String>(
    warnings: &mut Vec<String>,
    available_space: Option<u64>,
    required_size: Option<u64>,
    label: &F,
)
    requires
        forall|x: u64| call_requires(*label, (x,)),
    ensures
        exists|added: Seq<Seq<char>>| storage_warnings_spec(available_space, required_size, *label, added)
            && texts_view(*final(warnings)) == texts_view(*old(warnings)) + added,
{
    let a = match available_space {
        Some(a) => a,
        None => {
            assert(texts_view(*warnings) =~= texts_view(*warnings) + Seq::<Seq<char>>::empty());
            return;
        },
    };
    match required_size {
        Some(r) => {
            if r > a {
                let la = label(a);
                let lr = label(r);
                let mut text = String::new();
                text.append("Selected folder has ");
                text.append(la.as_str());
                text.append(" free but the remote file reports ");
                text.append(lr.as_str());
                text.append(".");
                warnings.push(text);
                assert(texts_view(*warnings) =~= texts_view(*old(warnings)) + seq![insufficient_space_text(la@, lr@)]);
            } else {
                assert(texts_view(*warnings) =~= texts_view(*warnings) + Seq::<Seq<char>>::empty());
            }
        },
        None => {
            if a <= LOW_SPACE_UNKNOWN_SIZE_WARNING_BYTES {
                let la = label(a);
                let mut text = String::new();
                text.append("Selected folder currently has ");
                text.append(la.as_str());
                text.append(" free. Unknown-size downloads will stream with live disk-space checks and may stop early if the host keeps sending data.");
                warnings.push(text);
                assert(texts_view(*warnings) =~= texts_view(*old(warnings)) + seq![low_space_text(la@)]);
            } else {
                assert(texts_view(*warnings) =~= texts_view(*warnings) + Seq::<Seq<char>>::empty());
            }
        },
    }
}

/// The request shape a plan keeps: the probe's, with the caller's referer and cookies where
/// it had none, and the caller's method and form fields where it had a plain GET.
pub open spec fn merged_compat_spec(
    base: DownloadCompatibility,
    referer: Option<String>,
    cookies: Option<String>,
    method: DownloadRequestMethod,
    fields: Seq<DownloadRequestField>,
    r: DownloadCompatibility,
) -> bool {
    let plain = base.request_method == DownloadRequestMethod::Get && base.request_form_fields@.len() == 0;
    &&& r.redirect_chain@ == base.redirect_chain@
    &&& r.filename_source == base.filename_source
    &&& r.classification == base.classification
    &&& r.wrapper_detected == base.wrapper_detected
    &&& r.direct_url_recovered == base.direct_url_recovered
    &&& r.browser_interstitial_only == base.browser_interstitial_only
    &&& r.request_referer == (if base.request_referer is None { referer } else { base.request_referer })
    &&& r.request_cookies == (if base.request_cookies is None { cookies } else { base.request_cookies })
    &&& r.request_method == (if plain { method } else { base.request_method })
    &&& r.request_form_fields@ == (if plain { fields } else { base.request_form_fields@ })
}

/// The blank request shape: a plain GET with nothing learned.
pub open spec fn blank_compat(c: DownloadCompatibility) -> bool {
    &&& c.redirect_chain@.len() == 0
    &&& c.filename_source is None
    &&& c.classification is None
    &&& !c.wrapper_detected
    &&& !c.direct_url_recovered
    &&& !c.browser_interstitial_only
    &&& c.request_referer is None
    &&& c.request_cookies is None
    &&& c.request_method == DownloadRequestMethod::Get
    &&& c.request_form_fields@.len() == 0
}

pub fn merge_probe_compatibility(
    probe_compatibility: Option<DownloadCompatibility>,
    request_referer: Option<String>,
    request_cookies: Option<String>,
    request_method: DownloadRequestMethod,
    request_form_fields: &Vec<DownloadRequestField>,
) -> (r: DownloadCompatibility)
    ensures
        match probe_compatibility {
            Some(base) => merged_compat_spec(base, request_referer, request_cookies, request_method, request_form_fields@, r),
            None => exists|base: DownloadCompatibility| blank_compat(base)
                && merged_compat_spec(base, request_referer, request_cookies, request_method, request_form_fields@, r),
        },
{
    let mut compat = match probe_compatibility {
        Some(c) => c,
        None => DownloadCompatibility {
            redirect_chain: Vec::new(),
            filename_source: None,
            classification: None,
            wrapper_detected: false,
            direct_url_recovered: false,
            browser_interstitial_only: false,
            request_referer: None,
            request_cookies: None,
            request_method: DownloadRequestMethod::Get,
            request_form_fields: Vec::new(),
        },
    };
    let ghost base = compat;
    assert(probe_compatibility is Some ==> base == probe_compatibility->0);
    if compat.request_referer.is_none() {
        compat.request_referer = request_referer;
    }
    if compat.request_cookies.is_none() {
        compat.request_cookies = request_cookies;
    }
    if compat.request_method == DownloadRequestMethod::Get && compat.request_form_fields.len() == 0 {
        compat.request_method = request_method;
        compat.request_form_fields = crate::probe_flow::copy_fields(request_form_fields);
    }
    assert(merged_compat_spec(base, request_referer, request_cookies, request_method, request_form_fields@, compat));
    assert(probe_compatibility is None ==> blank_compat(base));
    compat
}

/// What probing a request for planning gave: the probe result (live, or reused from a moment
/// ago), the final URL and the host.
#[derive(Clone, Debug)]
pub struct ProbePlanningState {
    pub now: i64,
    pub scope_key: String,
    pub request_form_fields: Vec<DownloadRequestField>,
    pub from_cache: bool,
    pub from_live: bool,
    pub probe: Option<DownloadProbeData>,
    pub final_url: String,
    pub host: String,
}

/// The planning state from a reused result or a live probe: the live result wins, the final
/// URL is the probe's (else the request's), and the host is the reused result's (else the
/// final URL's).
pub fn planning_state_from(
    url: &str,
    scope_key: String,
    request_form_fields: Vec<DownloadRequestField>,
    now: i64,
    cached: Option<RecentProbeCacheEntry>,
    live: Option<DownloadProbeData>,
) -> (r: ProbePlanningState)
    ensures
        r.now == now,
        r.scope_key == scope_key,
        r.request_form_fields == request_form_fields,
        r.from_cache == cached is Some,
        r.from_live == live is Some,
        match live {
            Some(l) => r.probe matches Some(p) && same_probe(p, l),
            None => match cached {
                Some(c) => r.probe matches Some(p) && cached_as_probe(c, p),
                None => r.probe is None,
            },
        },
        r.final_url@ == match r.probe { Some(p) => p.final_url@, None => url@ },
        r.host@ == match cached {
            Some(c) => c.host@,
            None => match crate::download_identity::url_host_spec(r.final_url@) {
                Some(h) => h,
                None => crate::download_identity::UNKNOWN_HOST@,
            },
        },
{
    let from_cache = cached.is_some();
    let from_live = live.is_some();
    let probe: Option<DownloadProbeData> = match &live {
        Some(l) => Some(copy_probe(l)),
        None => match &cached {
            Some(c) => Some(cached_probe_to_download_probe(c)),
            None => None,
        },
    };
    let final_url = match &probe {
        Some(p) => p.final_url.clone(),
        None => url.to_owned(),
    };
    let host = match &cached {
        Some(c) => c.host.clone(),
        None => crate::download_identity::extract_host(final_url.as_str()),
    };
    ProbePlanningState { now, scope_key, request_form_fields, from_cache, from_live, probe, final_url, host }
}

/// What the user asked for when adding a download.
#[derive(Clone, Debug)]
pub struct AddDownloadArgs {
    pub url: String,
    pub save_path: String,
    pub name: Option<String>,
    pub request_referer: Option<String>,
    pub request_cookies: Option<String>,
    pub request_method: DownloadRequestMethod,
    pub request_form_fields: Vec<DownloadRequestField>,
    pub scheduled_for: Option<i64>,
    pub resumable_hint: Option<bool>,
    pub range_supported_hint: Option<bool>,
    pub size_hint_bytes: Option<u64>,
    pub start_immediately: bool,
    pub category: crate::download::DownloadCategory,
}

pub open spec fn opt_probe_name(probe: Option<DownloadProbeData>) -> Option<Seq<char>> {
    match probe {
        Some(p) => Some(p.suggested_name@),
        None => None,
    }
}

/// The name of a new download: the user's name (completed with the detected extension),
/// else the probe's suggestion, else the name the final URL suggests.
pub open spec fn new_name_spec(requested: Option<String>, probe: Option<DownloadProbeData>, final_url: Seq<char>) -> Seq<char> {
    let manual = match requested {
        Some(n) => crate::download_ops::non_empty_spec(n@),
        None => None,
    };
    match manual {
        Some(m) => crate::download_identity::detected_extension_spec(m, opt_probe_name(probe)),
        None => match probe {
            Some(p) => p.suggested_name@,
            None => crate::download_identity::url_name_spec(final_url),
        },
    }
}

pub fn new_download_name(requested: &Option<String>, probe: &Option<DownloadProbeData>, final_url: &str) -> (r: String)
    ensures
        r@ == new_name_spec(*requested, *probe, final_url@),
{
    let manual = match requested {
        Some(n) => crate::download_ops::non_empty(n.clone()),
        None => None,
    };
    match manual {
        Some(m) => {
            let detected: Option<&str> = match probe {
                Some(p) => Some(p.suggested_name.as_str()),
                None => None,
            };
            crate::download_identity::apply_detected_extension(m.as_str(), detected)
        },
        None => match probe {
            Some(p) => p.suggested_name.clone(),
            None => crate::download_identity::suggested_name_from_url(final_url),
        },
    }
}

/// The size a plan assumes: the probe's, else the caller's hint, else the cached hint.
pub open spec fn planned_size_spec(probe: Option<DownloadProbeData>, hint: Option<u64>, cached: Option<crate::probe_cache::CachedProbeCapabilities>) -> Option<u64> {
    match (match probe { Some(p) => p.size, None => None }) {
        Some(v) => Some(v),
        None => match hint {
            Some(v) => Some(v),
            None => match cached { Some(c) => c.content_length_hint, None => None },
        },
    }
}

pub fn planned_size(probe: &Option<DownloadProbeData>, hint: Option<u64>, cached: &Option<crate::probe_cache::CachedProbeCapabilities>) -> (r: Option<u64>)
    ensures
        r == planned_size_spec(*probe, hint, *cached),
{
    let from_probe = match probe { Some(p) => p.size, None => None };
    match from_probe {
        Some(v) => Some(v),
        None => match hint {
            Some(v) => Some(v),
            None => match cached { Some(c) => c.content_length_hint, None => None },
        },
    }
}

/// A capability as the probe saw it, else as the caller hinted it, else as cached; false
/// when nothing is known.
pub open spec fn first_known(probed: Option<bool>, hint: Option<bool>, cached: Option<bool>) -> bool {
    match probed {
        Some(v) => v,
        None => match hint {
            Some(v) => v,
            None => match cached { Some(v) => v, None => false },
        },
    }
}

fn first_known_of(probed: Option<bool>, hint: Option<bool>, cached: Option<bool>) -> (r: bool)
    ensures
        r == first_known(probed, hint, cached),
{
    match probed {
        Some(v) => v,
        None => match hint {
            Some(v) => v,
            None => match cached { Some(v) => v, None => false },
        },
    }
}

pub const PROBE_UNAVAILABLE_CACHED_WARNING: &'static str = "Network probe unavailable; using fresh host capability cache.";
pub const PROBE_UNAVAILABLE_LOCAL_WARNING: &'static str = "Network probe unavailable; planning with local hints only.";

/// The warnings of a new download before its storage warning: the probe's own, where the
/// metadata came from, the host's warning, the cache's, and a note when no probe answered.
pub open spec fn add_warnings_spec(
    probe: Option<DownloadProbeData>,
    from_cache: bool,
    from_live: bool,
    profile: Option<crate::model::HostProfile>,
    key: Seq<char>,
    cached: Option<crate::probe_cache::CachedProbeCapabilities>,
    now: i64,
) -> Seq<Seq<char>> {
    let base = match probe { Some(p) => crate::registry::strings_view(p.warnings@), None => Seq::empty() };
    let w1 = base.push(source_warning_spec(from_cache, from_live));
    let w2 = match crate::host_planner::opt_warning_spec(profile, Some(key), now) { Some(w) => w1.push(w), None => w1 };
    let w3 = w2 + crate::probe_cache::cache_warnings_spec(profile, key, cached, now);
    if probe is None {
        w3.push(if cached is Some { PROBE_UNAVAILABLE_CACHED_WARNING@ } else { PROBE_UNAVAILABLE_LOCAL_WARNING@ })
    } else {
        w3
    }
}

/// The log line about where a new download's metadata came from.
pub open spec fn probe_log_spec(from_cache: bool, has_probe: bool) -> (Seq<char>, Seq<char>) {
    if from_cache {
        ("probe.cache-hit"@, "Reused a fresh probe result while creating the download."@)
    } else if has_probe {
        ("probe.resolved"@, "Collected live metadata before creating the download."@)
    } else {
        ("probe.unavailable"@, "Created the download without live probe metadata; runtime will recover details later."@)
    }
}

pub open spec fn segment_plan_message(connections: u32, segments: nat) -> Seq<char> {
    "Planned "@ + crate::text::decimal_spec(connections as nat) + " initial connections across "@
        + crate::text::decimal_spec(segments) + " segments."@
}

pub const SINGLE_STREAM_LOG: &'static str = "Planned guarded single-stream startup for this request shape.";
pub const SCHEDULED_LOG: &'static str = "Scheduled this download to start automatically at the selected time.";
pub const RUNTIME_NOTE: &'static str = "Runtime worker orchestration enabled.";
pub const DEFAULT_QUEUE: &'static str = "default";

/// The log of a new download: where its metadata came from, how it will transfer, and its
/// schedule.
pub open spec fn new_log_spec(from_cache: bool, has_probe: bool, segmented: bool, connections: u32, segments: nat, scheduled: bool, now: i64)
    -> Seq<(i64, crate::download::DownloadLogLevel, Seq<char>, Seq<char>)>
{
    let info = crate::download::DownloadLogLevel::Info;
    let (code, message) = probe_log_spec(from_cache, has_probe);
    let l1 = crate::download_ops::log_append_spec(Seq::empty(), info, code, message, now);
    let l2 = if segmented {
        crate::download_ops::log_append_spec(l1, info, "transfer.segment-plan"@, segment_plan_message(connections, segments), now)
    } else {
        crate::download_ops::log_append_spec(l1, info, "transfer.single-stream"@, SINGLE_STREAM_LOG@, now)
    };
    if scheduled { crate::download_ops::log_append_spec(l2, info, "queue.scheduled"@, SCHEDULED_LOG@, now) } else { l2 }
}

/// The blank validators.
pub open spec fn no_validators() -> ResumeValidators {
    ResumeValidators { etag: None, last_modified: None, content_length: None, content_type: None, content_disposition: None }
}

/// The integrity state of a download with nothing to check.
pub open spec fn no_integrity() -> crate::download::DownloadIntegrity {
    crate::download::DownloadIntegrity {
        expected: None,
        actual: None,
        checked_at: None,
        state: crate::download::IntegrityState::NoChecksum,
        message: None,
    }
}

/// The transfer plan of a new download: capabilities as probed, hinted or cached, kept only
/// when the request can be replayed per range; the starting connections and the segments
/// for a sized, resumable, range-capable download that warrants more than one connection.
pub open spec fn transfer_plan_spec(
    probe: Option<DownloadProbeData>,
    args: AddDownloadArgs,
    cached: Option<crate::probe_cache::CachedProbeCapabilities>,
    shape_ok: bool,
    size: Option<u64>,
    max_connections: u32,
    settings: crate::model::EngineSettings,
    profile: Option<crate::model::HostProfile>,
    key: Seq<char>,
    now: i64,
    caps: crate::download::DownloadCapabilities,
    connections: u32,
    segments: Seq<crate::model::DownloadSegment>,
) -> bool {
    let range = first_known(match probe { Some(p) => Some(p.range_supported), None => None }, args.range_supported_hint,
        match cached { Some(c) => c.range_supported, None => None }) && shape_ok;
    let resumable = first_known(match probe { Some(p) => Some(p.resumable), None => None }, args.resumable_hint,
        match cached { Some(c) => c.resumable, None => None }) && shape_ok;
    let sized = match size { Some(v) => v > 0, None => false };
    let preferred = if range && resumable && sized {
        crate::host_planner::initial_target_spec(max_connections as int, settings, profile, Some(key), size, now)
    } else {
        1
    };
    let segmented = range && resumable && sized && preferred > 1;
    &&& connections == (if segmented { preferred } else { 1 })
    &&& segments == (if segmented {
        crate::download_plan::segment_plan_spec(size->0, connections, settings,
            crate::host_planner::average_throughput_spec(profile, Some(key)), crate::host_planner::average_ttfb_spec(profile, Some(key)))
    } else {
        Seq::empty()
    })
    &&& caps == (crate::download::DownloadCapabilities { range_supported: range, resumable, segmented: segmented && segments.len() > 0 })
}

/// What a new download plan reads from its host profile: the fresh cached capabilities.
pub open spec fn plan_cached(profile: Option<crate::model::HostProfile>, key: Seq<char>, now: i64) -> Option<crate::probe_cache::CachedProbeCapabilities> {
    match profile { Some(p) => crate::probe_cache::profile_caps_spec(p, key, now), None => None }
}

/// The identity, state and place of a new download.
pub open spec fn record_basics_spec(
    d: DownloadRecord,
    old_next_id: u64,
    args: AddDownloadArgs,
    url: Seq<char>,
    save_path: Seq<char>,
    planning: ProbePlanningState,
    settings: crate::model::EngineSettings,
    size: Option<u64>,
    downloads: Seq<DownloadRecord>,
) -> bool {
    let now = planning.now;
    let scheduled = match args.scheduled_for { Some(v) => if v > now { Some(v) } else { None }, None => None };
    &&& d.id@ == "download-"@ + crate::text::decimal_spec(old_next_id as nat)
    &&& d.name@ == new_name_spec(args.name, planning.probe, planning.final_url@)
    &&& d.url@ == url
    &&& d.final_url@ == planning.final_url@
    &&& d.host@ == planning.host@
    &&& d.size == match size { Some(v) => if v > i64::MAX { i64::MAX } else { v as i64 }, None => -1i64 }
    &&& d.downloaded == 0
    &&& d.status == (if args.start_immediately || scheduled is Some { DownloadStatus::Queued } else { DownloadStatus::Stopped })
    &&& d.manual_start_requested == (args.start_immediately && scheduled is None)
    &&& d.category == args.category
    &&& d.speed == 0
    &&& d.time_left is None
    &&& d.date_added == now
    &&& d.save_path@ == save_path
    &&& d.temp_path@ == d.target_path@ + ".part"@
    &&& d.queue@ == DEFAULT_QUEUE@
    &&& d.scheduled_for == scheduled
    &&& d.queue_position == crate::host_planner::sat_add_u32(crate::download_ops::max_position(downloads, downloads.len() as int) as int, 1)
    &&& d.traffic_mode == settings.traffic_mode
    &&& d.speed_limit_bytes_per_second is None
    &&& !d.open_folder_on_completion
    &&& d.error_message is None
    &&& !d.writer_backpressure
    &&& d.runtime_checkpoint.segment_samples@.len() == 0
    &&& d.runtime_checkpoint.active_races@.len() == 0
    &&& d.integrity == no_integrity()
}

/// The request a new download replays and what it learned from the probe.
pub open spec fn record_request_spec(d: DownloadRecord, args: AddDownloadArgs, planning: ProbePlanningState, profile: Option<crate::model::HostProfile>) -> bool {
    let probe = planning.probe;
    &&& opt_text(d.host_protocol) == match (match probe { Some(p) => p.negotiated_protocol, None => None }) {
        Some(v) => Some(v@),
        None => match profile { Some(p) => opt_text(p.negotiated_protocol), None => None },
    }
    &&& d.content_type == match probe { Some(p) => p.mime_type, None => None }
    &&& d.validators == match probe { Some(p) => p.validators, None => no_validators() }
    &&& match probe {
        Some(p) => merged_compat_spec(p.compatibility, args.request_referer, args.request_cookies, args.request_method,
            planning.request_form_fields@, d.compatibility),
        None => exists|base: DownloadCompatibility| blank_compat(base) && merged_compat_spec(base, args.request_referer,
            args.request_cookies, args.request_method, planning.request_form_fields@, d.compatibility),
    }
}

/// The diagnostics of a new download: its warnings (those of the plan, the storage warning,
/// and the replay warning when the request cannot be split), the runtime note, nothing else.
pub open spec fn record_diagnostics_spec<F: Fn(u64) -> String>(
    d: DownloadRecord,
    planning: ProbePlanningState,
    profile: Option<crate::model::HostProfile>,
    size: Option<u64>,
    available_space: Option<u64>,
    label: F,
) -> bool {
    let now = planning.now;
    let key = planning.scope_key@;
    let cached = plan_cached(profile, key, now);
    let shape_ok = crate::http_helpers::segmented_shape_spec(d.compatibility.request_method, d.compatibility.request_form_fields@.len() as int);
    let warnings = add_warnings_spec(planning.probe, planning.from_cache, planning.from_live, profile, key, cached, now);
    &&& exists|storage: Seq<Seq<char>>| storage_warnings_spec(available_space, size, label, storage)
        && texts_view(d.diagnostics.warnings) == warnings + storage + (if shape_ok { Seq::empty() } else { seq![EXACT_REPLAY_WARNING@] })
    &&& texts_view(d.diagnostics.notes) == seq![RUNTIME_NOTE@]
    &&& d.diagnostics.failure_kind is None
    &&& !d.diagnostics.restart_required
    &&& d.diagnostics.terminal_reason is None
    &&& d.diagnostics.checkpoint_flushes == 0 && d.diagnostics.checkpoint_skips == 0
    &&& d.diagnostics.checkpoint_avg_flush_ms == 0 && d.diagnostics.checkpoint_last_flush_ms == 0
    &&& d.diagnostics.checkpoint_disk_pressure_events == 0 && d.diagnostics.contiguous_fsync_flushes == 0
    &&& d.diagnostics.contiguous_fsync_window_bytes == 0
}

/// A new download as created, before its host profile is applied.
pub open spec fn new_record_spec<F: Fn(u64) -> String>(
    d: DownloadRecord,
    old_next_id: u64,
    args: AddDownloadArgs,
    url: Seq<char>,
    save_path: Seq<char>,
    planning: ProbePlanningState,
    settings: crate::model::EngineSettings,
    profile: Option<crate::model::HostProfile>,
    downloads: Seq<DownloadRecord>,
    available_space: Option<u64>,
    label: F,
) -> bool {
    let now = planning.now;
    let key = planning.scope_key@;
    let cached = plan_cached(profile, key, now);
    let size = planned_size_spec(planning.probe, args.size_hint_bytes, cached);
    let shape_ok = crate::http_helpers::segmented_shape_spec(d.compatibility.request_method, d.compatibility.request_form_fields@.len() as int);
    let scheduled = match args.scheduled_for { Some(v) => v > now, None => false };
    &&& record_basics_spec(d, old_next_id, args, url, save_path, planning, settings, size, downloads)
    &&& record_request_spec(d, args, planning, profile)
    &&& record_diagnostics_spec(d, planning, profile, size, available_space, label)
    &&& transfer_plan_spec(planning.probe, args, cached, shape_ok, size,
        crate::host_planner::connection_target_spec(16, settings, profile, Some(key), now) as u32,
        settings, profile, key, now, d.capabilities, d.target_connections, d.segments@)
    &&& crate::download_ops::log_view(d.engine_log@) == new_log_spec(planning.from_cache, planning.probe is Some,
        d.capabilities.segmented, d.target_connections, d.segments@.len(), scheduled, now)
}

fn warnings_for_plan(
    planning: &ProbePlanningState,
    profile: Option<&crate::model::HostProfile>,
    cached: &Option<crate::probe_cache::CachedProbeCapabilities>,
) -> (r: Vec<String>)
    ensures
        texts_view(r) == add_warnings_spec(planning.probe, planning.from_cache, planning.from_live,
            crate::host_planner::opt_profile(profile), planning.scope_key@, *cached, planning.now),
{
    let now = planning.now;
    let mut warnings: Vec<String> = match &planning.probe {
        Some(p) => {
            let w = crate::registry::copy_strings_pub(&p.warnings);
            assert(texts_view(w) =~= crate::registry::strings_view(p.warnings@));
            w
        },
        None => {
            let w: Vec<String> = Vec::new();
            assert(texts_view(w) =~= Seq::<Seq<char>>::empty());
            w
        },
    };
    append_probe_source_warning(&mut warnings, planning.from_cache, planning.from_live);
    match crate::host_planner::profile_warning_at(profile, Some(planning.scope_key.as_str()), now) {
        Some(w) => {
            let ghost before = texts_view(warnings);
            warnings.push(w);
            assert(texts_view(warnings) =~= before.push(w@));
        },
        None => {},
    }
    let cached_ref: Option<&crate::probe_cache::CachedProbeCapabilities> = match cached {
        Some(c) => Some(c),
        None => None,
    };
    crate::probe_cache::append_probe_cache_warning(&mut warnings, profile, planning.scope_key.as_str(), cached_ref, now);
    if planning.probe.is_none() {
        let ghost before = texts_view(warnings);
        let text = if cached.is_some() { PROBE_UNAVAILABLE_CACHED_WARNING } else { PROBE_UNAVAILABLE_LOCAL_WARNING };
        warnings.push(text.to_owned());
        assert(texts_view(warnings) =~= before.push(text@));
    }
    warnings
}

/// The capabilities, connections and segments a new download starts with.
fn plan_transfer(
    planning: &ProbePlanningState,
    args: &AddDownloadArgs,
    cached: &Option<crate::probe_cache::CachedProbeCapabilities>,
    shape_ok: bool,
    size: Option<u64>,
    max_connections: u32,
    settings: &crate::model::EngineSettings,
    profile: Option<&crate::model::HostProfile>,
) -> (r: (crate::download::DownloadCapabilities, u32, Vec<crate::model::DownloadSegment>))
    ensures
        transfer_plan_spec(planning.probe, *args, *cached, shape_ok, size, max_connections, *settings,
            crate::host_planner::opt_profile(profile), planning.scope_key@, planning.now, r.0, r.1, r.2@),
{
    let now = planning.now;
    let key = planning.scope_key.as_str();
    let probed_range = match &planning.probe { Some(p) => Some(p.range_supported), None => None };
    let probed_resumable = match &planning.probe { Some(p) => Some(p.resumable), None => None };
    let cached_range = match cached { Some(c) => c.range_supported, None => None };
    let cached_resumable = match cached { Some(c) => c.resumable, None => None };
    let range = first_known_of(probed_range, args.range_supported_hint, cached_range) && shape_ok;
    let resumable = first_known_of(probed_resumable, args.resumable_hint, cached_resumable) && shape_ok;
    let sized = match size { Some(v) => v > 0, None => false };
    let preferred = if range && resumable && sized {
        crate::host_planner::initial_target_at(max_connections, settings, profile, Some(key), size, now)
    } else {
        1
    };
    let segmented_mode = range && resumable && sized && preferred > 1;
    let connections = if segmented_mode { preferred } else { 1 };
    let segments: Vec<crate::model::DownloadSegment> = if segmented_mode {
        let planned = match size { Some(v) => v, None => 0 };
        crate::download_plan::build_segment_plan(planned, connections, settings,
            crate::host_planner::effective_average_throughput_bytes_per_second(profile, Some(key)),
            crate::host_planner::effective_average_ttfb_ms(profile, Some(key)))
    } else {
        Vec::new()
    };
    let segmented = segmented_mode && segments.len() > 0;
    (crate::download::DownloadCapabilities { range_supported: range, resumable, segmented }, connections, segments)
}

/// The request shape a new download replays.
fn plan_compatibility(planning: &ProbePlanningState, args: &AddDownloadArgs) -> (r: DownloadCompatibility)
    ensures
        match planning.probe {
            Some(p) => merged_compat_spec(p.compatibility, args.request_referer, args.request_cookies, args.request_method,
                planning.request_form_fields@, r),
            None => exists|base: DownloadCompatibility| blank_compat(base) && merged_compat_spec(base, args.request_referer,
                args.request_cookies, args.request_method, planning.request_form_fields@, r),
        },
{
    let probe_compat: Option<DownloadCompatibility> = match &planning.probe {
        Some(p) => Some(copy_compatibility(&p.compatibility)),
        None => None,
    };
    let ghost pc = probe_compat;
    let r = merge_probe_compatibility(probe_compat, copy_opt_string(&args.request_referer),
        copy_opt_string(&args.request_cookies), args.request_method, &planning.request_form_fields);
    proof {
        if planning.probe is Some {
            assert(same_compat(pc->0, planning.probe->0.compatibility));
        }
    }
    r
}

/// The diagnostics a new download starts with.
fn plan_diagnostics<F: Fn(u64) -> String>(
    planning: &ProbePlanningState,
    profile: Option<&crate::model::HostProfile>,
    cached: &Option<crate::probe_cache::CachedProbeCapabilities>,
    size: Option<u64>,
    available_space: Option<u64>,
    shape_ok: bool,
    label: &F,
) -> (r: crate::download::DownloadDiagnostics)
    requires
        forall|x: u64| call_requires(*label, (x,)),
        *cached == plan_cached(crate::host_planner::opt_profile(profile), planning.scope_key@, planning.now),
    ensures
        exists|storage: Seq<Seq<char>>| storage_warnings_spec(available_space, size, *label, storage)
            && texts_view(r.warnings) == add_warnings_spec(planning.probe, planning.from_cache, planning.from_live,
                crate::host_planner::opt_profile(profile), planning.scope_key@, *cached, planning.now) + storage
                + (if shape_ok { Seq::empty() } else { seq![EXACT_REPLAY_WARNING@] }),
        texts_view(r.notes) == seq![RUNTIME_NOTE@],
        r.failure_kind is None,
        !r.restart_required,
        r.terminal_reason is None,
        r.checkpoint_flushes == 0 && r.checkpoint_skips == 0,
        r.checkpoint_avg_flush_ms == 0 && r.checkpoint_last_flush_ms == 0,
        r.checkpoint_disk_pressure_events == 0 && r.contiguous_fsync_flushes == 0,
        r.contiguous_fsync_window_bytes == 0,
{
    let mut warnings = warnings_for_plan(planning, profile, cached);
    append_storage_warning(&mut warnings, available_space, size, label);
    let ghost w1 = texts_view(warnings);
    if !shape_ok {
        warnings.push(EXACT_REPLAY_WARNING.to_owned());
        assert(texts_view(warnings) =~= w1 + seq![EXACT_REPLAY_WARNING@]);
    } else {
        assert(texts_view(warnings) =~= w1 + Seq::<Seq<char>>::empty());
    }
    let mut notes: Vec<String> = Vec::new();
    notes.push(RUNTIME_NOTE.to_owned());
    assert(texts_view(notes) =~= seq![RUNTIME_NOTE@]);
    crate::download::DownloadDiagnostics {
        warnings,
        notes,
        failure_kind: None,
        restart_required: false,
        terminal_reason: None,
        checkpoint_flushes: 0,
        checkpoint_skips: 0,
        checkpoint_avg_flush_ms: 0,
        checkpoint_last_flush_ms: 0,
        checkpoint_disk_pressure_events: 0,
        contiguous_fsync_flushes: 0,
        contiguous_fsync_window_bytes: 0,
    }
}

/// The creation log of a new download.
fn creation_log(from_cache: bool, has_probe: bool, segmented: bool, connections: u32, segment_count: usize, scheduled: bool, now: i64)
    -> (r: Vec<crate::download::DownloadLogEntry>)
    ensures
        crate::download_ops::log_view(r@) == new_log_spec(from_cache, has_probe, segmented, connections, segment_count as nat, scheduled, now),
{
    let mut log: Vec<crate::download::DownloadLogEntry> = Vec::new();
    assert(crate::download_ops::log_view(log@) =~= Seq::empty());
    let info = crate::download::DownloadLogLevel::Info;
    if from_cache {
        crate::download_ops::append_log_line(&mut log, info, "probe.cache-hit",
            "Reused a fresh probe result while creating the download.", now);
    } else if has_probe {
        crate::download_ops::append_log_line(&mut log, info, "probe.resolved",
            "Collected live metadata before creating the download.", now);
    } else {
        crate::download_ops::append_log_line(&mut log, info, "probe.unavailable",
            "Created the download without live probe metadata; runtime will recover details later.", now);
    }
    if segmented {
        let mut message = String::new();
        message.append("Planned ");
        crate::text::push_decimal(&mut message, connections as u64);
        message.append(" initial connections across ");
        crate::text::push_decimal(&mut message, segment_count as u64);
        message.append(" segments.");
        assert(message@ =~= segment_plan_message(connections, segment_count as nat));
        crate::download_ops::append_log_line(&mut log, info, "transfer.segment-plan", message.as_str(), now);
    } else {
        crate::download_ops::append_log_line(&mut log, info, "transfer.single-stream", SINGLE_STREAM_LOG, now);
    }
    if scheduled {
        crate::download_ops::append_log_line(&mut log, info, "queue.scheduled", SCHEDULED_LOG, now);
    }
    log
}

#[verifier::rlimit(40)]
fn initial_record<F: Fn(u64) -> String>(
    id: String,
    name: String,
    target_path: String,
    args: &AddDownloadArgs,
    url: &str,
    save_path: &str,
    planning: &ProbePlanningState,
    settings: &crate::model::EngineSettings,
    profile: Option<&crate::model::HostProfile>,
    downloads: &Vec<DownloadRecord>,
    available_space: Option<u64>,
    label: &F,
    Ghost(old_next_id): Ghost<u64>,
) -> (r: DownloadRecord)
    requires
        id@ == "download-"@ + crate::text::decimal_spec(old_next_id as nat),
        name@ == new_name_spec(args.name, planning.probe, planning.final_url@),
        forall|x: u64| call_requires(*label, (x,)),
    ensures
        r.target_path == target_path,
        new_record_spec(r, old_next_id, *args, url@, save_path@, *planning, *settings,
            crate::host_planner::opt_profile(profile), downloads@, available_space, *label),
{
    let now = planning.now;
    let key = planning.scope_key.as_str();
    let cached: Option<crate::probe_cache::CachedProbeCapabilities> = match profile {
        Some(p) => crate::probe_cache::fresh_probe_capabilities(p, key, now),
        None => None,
    };
    let size = planned_size(&planning.probe, args.size_hint_bytes, &cached);
    let max_connections = crate::host_planner::connection_target_at(16, settings, profile, Some(key), now);
    let compatibility = plan_compatibility(planning, args);
    let shape_ok = crate::http_helpers::request_context_supports_segmented_transfer(&compatibility.request_method,
        compatibility.request_form_fields.as_slice());
    let (capabilities, connections, segments) =
        plan_transfer(planning, args, &cached, shape_ok, size, max_connections, settings, profile);
    let diagnostics = plan_diagnostics(planning, profile, &cached, size, available_space, shape_ok, label);
    let scheduled_for = normalize_scheduled_for_at(args.scheduled_for, now);
    let record_size: i64 = match size {
        Some(v) => if v > 9223372036854775807u64 { i64::MAX } else { v as i64 },
        None => -1,
    };
    let host_protocol = match &planning.probe {
        Some(p) => match &p.negotiated_protocol {
            Some(v) => Some(v.clone()),
            None => match profile { Some(hp) => copy_opt_string(&hp.negotiated_protocol), None => None },
        },
        None => match profile { Some(hp) => copy_opt_string(&hp.negotiated_protocol), None => None },
    };
    let validators = match &planning.probe {
        Some(p) => crate::registry::copy_validators(&p.validators),
        None => ResumeValidators::default(),
    };
    let content_type = match &planning.probe { Some(p) => copy_opt_string(&p.mime_type), None => None };
    let mut temp_path = target_path.clone();
    temp_path.append(".part");
    let queue_position = crate::download_ops::next_queue_position(downloads);
    let mut record = DownloadRecord {
        id,
        name,
        url: url.to_owned(),
        final_url: planning.final_url.clone(),
        host: planning.host.clone(),
        size: record_size,
        downloaded: 0,
        status: if args.start_immediately || scheduled_for.is_some() { DownloadStatus::Queued } else { DownloadStatus::Stopped },
        manual_start_requested: args.start_immediately && scheduled_for.is_none(),
        category: args.category,
        speed: 0,
        time_left: None,
        date_added: now,
        save_path: save_path.to_owned(),
        temp_path,
        target_path,
        queue: DEFAULT_QUEUE.to_owned(),
        scheduled_for,
        queue_position,
        max_connections,
        host_max_connections: match profile { Some(hp) => hp.max_connections, None => None },
        host_cooldown_until: match profile { Some(hp) => hp.cooldown_until, None => None },
        host_average_ttfb_ms: crate::host_planner::effective_average_ttfb_ms(profile, Some(key)),
        host_average_throughput_bytes_per_second: crate::host_planner::effective_average_throughput_bytes_per_second(profile, Some(key)),
        host_protocol,
        host_diagnostics: crate::host_planner::host_diagnostics_summary_at(profile, Some(key), now),
        traffic_mode: settings.traffic_mode,
        speed_limit_bytes_per_second: None,
        open_folder_on_completion: false,
        error_message: None,
        content_type,
        capabilities,
        validators,
        compatibility,
        diagnostics,
        segments,
        target_connections: connections,
        writer_backpressure: false,
        engine_log: Vec::new(),
        runtime_checkpoint: crate::download::DownloadRuntimeCheckpoint::default(),
        integrity: crate::download::DownloadIntegrity {
            expected: None,
            actual: None,
            checked_at: None,
            state: crate::download::IntegrityState::NoChecksum,
            message: None,
        },
    };
    record.engine_log = creation_log(planning.from_cache, planning.probe.is_some(), record.capabilities.segmented,
        record.target_connections, record.segments.len(), record.scheduled_for.is_some(), now);
    proof {
        let prof = crate::host_planner::opt_profile(profile);
        assert(record_basics_spec(record, old_next_id, *args, url@, save_path@, *planning, *settings, size, downloads@));
        assert(record_request_spec(record, *args, *planning, prof));
        assert(record_diagnostics_spec(record, *planning, prof, size, available_space, *label));
    }
    record
}

pub open spec fn probe_validators(probe: Option<DownloadProbeData>) -> Option<ResumeValidators> {
    match probe {
        Some(p) => Some(p.validators),
        None => None,
    }
}

/// What planning a new download whose file goes to `target` gives: a refusal naming the
/// first tracked download it duplicates (by URL, validators or that target path), else the
/// new record at `target`, brought in line with its host profile.
pub open spec fn new_download_outcome<F: Fn(u64) -> String>(
    before: crate::registry::RegistrySnapshot,
    after: crate::registry::RegistrySnapshot,
    args: AddDownloadArgs,
    url: Seq<char>,
    save_path: Seq<char>,
    target: Seq<char>,
    planning: ProbePlanningState,
    available_space: Option<u64>,
    paths_case_insensitive: bool,
    label: F,
    r: Result<DownloadRecord, String>,
) -> bool {
    let dup = first_duplicate_from(before.downloads@, url, planning.final_url@, probe_validators(planning.probe),
        vstd::utf8::encode_utf8(target), paths_case_insensitive, 0);
    match r {
        Err(m) => match dup {
            Some((i, reason)) => m@ == duplicate_message_spec(before.downloads@[i], reason),
            None => false,
        },
        Ok(d) => {
            let profile = crate::registry::profile_of(after.host_profiles@, planning.host@);
            &&& dup is None
            &&& d.target_path@ == target
            &&& exists|pre: DownloadRecord| pre.target_path@ == target
                && new_record_spec(pre, before.next_id, args, url, save_path, planning, before.settings,
                    profile, before.downloads@, available_space, label)
                && crate::download_plan::host_profile_applied(pre, d, before.settings, profile, planning.now)
        },
    }
}

/// The registry after planning a new download: it learned from the probe and handed out
/// the next id.
pub open spec fn new_download_registry(before: crate::registry::RegistrySnapshot, after: crate::registry::RegistrySnapshot,
    planning: ProbePlanningState) -> bool
{
    crate::registry::probe_learning_spec(
        crate::registry::RegistrySnapshot {
            next_id: (if before.next_id == u64::MAX { u64::MAX } else { (before.next_id + 1) as u64 }),
            ..before
        },
        after, planning.host@, planning.scope_key@, planning.probe, planning.from_live, planning.now)
}

/// Plans a new download whose file goes to `target_path`: the registry learns from the probe
/// and hands out the next id; a request that duplicates a tracked download (by URL,
/// validators or that target path) is refused with the reason; otherwise the new record is
/// created at that path and brought in line with its host profile. `label` prints byte
/// counts for storage warnings; `paths_case_insensitive` says whether target paths compare
/// ignoring case.
pub fn build_new_download_at<F: Fn(u64) -> String>(
    registry: &mut crate::registry::RegistrySnapshot,
    args: &AddDownloadArgs,
    url: &str,
    save_path: &str,
    target_path: &str,
    planning: &ProbePlanningState,
    available_space: Option<u64>,
    paths_case_insensitive: bool,
    label: &F,
) -> (r: Result<DownloadRecord, String>)
    requires
        forall|x: u64| call_requires(*label, (x,)),
    ensures
        new_download_registry(*old(registry), *final(registry), *planning),
        new_download_outcome(*old(registry), *final(registry), *args, url@, save_path@, target_path@, *planning,
            available_space, paths_case_insensitive, *label, r),
{
    let now = planning.now;
    let old_next_id = registry.next_id;
    let name = new_download_name(&args.name, &planning.probe, planning.final_url.as_str());
    let mut id = String::new();
    id.append("download-");
    crate::text::push_decimal(&mut id, old_next_id);
    registry.next_id = if old_next_id == u64::MAX { u64::MAX } else { old_next_id + 1 };
    let probe_ref: Option<&DownloadProbeData> = match &planning.probe { Some(p) => Some(p), None => None };
    crate::registry::apply_probe_learning(registry, planning.host.as_str(), planning.scope_key.as_str(), probe_ref,
        planning.from_live, now);
    let settings = crate::app_update::copy_settings(&registry.settings);
    let validators_ref: Option<&ResumeValidators> = match &planning.probe { Some(p) => Some(&p.validators), None => None };
    match find_duplicate_download(&registry.downloads, url, planning.final_url.as_str(), validators_ref,
        target_path, paths_case_insensitive) {
        Some((i, reason)) => {
            let message = duplicate_download_message(&registry.downloads[i], reason);
            return Err(message);
        },
        None => {},
    }
    let profile = crate::registry::host_profile(registry, planning.host.as_str());
    let mut record = initial_record(id, name, target_path.to_owned(), args, url, save_path, planning, &settings, profile,
        &registry.downloads, available_space, label, Ghost(old_next_id));
    let ghost pre = record;
    crate::download_plan::apply_download_host_profile_at(&mut record, &settings, profile, now);
    Ok(record)
}

/// Plans a new download whose file goes under `save_path` with the download's name (as
/// `build_new_download_at`, the target path being the name pushed onto the save path).
pub fn build_new_download<F: Fn(u64) -> String>(
    registry: &mut crate::registry::RegistrySnapshot,
    args: &AddDownloadArgs,
    url: &str,
    save_path: &str,
    planning: &ProbePlanningState,
    available_space: Option<u64>,
    paths_case_insensitive: bool,
    label: &F,
) -> (r: Result<DownloadRecord, String>)
    requires
        forall|x: u64| call_requires(*label, (x,)),
    ensures
        new_download_registry(*old(registry), *final(registry), *planning),
        exists|target: String| #[trigger] new_download_outcome(*old(registry), *final(registry), *args, url@, save_path@, target@,
            *planning, available_space, paths_case_insensitive, *label, r)
            && (crate::download_identity::plain_file_name(new_name_spec(args.name, planning.probe, planning.final_url@))
                && crate::download_identity::plain_base(save_path@)
                ==> crate::download_identity::joined_under(target@, save_path@, new_name_spec(args.name, planning.probe, planning.final_url@))),
{
    let name = new_download_name(&args.name, &planning.probe, planning.final_url.as_str());
    let target_path = crate::download_identity::join_target_path(save_path, name.as_str());
    let r = build_new_download_at(registry, args, url, save_path, target_path.as_str(), planning, available_space,
        paths_case_insensitive, label);
    assert(new_download_outcome(*old(registry), *registry, *args, url@, save_path@, target_path@,
        *planning, available_space, paths_case_insensitive, *label, r));
    r
}

pub open spec fn empty_url_message() -> Seq<char> {
    "Download URL cannot be empty."@
}

pub open spec fn empty_save_path_message() -> Seq<char> {
    "Save path cannot be empty."@
}

/// The URL and save path of a new download, trimmed; neither may be blank.
pub fn add_download_inputs(url: String, save_path: String) -> (r: Result<(String, String), String>)
    ensures
        match crate::download_ops::non_empty_spec(url@) {
            None => r matches Err(m) && m@ == empty_url_message(),
            Some(u) => match crate::download_ops::non_empty_spec(save_path@) {
                None => r matches Err(m) && m@ == empty_save_path_message(),
                Some(p) => r matches Ok((a, b)) && a@ == u && b@ == p,
            },
        },
{
    let ghost sv = save_path@;
    let u = match crate::download_ops::non_empty(url) {
        Some(u) => u,
        None => { return Err("Download URL cannot be empty.".to_string()); },
    };
    let p = match crate::download_ops::non_empty(save_path) {
        Some(p) => p,
        None => { return Err("Save path cannot be empty.".to_string()); },
    };
    Ok((u, p))
}

/// Adds a newly built download to the registry and renumbers the queue.
pub fn insert_new_download(registry: &mut crate::registry::RegistrySnapshot, record: DownloadRecord)
    ensures
        crate::queue_ops::renumbered(old(registry).downloads@.push(record), final(registry).downloads@),
        *final(registry) == (crate::registry::RegistrySnapshot { downloads: final(registry).downloads, ..*old(registry) }),
{
    registry.downloads.push(record);
    let ghost pushed = registry.downloads@;
    crate::download_ops::normalize_queue_positions(&mut registry.downloads);
    assert(crate::queue_ops::renumbered(pushed, registry.downloads@));
}


/// A request whose target path is that of a tracked download (byte for byte, or ignoring
/// ASCII case on a file system that ignores case) is always a duplicate: some tracked
/// download at or before that one is reported, and when nothing earlier matches and the
/// sources and validators differ, the reason is the shared target file.
pub proof fn lemma_same_target_is_duplicate(
    downloads: Seq<DownloadRecord>,
    requested_url: Seq<char>,
    final_url: Seq<char>,
    validators: Option<ResumeValidators>,
    target_path: Seq<u8>,
    case_insensitive: bool,
    k: int,
)
    requires
        0 <= k < downloads.len(),
        vstd::utf8::encode_utf8(downloads[k].target_path@) == target_path
            || (case_insensitive && crate::text::lower_seq(vstd::utf8::encode_utf8(downloads[k].target_path@))
                == crate::text::lower_seq(target_path)),
    ensures
        first_duplicate_from(downloads, requested_url, final_url, validators, target_path, case_insensitive, 0)
            matches Some((j, reason)) && 0 <= j <= k
            && (j == k && !urls_overlap_spec(downloads[k], requested_url, final_url)
                && !(validators matches Some(v) && validators_match_spec(downloads[k].validators, v))
                ==> reason == SAME_TARGET_REASON@),
{
    lemma_same_target_from(downloads, requested_url, final_url, validators, target_path, case_insensitive, k, 0);
}

proof fn lemma_same_target_from(
    downloads: Seq<DownloadRecord>,
    requested_url: Seq<char>,
    final_url: Seq<char>,
    validators: Option<ResumeValidators>,
    target_path: Seq<u8>,
    case_insensitive: bool,
    k: int,
    i: int,
)
    requires
        0 <= i <= k < downloads.len(),
        vstd::utf8::encode_utf8(downloads[k].target_path@) == target_path
            || (case_insensitive && crate::text::lower_seq(vstd::utf8::encode_utf8(downloads[k].target_path@))
                == crate::text::lower_seq(target_path)),
    ensures
        first_duplicate_from(downloads, requested_url, final_url, validators, target_path, case_insensitive, i)
            matches Some((j, reason)) && i <= j <= k
            && (j == k && !urls_overlap_spec(downloads[k], requested_url, final_url)
                && !(validators matches Some(v) && validators_match_spec(downloads[k].validators, v))
                ==> reason == SAME_TARGET_REASON@),
    decreases k - i,
{
    if i < k {
        lemma_same_target_from(downloads, requested_url, final_url, validators, target_path, case_insensitive, k, i + 1);
    }
}

/// A request from a source URL a tracked download already has (as its URL or final URL,
/// compared after normalization) is always a duplicate: some download at or before that one
/// is reported, with the shared source as the reason when it is that one.
pub proof fn lemma_same_source_is_duplicate(
    downloads: Seq<DownloadRecord>,
    requested_url: Seq<char>,
    final_url: Seq<char>,
    validators: Option<ResumeValidators>,
    target_path: Seq<u8>,
    case_insensitive: bool,
    k: int,
)
    requires
        0 <= k < downloads.len(),
        url_key_spec(downloads[k].url@) == url_key_spec(requested_url)
            || url_key_spec(downloads[k].final_url@) == url_key_spec(requested_url)
            || url_key_spec(downloads[k].url@) == url_key_spec(final_url)
            || url_key_spec(downloads[k].final_url@) == url_key_spec(final_url),
    ensures
        first_duplicate_from(downloads, requested_url, final_url, validators, target_path, case_insensitive, 0)
            matches Some((j, reason)) && 0 <= j <= k && (j == k ==> reason == SAME_SOURCE_REASON@),
{
    lemma_duplicate_found_by(downloads, requested_url, final_url, validators, target_path, case_insensitive, k, 0);
}

proof fn lemma_duplicate_found_by(
    downloads: Seq<DownloadRecord>,
    requested_url: Seq<char>,
    final_url: Seq<char>,
    validators: Option<ResumeValidators>,
    target_path: Seq<u8>,
    case_insensitive: bool,
    k: int,
    i: int,
)
    requires
        0 <= i <= k < downloads.len(),
        duplicate_reason_spec(downloads[k], requested_url, final_url, validators, target_path, case_insensitive) is Some,
    ensures
        first_duplicate_from(downloads, requested_url, final_url, validators, target_path, case_insensitive, i)
            matches Some((j, reason)) && i <= j <= k
            && (j == k ==> Some(reason) == duplicate_reason_spec(downloads[k], requested_url, final_url, validators, target_path, case_insensitive)),
    decreases k - i,
{
    if i < k {
        lemma_duplicate_found_by(downloads, requested_url, final_url, validators, target_path, case_insensitive, k, i + 1);
    }
}

/// A request that shares neither a source URL, nor matching validators, nor the target file
/// with any tracked download is no duplicate.
pub proof fn lemma_no_shared_key_no_duplicate(
    downloads: Seq<DownloadRecord>,
    requested_url: Seq<char>,
    final_url: Seq<char>,
    validators: Option<ResumeValidators>,
    target_path: Seq<u8>,
    case_insensitive: bool,
    i: int,
)
    requires
        0 <= i,
        forall|k: int| 0 <= k < downloads.len() ==> {
            let d = #[trigger] downloads[k];
            &&& url_key_spec(d.url@) != url_key_spec(requested_url)
            &&& url_key_spec(d.final_url@) != url_key_spec(requested_url)
            &&& url_key_spec(d.url@) != url_key_spec(final_url)
            &&& url_key_spec(d.final_url@) != url_key_spec(final_url)
            &&& !(validators matches Some(v) && validators_match_spec(d.validators, v))
            &&& vstd::utf8::encode_utf8(d.target_path@) != target_path
            &&& !(case_insensitive && crate::text::lower_seq(vstd::utf8::encode_utf8(d.target_path@))
                == crate::text::lower_seq(target_path))
        },
    ensures
        first_duplicate_from(downloads, requested_url, final_url, validators, target_path, case_insensitive, i) is None,
    decreases downloads.len() - i,
{
    if i < downloads.len() {
        lemma_no_shared_key_no_duplicate(downloads, requested_url, final_url, validators, target_path, case_insensitive, i + 1);
    }
}

} // verus!
