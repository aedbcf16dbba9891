//! What a transfer learns when it starts: whether it must probe again before the first byte,
//! whom it asks, and how the fresh probe is merged into the saved download (fresh facts win
//! where they are present, the saved ones fill the gaps).

use vstd::prelude::*;
use crate::download::{DownloadCapabilities, DownloadDiagnostics, DownloadLogLevel, DownloadRecord};
use crate::download_identity::{extract_host, url_host_spec, UNKNOWN_HOST};
use crate::download_ops::{append_download_log_at, log_append_spec, log_view};
use crate::download_plan::{segmented_mode_spec, should_use_segmented_mode};
use crate::filename::texts_view;
use crate::http_helpers::{request_context_supports_segmented_transfer, segmented_shape_spec};
use crate::model::{DownloadCompatibility, DownloadRequestField, DownloadRequestMethod};
use crate::probe::{DownloadProbeData, RangeObservation, ResumeValidators};
use crate::probe_flow::copy_fields;
use crate::registry::copy_strings_pub;
use crate::runtime_recovery::{push_unique_diagnostic, unique_push};
use crate::scopes::copy_opt_string;
use crate::text::str_equal;

verus! {

/// A download reached through a wrapper page whose link was stored apart from the page is
/// probed again from the page itself.
pub open spec fn wrapper_refresh_spec(d: DownloadRecord) -> bool {
    d.url@ != d.final_url@ && (d.compatibility.wrapper_detected || d.compatibility.direct_url_recovered
        || d.compatibility.browser_interstitial_only)
}

pub fn requires_wrapper_probe_refresh(download: &DownloadRecord) -> (r: bool)
    ensures
        r == wrapper_refresh_spec(*download),
{
    !str_equal(download.url.as_str(), download.final_url.as_str())
        && (download.compatibility.wrapper_detected || download.compatibility.direct_url_recovered
            || download.compatibility.browser_interstitial_only)
}

/// A transfer probes before it starts when its wrapper must be refreshed, or when nothing is
/// downloaded yet and its size, length validator or both other validators are missing.
pub open spec fn bootstrap_needed_spec(d: DownloadRecord) -> bool {
    wrapper_refresh_spec(d) || (d.downloaded <= 0 && (d.size <= 0 || d.validators.content_length is None
        || (d.validators.etag is None && d.validators.last_modified is None)))
}

pub fn needs_runtime_metadata_bootstrap(download: &DownloadRecord) -> (r: bool)
    ensures
        r == bootstrap_needed_spec(*download),
{
    requires_wrapper_probe_refresh(download)
        || (download.downloaded <= 0 && (download.size <= 0 || download.validators.content_length.is_none()
            || (download.validators.etag.is_none() && download.validators.last_modified.is_none())))
}

/// The bootstrap probe keeps its response as the first stream when nothing is downloaded yet
/// and the transfer will not be segmented.
pub fn should_use_bootstrap_stream(download: &DownloadRecord) -> (r: bool)
    ensures
        r == (download.downloaded <= 0 && (download.size <= 0 || !segmented_mode_spec(*download))),
{
    download.downloaded <= 0 && (download.size <= 0 || !should_use_segmented_mode(download))
}

/// A download of unknown size that already has bytes starts over.
pub fn requires_unknown_size_restart(download: &DownloadRecord) -> (r: bool)
    ensures
        r == (download.size <= 0 && download.downloaded > 0),
{
    download.size <= 0 && download.downloaded > 0
}

/// Whom a bootstrap probe asks and how.
#[derive(Clone, Debug)]
pub struct RuntimeProbeTarget {
    pub url: String,
    pub request_referer: Option<String>,
    pub request_cookies: Option<String>,
    pub request_method: DownloadRequestMethod,
    pub request_form_fields: Vec<DownloadRequestField>,
}

/// A refreshed wrapper is asked at its page with a plain GET and the saved cookies; else the
/// final URL is asked with the saved request shape.
pub fn runtime_probe_target(download: &DownloadRecord) -> (r: RuntimeProbeTarget)
    ensures
        r.request_cookies == download.compatibility.request_cookies,
        wrapper_refresh_spec(*download) ==> {
            &&& r.url == download.url
            &&& r.request_referer is None
            &&& r.request_method == DownloadRequestMethod::Get
            &&& r.request_form_fields@.len() == 0
        },
        !wrapper_refresh_spec(*download) ==> {
            &&& r.url == download.final_url
            &&& r.request_referer == download.compatibility.request_referer
            &&& r.request_method == download.compatibility.request_method
            &&& r.request_form_fields@ == download.compatibility.request_form_fields@
        },
{
    if requires_wrapper_probe_refresh(download) {
        RuntimeProbeTarget {
            url: download.url.clone(),
            request_referer: None,
            request_cookies: copy_opt_string(&download.compatibility.request_cookies),
            request_method: DownloadRequestMethod::Get,
            request_form_fields: Vec::new(),
        }
    } else {
        RuntimeProbeTarget {
            url: download.final_url.clone(),
            request_referer: copy_opt_string(&download.compatibility.request_referer),
            request_cookies: copy_opt_string(&download.compatibility.request_cookies),
            request_method: download.compatibility.request_method,
            request_form_fields: copy_fields(&download.compatibility.request_form_fields),
        }
    }
}

/// The fresh request shape is kept when it cannot be replayed in segments, when the direct
/// link was recovered, or when the fresh probe saw no wrapper or interstitial.
pub open spec fn prefer_fresh_spec(fresh: DownloadCompatibility) -> bool {
    !segmented_shape_spec(fresh.request_method, fresh.request_form_fields@.len() as int)
        || fresh.direct_url_recovered || (!fresh.wrapper_detected && !fresh.browser_interstitial_only)
}

pub fn should_prefer_fresh_request_context(fresh: &DownloadCompatibility) -> (r: bool)
    ensures
        r == prefer_fresh_spec(*fresh),
{
    let exact_request_context = !request_context_supports_segmented_transfer(
        &fresh.request_method, fresh.request_form_fields.as_slice());
    exact_request_context || fresh.direct_url_recovered || (!fresh.wrapper_detected && !fresh.browser_interstitial_only)
}

/// `a`, or `b` when `a` is missing.
pub open spec fn or_else<T>(a: Option<T>, b: Option<T>) -> Option<T> {
    if a is Some { a } else { b }
}

/// Each validator from the fresh probe, or the saved one where the probe sent none.
pub open spec fn merged_validators_spec(saved: ResumeValidators, fresh: ResumeValidators) -> ResumeValidators {
    ResumeValidators {
        etag: or_else(fresh.etag, saved.etag),
        last_modified: or_else(fresh.last_modified, saved.last_modified),
        content_length: or_else(fresh.content_length, saved.content_length),
        content_type: or_else(fresh.content_type, saved.content_type),
        content_disposition: or_else(fresh.content_disposition, saved.content_disposition),
    }
}

fn or_else_text(a: &Option<String>, b: &Option<String>) -> (r: Option<String>)
    ensures
        r == or_else(*a, *b),
{
    if a.is_some() { copy_opt_string(a) } else { copy_opt_string(b) }
}

pub fn merge_resume_validators(saved: &ResumeValidators, fresh: &ResumeValidators) -> (r: ResumeValidators)
    ensures
        r == merged_validators_spec(*saved, *fresh),
{
    ResumeValidators {
        etag: or_else_text(&fresh.etag, &saved.etag),
        last_modified: or_else_text(&fresh.last_modified, &saved.last_modified),
        content_length: if fresh.content_length.is_some() { fresh.content_length } else { saved.content_length },
        content_type: or_else_text(&fresh.content_type, &saved.content_type),
        content_disposition: or_else_text(&fresh.content_disposition, &saved.content_disposition),
    }
}

/// The merge of a saved and a fresh compatibility record: the fresh redirect chain when it
/// has one, fresh names and classes over saved ones, wrapper and recovery flags kept once
/// seen, the interstitial flag only while no direct link was recovered, and the request
/// shape of the side the fresh probe prefers, gaps filled from the other.
pub open spec fn compat_merged(r: DownloadCompatibility, saved: DownloadCompatibility, fresh: DownloadCompatibility) -> bool {
    let recovered = saved.direct_url_recovered || fresh.direct_url_recovered;
    let prefer_fresh = prefer_fresh_spec(fresh);
    &&& r.redirect_chain@ == (if fresh.redirect_chain@.len() > 0 { fresh.redirect_chain@ } else { saved.redirect_chain@ })
    &&& r.filename_source == or_else(fresh.filename_source, saved.filename_source)
    &&& r.classification == or_else(fresh.classification, saved.classification)
    &&& r.wrapper_detected == (saved.wrapper_detected || fresh.wrapper_detected)
    &&& r.direct_url_recovered == recovered
    &&& r.browser_interstitial_only == (!recovered && (saved.browser_interstitial_only || fresh.browser_interstitial_only))
    &&& r.request_referer == (if prefer_fresh { or_else(fresh.request_referer, saved.request_referer) }
        else { or_else(saved.request_referer, fresh.request_referer) })
    &&& r.request_cookies == (if prefer_fresh { or_else(fresh.request_cookies, saved.request_cookies) }
        else { or_else(saved.request_cookies, fresh.request_cookies) })
    &&& r.request_method == (if prefer_fresh { fresh.request_method } else { saved.request_method })
    &&& r.request_form_fields@ == (if prefer_fresh { fresh.request_form_fields@ } else { saved.request_form_fields@ })
}

pub fn merge_download_compatibility(saved: &DownloadCompatibility, fresh: &DownloadCompatibility) -> (r: DownloadCompatibility)
    ensures
        compat_merged(r, *saved, *fresh),
{
    let direct_url_recovered = saved.direct_url_recovered || fresh.direct_url_recovered;
    let prefer_fresh = should_prefer_fresh_request_context(fresh);
    DownloadCompatibility {
        redirect_chain: if fresh.redirect_chain.len() > 0 {
            copy_strings_pub(&fresh.redirect_chain)
        } else {
            copy_strings_pub(&saved.redirect_chain)
        },
        filename_source: or_else_text(&fresh.filename_source, &saved.filename_source),
        classification: or_else_text(&fresh.classification, &saved.classification),
        wrapper_detected: saved.wrapper_detected || fresh.wrapper_detected,
        direct_url_recovered,
        browser_interstitial_only: !direct_url_recovered
            && (saved.browser_interstitial_only || fresh.browser_interstitial_only),
        request_referer: if prefer_fresh {
            or_else_text(&fresh.request_referer, &saved.request_referer)
        } else {
            or_else_text(&saved.request_referer, &fresh.request_referer)
        },
        request_cookies: if prefer_fresh {
            or_else_text(&fresh.request_cookies, &saved.request_cookies)
        } else {
            or_else_text(&saved.request_cookies, &fresh.request_cookies)
        },
        request_method: if prefer_fresh { fresh.request_method } else { saved.request_method },
        request_form_fields: if prefer_fresh {
            copy_fields(&fresh.request_form_fields)
        } else {
            copy_fields(&saved.request_form_fields)
        },
    }
}

/// Capabilities after a bootstrap probe: range support it proved enables ranges (resumable as
/// the probe says), range support it disproved disables ranges, resuming and segmenting.
pub open spec fn bootstrap_caps_spec(c: DownloadCapabilities, probe: DownloadProbeData) -> DownloadCapabilities {
    match probe.range_observation {
        RangeObservation::Supported => DownloadCapabilities { range_supported: true, resumable: probe.resumable, ..c },
        RangeObservation::Unsupported => DownloadCapabilities { range_supported: false, resumable: false, segmented: false },
        RangeObservation::Unknown => c,
    }
}

pub fn apply_bootstrap_capabilities(download: &mut DownloadRecord, bootstrap: &DownloadProbeData)
    ensures
        *final(download) == (DownloadRecord {
            capabilities: bootstrap_caps_spec(old(download).capabilities, *bootstrap),
            ..*old(download)
        }),
{
    download.capabilities = bootstrap_capabilities(&download.capabilities, bootstrap);
}

pub const BOOTSTRAP_REFRESH_NOTE: &'static str =
    "Live transfer bootstrap refreshed size and resume validators from the first stable download response.";
pub const BOOTSTRAP_REDIRECT_WARNING: &'static str =
    "Transfer startup redirected to a different final URL while stabilizing metadata.";
pub const BOOTSTRAP_LOG_CODE: &'static str = "runtime.bootstrap";
pub const BOOTSTRAP_LOG_NEW_FINAL_URL: &'static str =
    "Runtime bootstrap refreshed metadata and stabilized a new final URL.";
pub const BOOTSTRAP_LOG_REFRESHED: &'static str =
    "Runtime bootstrap refreshed transfer metadata from a stable download response.";

/// `values` with each message appended in turn unless an equal one is there already.
pub open spec fn unique_push_all(values: Seq<Seq<char>>, msgs: Seq<Seq<char>>) -> Seq<Seq<char>>
    decreases msgs.len(),
{
    if msgs.len() == 0 { values } else { unique_push(unique_push_all(values, msgs.drop_last()), msgs.last()) }
}

/// A probed size as a download size: capped to `i64`, the saved size when none was probed.
pub open spec fn probed_size_spec(size: Option<u64>, saved: i64) -> i64 {
    match size {
        Some(s) => if s <= i64::MAX { s as i64 } else { i64::MAX },
        None => saved,
    }
}

pub open spec fn host_of_spec(url: Seq<char>) -> Seq<char> {
    match url_host_spec(url) {
        Some(h) => h,
        None => UNKNOWN_HOST@,
    }
}

/// Whether a merge refreshed what a resumable transfer needs: a size where it was unknown,
/// or a validator where they were incomplete.
pub open spec fn bootstrap_refreshed(before: DownloadRecord, size: i64, v: ResumeValidators) -> bool {
    (before.size <= 0 && size > 0)
        || ((before.validators.content_length is None || (before.validators.etag is None && before.validators.last_modified is None))
            && (v.content_length is Some || v.etag is Some || v.last_modified is Some))
}

/// The warnings after a merge: the probe's, then the redirect warning when the final URL moved.
pub open spec fn bootstrap_warnings(before: Seq<Seq<char>>, probe_warnings: Seq<Seq<char>>, moved: bool) -> Seq<Seq<char>> {
    let w = unique_push_all(before, probe_warnings);
    if moved { unique_push(w, BOOTSTRAP_REDIRECT_WARNING@) } else { w }
}

fn push_all_unique(values: &mut Vec<String>, msgs: &Vec<String>)
    ensures
        texts_view(*final(values)) == unique_push_all(texts_view(*old(values)), texts_view(*msgs)),
{
    let ghost before = texts_view(*values);
    let mut i: usize = 0;
    while i < msgs.len()
        invariant
            i <= msgs@.len(),
            texts_view(*values) == unique_push_all(before, texts_view(*msgs).take(i as int)),
        decreases msgs@.len() - i,
    {
        proof {
            assert(texts_view(*msgs).take(i + 1).drop_last() =~= texts_view(*msgs).take(i as int));
            assert(texts_view(*msgs).take(i + 1).last() == msgs@[i as int]@);
        }
        push_unique_diagnostic(values, msgs[i].as_str());
        i = i + 1;
    }
    assert(texts_view(*msgs).take(msgs@.len() as int) =~= texts_view(*msgs));
}

fn bootstrap_capabilities(c: &DownloadCapabilities, probe: &DownloadProbeData) -> (r: DownloadCapabilities)
    ensures
        r == bootstrap_caps_spec(*c, *probe),
{
    match probe.range_observation {
        RangeObservation::Supported => DownloadCapabilities { range_supported: true, resumable: probe.resumable, segmented: c.segmented },
        RangeObservation::Unsupported => DownloadCapabilities { range_supported: false, resumable: false, segmented: false },
        RangeObservation::Unknown => DownloadCapabilities { range_supported: c.range_supported, resumable: c.resumable, segmented: c.segmented },
    }
}

fn update_bootstrap_diagnostics(diagnostics: &mut DownloadDiagnostics, probe_warnings: &Vec<String>, refreshed: bool, moved: bool)
    ensures
        texts_view(final(diagnostics).warnings) == bootstrap_warnings(texts_view(old(diagnostics).warnings),
            texts_view(*probe_warnings), moved),
        texts_view(final(diagnostics).notes) == (if refreshed {
            unique_push(texts_view(old(diagnostics).notes), BOOTSTRAP_REFRESH_NOTE@)
        } else {
            texts_view(old(diagnostics).notes)
        }),
        *final(diagnostics) == (DownloadDiagnostics {
            warnings: final(diagnostics).warnings,
            notes: final(diagnostics).notes,
            ..*old(diagnostics)
        }),
{
    push_all_unique(&mut diagnostics.warnings, probe_warnings);
    if refreshed {
        push_unique_diagnostic(&mut diagnostics.notes, BOOTSTRAP_REFRESH_NOTE);
    }
    if moved {
        push_unique_diagnostic(&mut diagnostics.warnings, BOOTSTRAP_REDIRECT_WARNING);
    }
}

/// Merges a bootstrap probe into a download, stamped `now`: host and final URL from the
/// probe, size, content type and protocol where it found them, validators and compatibility
/// merged, capabilities as the probe observed them, its warnings kept once each, a note when
/// it refreshed size or validators, a warning when the final URL moved, and a log line.
#[verifier::rlimit(50)]
pub fn apply_runtime_bootstrap_at(download: &mut DownloadRecord, probe: &DownloadProbeData, now: i64)
    ensures
        final(download).host@ == host_of_spec(probe.final_url@),
        final(download).final_url == probe.final_url,
        final(download).size == probed_size_spec(probe.size, old(download).size),
        final(download).content_type == or_else(probe.mime_type, old(download).content_type),
        final(download).validators == merged_validators_spec(old(download).validators, probe.validators),
        final(download).host_protocol == or_else(probe.negotiated_protocol, old(download).host_protocol),
        compat_merged(final(download).compatibility, old(download).compatibility, probe.compatibility),
        final(download).capabilities == bootstrap_caps_spec(old(download).capabilities, *probe),
        texts_view(final(download).diagnostics.warnings) == bootstrap_warnings(
            texts_view(old(download).diagnostics.warnings), texts_view(probe.warnings),
            old(download).final_url@ != probe.final_url@),
        texts_view(final(download).diagnostics.notes) == (if bootstrap_refreshed(*old(download),
            final(download).size, final(download).validators) {
            unique_push(texts_view(old(download).diagnostics.notes), BOOTSTRAP_REFRESH_NOTE@)
        } else {
            texts_view(old(download).diagnostics.notes)
        }),
        log_view(final(download).engine_log@) == log_append_spec(log_view(old(download).engine_log@),
            DownloadLogLevel::Info, BOOTSTRAP_LOG_CODE@,
            if old(download).final_url@ != probe.final_url@ { BOOTSTRAP_LOG_NEW_FINAL_URL@ } else { BOOTSTRAP_LOG_REFRESHED@ },
            now),
        *final(download) == (DownloadRecord {
            host: final(download).host,
            final_url: final(download).final_url,
            size: final(download).size,
            content_type: final(download).content_type,
            validators: final(download).validators,
            host_protocol: final(download).host_protocol,
            compatibility: final(download).compatibility,
            capabilities: final(download).capabilities,
            diagnostics: DownloadDiagnostics {
                warnings: final(download).diagnostics.warnings,
                notes: final(download).diagnostics.notes,
                ..old(download).diagnostics
            },
            engine_log: final(download).engine_log,
            ..*old(download)
        }),
{
    let moved = !str_equal(download.final_url.as_str(), probe.final_url.as_str());
    let size: i64 = match probe.size {
        Some(s) => if s <= 9223372036854775807u64 { s as i64 } else { 9223372036854775807i64 },
        None => download.size,
    };
    let validators = merge_resume_validators(&download.validators, &probe.validators);
    let refreshed = (download.size <= 0 && size > 0)
        || ((download.validators.content_length.is_none()
            || (download.validators.etag.is_none() && download.validators.last_modified.is_none()))
            && (validators.content_length.is_some() || validators.etag.is_some() || validators.last_modified.is_some()));
    let host = extract_host(probe.final_url.as_str());
    let final_url = probe.final_url.clone();
    let content_type = or_else_text(&probe.mime_type, &download.content_type);
    let host_protocol = or_else_text(&probe.negotiated_protocol, &download.host_protocol);
    let compatibility = merge_download_compatibility(&download.compatibility, &probe.compatibility);
    let capabilities = bootstrap_capabilities(&download.capabilities, probe);
    update_bootstrap_diagnostics(&mut download.diagnostics, &probe.warnings, refreshed, moved);
    download.host = host;
    download.final_url = final_url;
    download.size = size;
    download.content_type = content_type;
    download.validators = validators;
    download.host_protocol = host_protocol;
    download.compatibility = compatibility;
    download.capabilities = capabilities;
    let message = if moved { BOOTSTRAP_LOG_NEW_FINAL_URL } else { BOOTSTRAP_LOG_REFRESHED };
    append_download_log_at(download, DownloadLogLevel::Info, BOOTSTRAP_LOG_CODE, message, now);
}

} // verus!
