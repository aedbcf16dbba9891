//! The probe of a download URL: which requests to send, how HTML wrapper pages are followed,
//! and how the stages' observations become the probe result.

use vstd::prelude::*;
use crate::chars::string_from_chars;
use crate::filename::{
    clean_mime_spec, clean_mime_type, has_confident_name_hint, confident_hint_spec, opt_str_text, query_param_spec,
    query_response_content_disposition, query_response_content_type, resolve_name_spec, resolve_suggested_name,
    source_label, classification_label, texts_view,
};
use crate::html::{
    url_key_spec, urls_match_after_normalization, HtmlAppApiHint, HtmlFollowUpMethod, HtmlFollowUpRequest, HtmlResolutionHint,
};
use crate::http_helpers::{fields_view, request_context_supports_segmented_transfer, segmented_shape_spec};
use crate::model::{opt_text, DownloadCompatibility, DownloadRequestField, DownloadRequestMethod};
use crate::probe::{
    strongest_range_observation, strongest_spec, DownloadProbeData, ProbeStageMetadata, RangeObservation, ResumeValidators,
};
use crate::scopes::copy_opt_string;

verus! {

pub const HTML_WRAPPER_RESOLVE_MAX_HOPS: u8 = 1;
pub const HTML_WRAPPER_SAME_URL_RETRY_LIMIT: u8 = 1;

/// The request a probe replays, and how far wrapper pages have been followed.
#[derive(Clone, Debug)]
pub struct ProbeRequestState {
    pub url: String,
    pub referer: Option<String>,
    pub cookies: Option<String>,
    pub method: DownloadRequestMethod,
    pub form_fields: Vec<DownloadRequestField>,
    pub resolved_wrapper_hop: u8,
    pub resolved_wrapper_page: bool,
    pub same_url_wrapper_retries: u8,
}

/// What one round of probe requests gave.
#[derive(Clone, Debug)]
pub struct ProbeAttemptState {
    pub failures: Vec<String>,
    pub app_api_resolution_failure: Option<String>,
    pub head_stage: Option<ProbeStageMetadata>,
    pub range_stage: Option<ProbeStageMetadata>,
    pub standard_get_stage: Option<ProbeStageMetadata>,
}

/// The kind of request a probe stage sends.
#[derive(Clone, Copy, Debug, PartialEq, Eq, Structural)]
pub enum ProbeMethod {
    Head,
    RangeGet,
    StandardGet,
    FormPost,
}

pub fn copy_fields(fields: &Vec<DownloadRequestField>) -> (r: Vec<DownloadRequestField>)
    ensures
        r@ == fields@,
{
    let mut out: Vec<DownloadRequestField> = Vec::new();
    let mut i: usize = 0;
    while i < fields.len()
        invariant
            i <= fields@.len(),
            out@ == fields@.take(i as int),
        decreases fields@.len() - i,
    {
        let f = DownloadRequestField { name: fields[i].name.clone(), value: fields[i].value.clone() };
        out.push(f);
        assert(out@ =~= fields@.take(i + 1));
        i = i + 1;
    }
    assert(fields@.take(fields@.len() as int) =~= fields@);
    out
}

/// How many more probe rounds a request state allows: the wrapper hops it may still follow
/// plus the same-URL retries it may still make. Every restart of the probe driver lowers it.
pub open spec fn probe_rounds_left(s: ProbeRequestState) -> int {
    crate::arith::max_int(HTML_WRAPPER_RESOLVE_MAX_HOPS as int - s.resolved_wrapper_hop as int, 0)
        + crate::arith::max_int(HTML_WRAPPER_SAME_URL_RETRY_LIMIT as int - s.same_url_wrapper_retries as int, 0)
}

/// The probe driver ends: a fresh request state allows at most as many restarts as wrapper
/// hops plus same-URL retries, and no state allows fewer than none, so with every restart
/// lowering the count the driver makes at most that many rounds plus one.
pub proof fn lemma_probe_rounds_bounded(s: ProbeRequestState)
    ensures
        0 <= probe_rounds_left(s) <= HTML_WRAPPER_RESOLVE_MAX_HOPS + HTML_WRAPPER_SAME_URL_RETRY_LIMIT,
        s.resolved_wrapper_hop == 0 && s.same_url_wrapper_retries == 0
            ==> probe_rounds_left(s) == HTML_WRAPPER_RESOLVE_MAX_HOPS + HTML_WRAPPER_SAME_URL_RETRY_LIMIT,
{
}

impl ProbeRequestState {
    pub fn new(
        original_url: &str,
        request_referer: Option<&str>,
        request_cookies: Option<&str>,
        request_method: &DownloadRequestMethod,
        request_form_fields: &Vec<DownloadRequestField>,
    ) -> (r: Self)
        ensures
            r.url@ == original_url@,
            opt_text(r.referer) == opt_str_text(request_referer),
            opt_text(r.cookies) == opt_str_text(request_cookies),
            r.method == *request_method,
            r.form_fields@ == request_form_fields@,
            r.resolved_wrapper_hop == 0 && !r.resolved_wrapper_page && r.same_url_wrapper_retries == 0,
    {
        ProbeRequestState {
            url: original_url.to_owned(),
            referer: match request_referer { Some(v) => Some(v.to_owned()), None => None },
            cookies: match request_cookies { Some(v) => Some(v.to_owned()), None => None },
            method: *request_method,
            form_fields: copy_fields(request_form_fields),
            resolved_wrapper_hop: 0,
            resolved_wrapper_page: false,
            same_url_wrapper_retries: 0,
        }
    }

    pub fn exact_request_shape_allows_segmentation(&self) -> (r: bool)
        ensures
            r == segmented_shape_spec(self.method, self.form_fields@.len() as int),
    {
        request_context_supports_segmented_transfer(&self.method, self.form_fields.as_slice())
    }

    pub fn can_resolve_wrapper_hop(&self) -> (r: bool)
        ensures
            r == (self.resolved_wrapper_hop < HTML_WRAPPER_RESOLVE_MAX_HOPS),
    {
        self.resolved_wrapper_hop < HTML_WRAPPER_RESOLVE_MAX_HOPS
    }

    /// Follows a wrapper page to the download it points at, with a plain GET.
    pub fn retarget_to_direct_download(&mut self, url: &str, referer: String)
        ensures
            final(self).url@ == url@,
            final(self).referer == Some(referer),
            final(self).method == DownloadRequestMethod::Get,
            final(self).form_fields@.len() == 0,
            final(self).resolved_wrapper_hop == (if old(self).resolved_wrapper_hop == 255 { 255 } else { old(self).resolved_wrapper_hop + 1 }),
            final(self).resolved_wrapper_page,
            final(self).cookies == old(self).cookies,
            final(self).same_url_wrapper_retries == old(self).same_url_wrapper_retries,
    {
        self.url = url.to_owned();
        self.referer = Some(referer);
        self.method = DownloadRequestMethod::Get;
        self.form_fields = Vec::new();
        self.resolved_wrapper_hop = if self.resolved_wrapper_hop == 255 { 255 } else { self.resolved_wrapper_hop + 1 };
        self.resolved_wrapper_page = true;
    }

    /// Requests the same wrapper URL once more, with a plain GET and the page as referer.
    pub fn retry_same_url_wrapper(&mut self, referer: String)
        ensures
            final(self).url == old(self).url,
            final(self).referer == Some(referer),
            final(self).method == DownloadRequestMethod::Get,
            final(self).form_fields@.len() == 0,
            final(self).same_url_wrapper_retries == (if old(self).same_url_wrapper_retries == 255 { 255 } else { old(self).same_url_wrapper_retries + 1 }),
            final(self).cookies == old(self).cookies,
            final(self).resolved_wrapper_hop == old(self).resolved_wrapper_hop,
            final(self).resolved_wrapper_page == old(self).resolved_wrapper_page,
    {
        self.referer = Some(referer);
        self.method = DownloadRequestMethod::Get;
        self.form_fields = Vec::new();
        self.same_url_wrapper_retries = if self.same_url_wrapper_retries == 255 { 255 } else { self.same_url_wrapper_retries + 1 };
    }
}

/// The request method a replayed request shape is probed with.
pub fn probe_method_for_request_context(method: &DownloadRequestMethod) -> (r: ProbeMethod)
    ensures
        r == (if *method == DownloadRequestMethod::Get { ProbeMethod::StandardGet } else { ProbeMethod::FormPost }),
{
    match method {
        DownloadRequestMethod::Get => ProbeMethod::StandardGet,
        DownloadRequestMethod::Post => ProbeMethod::FormPost,
    }
}

/// The request method a probe method sends.
pub fn request_method_for_probe_method(method: ProbeMethod) -> (r: DownloadRequestMethod)
    ensures
        r == (if method == ProbeMethod::FormPost { DownloadRequestMethod::Post } else { DownloadRequestMethod::Get }),
{
    match method {
        ProbeMethod::FormPost => DownloadRequestMethod::Post,
        _ => DownloadRequestMethod::Get,
    }
}

pub fn request_method_from_html_follow_up(method: HtmlFollowUpMethod) -> (r: DownloadRequestMethod)
    ensures
        r == (if method == HtmlFollowUpMethod::Post { DownloadRequestMethod::Post } else { DownloadRequestMethod::Get }),
{
    match method {
        HtmlFollowUpMethod::Get => DownloadRequestMethod::Get,
        HtmlFollowUpMethod::Post => DownloadRequestMethod::Post,
    }
}

pub open spec fn pairs_as_fields(pairs: Seq<(String, String)>) -> Seq<(Seq<char>, Seq<char>)> {
    pairs.map_values(|p: (String, String)| (p.0@, p.1@))
}

/// Form fields from (name, value) pairs.
pub fn request_fields_from_pairs(fields: &Vec<(String, String)>) -> (r: Vec<DownloadRequestField>)
    ensures
        fields_view(r@) == pairs_as_fields(fields@),
{
    let mut out: Vec<DownloadRequestField> = Vec::new();
    let mut i: usize = 0;
    while i < fields.len()
        invariant
            i <= fields@.len(),
            fields_view(out@) == pairs_as_fields(fields@.take(i as int)),
        decreases fields@.len() - i,
    {
        let f = DownloadRequestField { name: fields[i].0.clone(), value: fields[i].1.clone() };
        let ghost before = out@;
        out.push(f);
        assert(fields_view(out@) =~= fields_view(before).push((f.name@, f.value@)));
        assert(pairs_as_fields(fields@.take(i + 1)) =~= pairs_as_fields(fields@.take(i as int)).push((fields@[i as int].0@, fields@[i as int].1@)));
        assert(fields_view(out@) =~= pairs_as_fields(fields@.take(i + 1)));
        i = i + 1;
    }
    assert(fields@.take(fields@.len() as int) =~= fields@);
    out
}

/// The label a probe method is reported with.
pub fn probe_method_label(method: ProbeMethod) -> (r: &'static str)
    ensures
        r@ == (match method {
            ProbeMethod::Head => "HEAD"@,
            ProbeMethod::RangeGet => "Range GET"@,
            ProbeMethod::StandardGet => "GET"@,
            ProbeMethod::FormPost => "Form POST"@,
        }),
{
    match method {
        ProbeMethod::Head => "HEAD",
        ProbeMethod::RangeGet => "Range GET",
        ProbeMethod::StandardGet => "GET",
        ProbeMethod::FormPost => "Form POST",
    }
}

pub open spec fn opt_meta(stage: Option<&ProbeStageMetadata>) -> Option<ProbeStageMetadata> {
    match stage {
        Some(s) => Some(*s),
        None => None,
    }
}

/// A range GET is sent unless a HEAD already gave a size, a known range answer and a
/// confident file name.
pub open spec fn range_probe_spec(url: Seq<char>, head: Option<ProbeStageMetadata>) -> bool {
    match head {
        None => true,
        Some(stage) => stage.size is None || stage.range_observation == RangeObservation::Unknown
            || !confident_hint_spec(url, stage.final_url@, opt_text(stage.validators.content_disposition)),
    }
}

pub fn should_try_range_probe(url: &str, head_stage: Option<&ProbeStageMetadata>) -> (r: bool)
    ensures
        r == range_probe_spec(url@, opt_meta(head_stage)),
{
    let stage = match head_stage {
        Some(s) => s,
        None => { return true; },
    };
    let cd: Option<&str> = match &stage.validators.content_disposition {
        Some(v) => Some(v.as_str()),
        None => None,
    };
    stage.size.is_none() || stage.range_observation == RangeObservation::Unknown
        || !has_confident_name_hint(url, stage.final_url.as_str(), cd)
}

/// The first present of three options.
pub open spec fn first3<T>(a: Option<T>, b: Option<T>, c: Option<T>) -> Option<T> {
    if a is Some { a } else if b is Some { b } else { c }
}

/// A stage whose response was the file rather than an HTML wrapper page.
pub open spec fn real_stage(stage: Option<ProbeStageMetadata>) -> Option<ProbeStageMetadata> {
    match stage {
        Some(s) => if !s.html_interstitial { Some(s) } else { None },
        None => None,
    }
}

pub open spec fn stage_url(stage: Option<ProbeStageMetadata>) -> Option<Seq<char>> {
    match stage { Some(s) => Some(s.final_url@), None => None }
}

pub open spec fn stage_size(stage: Option<ProbeStageMetadata>) -> Option<u64> {
    match stage { Some(s) => s.size, None => None }
}

pub open spec fn stage_mime(stage: Option<ProbeStageMetadata>) -> Option<Seq<char>> {
    match stage {
        Some(s) => match s.mime_type { Some(m) => clean_mime_spec(Some(m@)), None => None },
        None => None,
    }
}

pub open spec fn stage_disposition(stage: Option<ProbeStageMetadata>) -> Option<Seq<char>> {
    match stage { Some(s) => opt_text(s.validators.content_disposition), None => None }
}

pub open spec fn stage_etag(stage: Option<ProbeStageMetadata>) -> Option<Seq<char>> {
    match stage { Some(s) => opt_text(s.validators.etag), None => None }
}

pub open spec fn stage_last_modified(stage: Option<ProbeStageMetadata>) -> Option<Seq<char>> {
    match stage { Some(s) => opt_text(s.validators.last_modified), None => None }
}

pub open spec fn stage_protocol(stage: Option<ProbeStageMetadata>) -> Option<Seq<char>> {
    match stage { Some(s) => opt_text(s.negotiated_protocol), None => None }
}

pub open spec fn stage_name_hint(stage: Option<ProbeStageMetadata>) -> Option<Seq<char>> {
    match stage {
        Some(s) => match s.html_resolution { Some(h) => opt_text(h.suggested_name), None => None },
        None => None,
    }
}

pub open spec fn stage_observation_of(stage: Option<ProbeStageMetadata>) -> Option<RangeObservation> {
    match stage { Some(s) => Some(s.range_observation), None => None }
}

pub open spec fn stage_html(stage: Option<ProbeStageMetadata>) -> bool {
    match stage { Some(s) => s.html_interstitial, None => false }
}

pub open spec fn stage_not_html(stage: Option<ProbeStageMetadata>) -> bool {
    match stage { Some(s) => !s.html_interstitial, None => false }
}

/// What the stages (range GET, GET, HEAD, in that order of preference) add up to.
pub struct ProbeSummary {
    pub final_url: Seq<char>,
    pub size: Option<u64>,
    pub header_mime: Option<Seq<char>>,
    pub mime: Option<Seq<char>>,
    pub content_disposition: Option<Seq<char>>,
    pub etag: Option<Seq<char>>,
    pub last_modified: Option<Seq<char>>,
    pub protocol: Option<Seq<char>>,
    pub name_hint: Option<Seq<char>>,
    pub observation: RangeObservation,
    pub saw_html: bool,
    pub only_html: bool,
}

pub open spec fn or_text(a: Option<Seq<char>>, b: Option<Seq<char>>) -> Option<Seq<char>> {
    if a is Some { a } else { b }
}

pub open spec fn probe_summary(original: Seq<char>, state_url: Seq<char>, r: Option<ProbeStageMetadata>, g: Option<ProbeStageMetadata>, h: Option<ProbeStageMetadata>) -> ProbeSummary {
    let (pr, pg, ph) = (real_stage(r), real_stage(g), real_stage(h));
    let final_url = match first3(stage_url(r), stage_url(g), stage_url(h)) { Some(u) => u, None => state_url };
    let header_mime = first3(stage_mime(pr), stage_mime(pg), stage_mime(ph));
    let query_mime = match or_text(query_param_spec(final_url, "response-content-type"@), query_param_spec(original, "response-content-type"@)) {
        Some(v) => clean_mime_spec(Some(v)),
        None => None,
    };
    ProbeSummary {
        final_url,
        size: first3(stage_size(pr), stage_size(pg), stage_size(ph)),
        header_mime,
        mime: or_text(header_mime, query_mime),
        content_disposition: or_text(first3(stage_disposition(pr), stage_disposition(pg), stage_disposition(ph)),
            or_text(query_param_spec(final_url, "response-content-disposition"@), query_param_spec(original, "response-content-disposition"@))),
        etag: first3(stage_etag(pr), stage_etag(pg), stage_etag(ph)),
        last_modified: first3(stage_last_modified(pr), stage_last_modified(pg), stage_last_modified(ph)),
        protocol: first3(stage_protocol(r), stage_protocol(g), stage_protocol(h)),
        name_hint: first3(stage_name_hint(r), stage_name_hint(g), stage_name_hint(h)),
        observation: strongest_spec(seq![stage_observation_of(pr), stage_observation_of(pg), stage_observation_of(ph)]),
        saw_html: stage_html(r) || stage_html(g) || stage_html(h),
        only_html: (r is Some || g is Some || h is Some) && !stage_not_html(r) && !stage_not_html(g) && !stage_not_html(h),
    }
}

fn real_of(stage: &Option<ProbeStageMetadata>) -> (r: Option<&ProbeStageMetadata>)
    ensures
        opt_meta(r) == real_stage(*stage),
{
    match stage {
        Some(s) => if !s.html_interstitial { Some(s) } else { None },
        None => None,
    }
}

fn first_final_url(r: &Option<ProbeStageMetadata>, g: &Option<ProbeStageMetadata>, h: &Option<ProbeStageMetadata>, fallback: &String) -> (out: String)
    ensures
        out@ == (match first3(stage_url(*r), stage_url(*g), stage_url(*h)) { Some(u) => u, None => fallback@ }),
{
    match r {
        Some(s) => { return s.final_url.clone(); },
        None => {},
    }
    match g {
        Some(s) => { return s.final_url.clone(); },
        None => {},
    }
    match h {
        Some(s) => s.final_url.clone(),
        None => fallback.clone(),
    }
}

fn first_size(a: Option<&ProbeStageMetadata>, b: Option<&ProbeStageMetadata>, c: Option<&ProbeStageMetadata>) -> (out: Option<u64>)
    ensures
        out == first3(stage_size(opt_meta(a)), stage_size(opt_meta(b)), stage_size(opt_meta(c))),
{
    let x = match a { Some(s) => s.size, None => None };
    if x.is_some() { return x; }
    let y = match b { Some(s) => s.size, None => None };
    if y.is_some() { return y; }
    match c { Some(s) => s.size, None => None }
}

fn stage_clean_mime(a: Option<&ProbeStageMetadata>) -> (out: Option<String>)
    ensures
        opt_text(out) == stage_mime(opt_meta(a)),
{
    match a {
        Some(s) => match &s.mime_type {
            Some(m) => clean_mime_type(Some(m.as_str())),
            None => None,
        },
        None => None,
    }
}

/// Which text field of a stage to read.
#[derive(Clone, Copy, PartialEq, Eq, Structural)]
pub enum StageText {
    Disposition,
    Etag,
    LastModified,
    Protocol,
    NameHint,
}

pub open spec fn stage_text_spec(stage: Option<ProbeStageMetadata>, which: StageText) -> Option<Seq<char>> {
    match which {
        StageText::Disposition => stage_disposition(stage),
        StageText::Etag => stage_etag(stage),
        StageText::LastModified => stage_last_modified(stage),
        StageText::Protocol => stage_protocol(stage),
        StageText::NameHint => stage_name_hint(stage),
    }
}

fn stage_text(stage: Option<&ProbeStageMetadata>, which: StageText) -> (out: Option<String>)
    ensures
        opt_text(out) == stage_text_spec(opt_meta(stage), which),
{
    let s = match stage {
        Some(s) => s,
        None => { return None; },
    };
    match which {
        StageText::Disposition => copy_opt_string(&s.validators.content_disposition),
        StageText::Etag => copy_opt_string(&s.validators.etag),
        StageText::LastModified => copy_opt_string(&s.validators.last_modified),
        StageText::Protocol => copy_opt_string(&s.negotiated_protocol),
        StageText::NameHint => match &s.html_resolution {
            Some(hint) => copy_opt_string(&hint.suggested_name),
            None => None,
        },
    }
}

fn first_text(a: Option<&ProbeStageMetadata>, b: Option<&ProbeStageMetadata>, c: Option<&ProbeStageMetadata>, which: StageText) -> (out: Option<String>)
    ensures
        opt_text(out) == first3(stage_text_spec(opt_meta(a), which), stage_text_spec(opt_meta(b), which), stage_text_spec(opt_meta(c), which)),
{
    let x = stage_text(a, which);
    if x.is_some() { return x; }
    let y = stage_text(b, which);
    if y.is_some() { return y; }
    stage_text(c, which)
}

fn or_string(a: Option<String>, b: Option<String>) -> (out: Option<String>)
    ensures
        opt_text(out) == or_text(opt_text(a), opt_text(b)),
{
    if a.is_some() { a } else { b }
}

pub open spec fn recovered_wrapper_spec(state: ProbeRequestState, only_html: bool) -> bool {
    state.resolved_wrapper_page || (state.same_url_wrapper_retries > 0 && !only_html)
}

pub open spec fn recovered_warning() -> Seq<char> {
    "Probe followed a browser wrapper page and recovered a direct download response."@
}

pub open spec fn only_hint_warning() -> Seq<char> {
    "Probe only reached a browser wrapper page; VDM recovered a filename hint but still needs the transfer bootstrap to stabilize the final binary response."@
}

pub open spec fn app_api_warning() -> Seq<char> {
    "Probe detected an app-backed wrapper page, but its public resolver did not yield a stable direct file during metadata discovery. VDM will retry during transfer."@
}

pub open spec fn only_wrapper_warning() -> Seq<char> {
    "Probe only reached a browser wrapper page and could not recover a stable direct-download response. VDM will retry during transfer, but some hosts require the final file URL instead of the share page."@
}

pub open spec fn saw_wrapper_warning() -> Seq<char> {
    "One probe stage returned an HTML wrapper page; VDM ignored that response and kept safer metadata hints."@
}

pub open spec fn no_size_warning() -> Seq<char> {
    "Remote host did not advertise a stable file size during probe; VDM will discover it while downloading."@
}

pub open spec fn replayed_form_warning() -> Seq<char> {
    "This download requires a replayed POST or form request; VDM will keep it on guarded single-stream mode until byte-range support is proven on that exact request shape."@
}

pub open spec fn redirect_warning() -> Seq<char> {
    "Probe redirected to a different final URL during metadata discovery."@
}

/// The probe's own warnings, after those of the file name.
pub open spec fn probe_warnings_spec(sum: ProbeSummary, recovered: bool, app_api_failed: bool, allows: bool, original: Seq<char>) -> Seq<Seq<char>> {
    let w1: Seq<Seq<char>> = if recovered { seq![recovered_warning()] } else { Seq::empty() };
    let w2 = if sum.only_html {
        w1.push(if sum.name_hint is Some { only_hint_warning() } else if app_api_failed { app_api_warning() } else { only_wrapper_warning() })
    } else if sum.saw_html {
        w1.push(saw_wrapper_warning())
    } else {
        w1
    };
    let w3 = if sum.size is None { w2.push(no_size_warning()) } else { w2 };
    let w4 = if !allows { w3.push(replayed_form_warning()) } else { w3 };
    if original != sum.final_url { w4.push(redirect_warning()) } else { w4 }
}

fn push_text(warnings: &mut Vec<String>, text: &str)
    ensures
        texts_view(*final(warnings)) == texts_view(*old(warnings)).push(text@),
{
    let t = String::from_str(text);
    warnings.push(t);
    assert(texts_view(*final(warnings)) =~= texts_view(*old(warnings)).push(text@));
}

/// The stages' summary as values of the program.
pub struct StageSummary {
    pub final_url: String,
    pub size: Option<u64>,
    pub header_mime: Option<String>,
    pub mime: Option<String>,
    pub content_disposition: Option<String>,
    pub etag: Option<String>,
    pub last_modified: Option<String>,
    pub protocol: Option<String>,
    pub name_hint: Option<String>,
    pub observation: RangeObservation,
    pub saw_html: bool,
    pub only_html: bool,
}

pub open spec fn summary_matches(s: StageSummary, sum: ProbeSummary) -> bool {
    &&& s.final_url@ == sum.final_url
    &&& s.size == sum.size
    &&& opt_text(s.header_mime) == sum.header_mime
    &&& opt_text(s.mime) == sum.mime
    &&& opt_text(s.content_disposition) == sum.content_disposition
    &&& opt_text(s.etag) == sum.etag
    &&& opt_text(s.last_modified) == sum.last_modified
    &&& opt_text(s.protocol) == sum.protocol
    &&& opt_text(s.name_hint) == sum.name_hint
    &&& s.observation == sum.observation
    &&& s.saw_html == sum.saw_html
    &&& s.only_html == sum.only_html
}

#[verifier::spinoff_prover]
fn summarize_stages(original_url: &str, state_url: &String, attempts: &ProbeAttemptState) -> (out: StageSummary)
    ensures
        summary_matches(out, probe_summary(original_url@, state_url@, attempts.range_stage, attempts.standard_get_stage, attempts.head_stage)),
{
    let r = &attempts.range_stage;
    let g = &attempts.standard_get_stage;
    let h = &attempts.head_stage;
    let (pr, pg, ph) = (real_of(r), real_of(g), real_of(h));
    let final_url = first_final_url(r, g, h, state_url);
    let size = first_size(pr, pg, ph);
    let header_mime = {
        let x = stage_clean_mime(pr);
        if x.is_some() { x } else {
            let y = stage_clean_mime(pg);
            if y.is_some() { y } else { stage_clean_mime(ph) }
        }
    };
    let query_type = or_string(query_response_content_type(final_url.as_str()), query_response_content_type(original_url));
    let query_mime = match &query_type {
        Some(v) => clean_mime_type(Some(v.as_str())),
        None => None,
    };
    let mime = or_string(copy_opt_string(&header_mime), query_mime);
    let content_disposition = or_string(
        first_text(pr, pg, ph, StageText::Disposition),
        or_string(query_response_content_disposition(final_url.as_str()), query_response_content_disposition(original_url)),
    );
    let observation = strongest_range_observation(pr, pg, ph);
    assert(seq![crate::probe::stage_observation(pr), crate::probe::stage_observation(pg), crate::probe::stage_observation(ph)]
        =~= seq![stage_observation_of(real_stage(*r)), stage_observation_of(real_stage(*g)), stage_observation_of(real_stage(*h))]);
    let etag = first_text(pr, pg, ph, StageText::Etag);
    let last_modified = first_text(pr, pg, ph, StageText::LastModified);
    let protocol = first_text(r.as_ref(), g.as_ref(), h.as_ref(), StageText::Protocol);
    let name_hint = first_text(r.as_ref(), g.as_ref(), h.as_ref(), StageText::NameHint);
    let saw_html = (match r { Some(s) => s.html_interstitial, None => false })
        || (match g { Some(s) => s.html_interstitial, None => false })
        || (match h { Some(s) => s.html_interstitial, None => false });
    let any_stage = r.is_some() || g.is_some() || h.is_some();
    let only_html = any_stage && !(match r { Some(s) => !s.html_interstitial, None => false })
        && !(match g { Some(s) => !s.html_interstitial, None => false })
        && !(match h { Some(s) => !s.html_interstitial, None => false });
    StageSummary {
        final_url,
        size,
        header_mime,
        mime,
        content_disposition,
        etag,
        last_modified,
        protocol,
        name_hint,
        observation,
        saw_html,
        only_html,
    }
}

fn append_probe_warnings(
    warnings: &mut Vec<String>,
    summary: &StageSummary,
    recovered: bool,
    app_api_failed: bool,
    allows: bool,
    original_url: &str,
    Ghost(sum): Ghost<ProbeSummary>,
)
    requires
        summary_matches(*summary, sum),
    ensures
        texts_view(*final(warnings)) == texts_view(*old(warnings)) + probe_warnings_spec(sum, recovered, app_api_failed, allows, original_url@),
{
    let ghost start = texts_view(*warnings);
    if recovered {
        push_text(warnings, "Probe followed a browser wrapper page and recovered a direct download response.");
    }
    if summary.only_html {
        if summary.name_hint.is_some() {
            push_text(warnings, "Probe only reached a browser wrapper page; VDM recovered a filename hint but still needs the transfer bootstrap to stabilize the final binary response.");
        } else if app_api_failed {
            push_text(warnings, "Probe detected an app-backed wrapper page, but its public resolver did not yield a stable direct file during metadata discovery. VDM will retry during transfer.");
        } else {
            push_text(warnings, "Probe only reached a browser wrapper page and could not recover a stable direct-download response. VDM will retry during transfer, but some hosts require the final file URL instead of the share page.");
        }
    } else if summary.saw_html {
        push_text(warnings, "One probe stage returned an HTML wrapper page; VDM ignored that response and kept safer metadata hints.");
    }
    if summary.size.is_none() {
        push_text(warnings, "Remote host did not advertise a stable file size during probe; VDM will discover it while downloading.");
    }
    if !allows {
        push_text(warnings, "This download requires a replayed POST or form request; VDM will keep it on guarded single-stream mode until byte-range support is proven on that exact request shape.");
    }
    if !crate::text::str_equal(original_url, summary.final_url.as_str()) {
        push_text(warnings, "Probe redirected to a different final URL during metadata discovery.");
    }
    assert(texts_view(*warnings) =~= start + probe_warnings_spec(sum, recovered, app_api_failed, allows, original_url@));
}

/// The probe result from the stages of the last round and the request state.
#[verifier::spinoff_prover]
pub fn finalize_probe_result(original_url: &str, state: &ProbeRequestState, attempts: &ProbeAttemptState) -> (out: DownloadProbeData)
    ensures
        ({
            let sum = probe_summary(original_url@, state.url@, attempts.range_stage, attempts.standard_get_stage, attempts.head_stage);
            let named = resolve_name_spec(original_url@, sum.final_url, sum.content_disposition, sum.mime, sum.name_hint);
            let allows = segmented_shape_spec(state.method, state.form_fields@.len() as int);
            let observation = if allows { sum.observation } else { RangeObservation::Unknown };
            let recovered = recovered_wrapper_spec(*state, sum.only_html);
            &&& out.final_url@ == sum.final_url
            &&& out.size == sum.size
            &&& opt_text(out.mime_type) == sum.mime
            &&& opt_text(out.negotiated_protocol) == sum.protocol
            &&& out.range_observation == observation
            &&& out.range_supported == (observation == RangeObservation::Supported && allows)
            &&& out.resumable == (out.range_supported && sum.size is Some && sum.size.unwrap() > 0)
            &&& opt_text(out.validators.etag) == sum.etag
            &&& opt_text(out.validators.last_modified) == sum.last_modified
            &&& out.validators.content_length == sum.size
            &&& opt_text(out.validators.content_type) == sum.header_mime
            &&& opt_text(out.validators.content_disposition) == sum.content_disposition
            &&& out.suggested_name@ == named.name
            &&& opt_text(out.compatibility.filename_source) == Some(source_label(named.source))
            &&& opt_text(out.compatibility.classification) == Some(classification_label(named.classification))
            &&& texts_view(out.compatibility.redirect_chain) == (if original_url@ != sum.final_url { seq![original_url@, sum.final_url] } else { Seq::empty() })
            &&& out.compatibility.wrapper_detected == sum.saw_html
            &&& out.compatibility.direct_url_recovered == recovered
            &&& out.compatibility.browser_interstitial_only == sum.only_html
            &&& out.compatibility.request_referer == state.referer
            &&& out.compatibility.request_cookies == state.cookies
            &&& out.compatibility.request_method == state.method
            &&& out.compatibility.request_form_fields@ == state.form_fields@
            &&& texts_view(out.warnings) == named.warnings + probe_warnings_spec(sum, recovered,
                attempts.app_api_resolution_failure is Some, allows, original_url@)
        }),
{
    let ghost sum = probe_summary(original_url@, state.url@, attempts.range_stage, attempts.standard_get_stage, attempts.head_stage);
    let summary = summarize_stages(original_url, &state.url, attempts);
    let (suggested_name, mut compatibility, mut warnings) = resolve_suggested_name(
        original_url,
        summary.final_url.as_str(),
        match &summary.content_disposition { Some(v) => Some(v.as_str()), None => None },
        match &summary.mime { Some(v) => Some(v.as_str()), None => None },
        match &summary.name_hint { Some(v) => Some(v.as_str()), None => None },
    );
    let recovered = state.resolved_wrapper_page || (state.same_url_wrapper_retries > 0 && !summary.only_html);
    compatibility.wrapper_detected = summary.saw_html;
    compatibility.direct_url_recovered = recovered;
    compatibility.browser_interstitial_only = summary.only_html;
    compatibility.request_referer = copy_opt_string(&state.referer);
    compatibility.request_cookies = copy_opt_string(&state.cookies);
    compatibility.request_method = state.method;
    compatibility.request_form_fields = copy_fields(&state.form_fields);
    let allows = request_context_supports_segmented_transfer(&compatibility.request_method, compatibility.request_form_fields.as_slice());
    let range_observation = if allows { summary.observation } else { RangeObservation::Unknown };
    let range_supported = range_observation == RangeObservation::Supported && allows;
    let resumable = range_supported && (match summary.size { Some(v) => v > 0, None => false });
    append_probe_warnings(&mut warnings, &summary, recovered, attempts.app_api_resolution_failure.is_some(), allows, original_url, Ghost(sum));
    let StageSummary { final_url, size, header_mime, mime, content_disposition, etag, last_modified, protocol, .. } = summary;
    DownloadProbeData {
        final_url,
        size,
        mime_type: mime,
        negotiated_protocol: protocol,
        range_supported,
        range_observation,
        resumable,
        validators: ResumeValidators {
            etag,
            last_modified,
            content_length: size,
            content_type: header_mime,
            content_disposition,
        },
        suggested_name,
        compatibility,
        warnings,
    }
}

/// Where a round of probe requests is.
#[derive(Clone, Copy, Debug, PartialEq, Eq, Structural)]
pub enum ProbePhase {
    Head,
    Range,
    Standard,
    Done,
}

/// The next request of a round, and the phase after it: a HEAD, a range GET and a plain GET
/// for a request shape that can be split, each when the earlier answers call for it; the
/// replayed request itself otherwise.
pub open spec fn next_request_spec(state: ProbeRequestState, phase: ProbePhase, attempts: ProbeAttemptState) -> (Option<ProbeMethod>, ProbePhase) {
    let allows = segmented_shape_spec(state.method, state.form_fields@.len() as int);
    let standard = if crate::probe::standard_probe_spec(
        match attempts.head_stage { Some(s) => Some(s.html_interstitial), None => None },
        match attempts.range_stage { Some(s) => Some(s.html_interstitial), None => None },
    ) { (Some(ProbeMethod::StandardGet), ProbePhase::Done) } else { (None, ProbePhase::Done) };
    let range = if range_probe_spec(state.url@, attempts.head_stage) { (Some(ProbeMethod::RangeGet), ProbePhase::Standard) } else { standard };
    match phase {
        ProbePhase::Head => if allows {
            (Some(ProbeMethod::Head), ProbePhase::Range)
        } else {
            (Some(if state.method == DownloadRequestMethod::Get { ProbeMethod::StandardGet } else { ProbeMethod::FormPost }), ProbePhase::Done)
        },
        ProbePhase::Range => range,
        ProbePhase::Standard => standard,
        ProbePhase::Done => (None, ProbePhase::Done),
    }
}

pub fn next_probe_request(state: &ProbeRequestState, phase: ProbePhase, attempts: &ProbeAttemptState) -> (r: (Option<ProbeMethod>, ProbePhase))
    ensures
        r == next_request_spec(*state, phase, *attempts),
{
    match phase {
        ProbePhase::Head => {
            if state.exact_request_shape_allows_segmentation() {
                (Some(ProbeMethod::Head), ProbePhase::Range)
            } else {
                (Some(probe_method_for_request_context(&state.method)), ProbePhase::Done)
            }
        },
        ProbePhase::Range => {
            if should_try_range_probe(state.url.as_str(), attempts.head_stage.as_ref()) {
                (Some(ProbeMethod::RangeGet), ProbePhase::Standard)
            } else if crate::probe::should_try_standard_probe(attempts.head_stage.as_ref(), attempts.range_stage.as_ref()) {
                (Some(ProbeMethod::StandardGet), ProbePhase::Done)
            } else {
                (None, ProbePhase::Done)
            }
        },
        ProbePhase::Standard => {
            if crate::probe::should_try_standard_probe(attempts.head_stage.as_ref(), attempts.range_stage.as_ref()) {
                (Some(ProbeMethod::StandardGet), ProbePhase::Done)
            } else {
                (None, ProbePhase::Done)
            }
        },
        ProbePhase::Done => (None, ProbePhase::Done),
    }
}

/// A round with nothing recorded yet.
pub fn empty_attempts() -> (r: ProbeAttemptState)
    ensures
        r.failures@.len() == 0,
        r.app_api_resolution_failure is None,
        r.head_stage is None && r.range_stage is None && r.standard_get_stage is None,
{
    ProbeAttemptState {
        failures: Vec::new(),
        app_api_resolution_failure: None,
        head_stage: None,
        range_stage: None,
        standard_get_stage: None,
    }
}

/// Records what a probe request gave: its stage under its method, or its error.
pub fn record_probe_outcome(attempts: &mut ProbeAttemptState, method: ProbeMethod, outcome: Result<ProbeStageMetadata, String>)
    ensures
        match outcome {
            Ok(stage) => {
                &&& final(attempts).failures == old(attempts).failures
                &&& final(attempts).app_api_resolution_failure == old(attempts).app_api_resolution_failure
                &&& final(attempts).head_stage == (if method == ProbeMethod::Head { Some(stage) } else { old(attempts).head_stage })
                &&& final(attempts).range_stage == (if method == ProbeMethod::RangeGet { Some(stage) } else { old(attempts).range_stage })
                &&& final(attempts).standard_get_stage == (if method == ProbeMethod::StandardGet || method == ProbeMethod::FormPost {
                    Some(stage)
                } else {
                    old(attempts).standard_get_stage
                })
            },
            Err(e) => {
                &&& final(attempts).failures@ == old(attempts).failures@.push(e)
                &&& final(attempts).app_api_resolution_failure == old(attempts).app_api_resolution_failure
                &&& final(attempts).head_stage == old(attempts).head_stage
                &&& final(attempts).range_stage == old(attempts).range_stage
                &&& final(attempts).standard_get_stage == old(attempts).standard_get_stage
            },
        },
{
    match outcome {
        Ok(stage) => match method {
            ProbeMethod::Head => { attempts.head_stage = Some(stage); },
            ProbeMethod::RangeGet => { attempts.range_stage = Some(stage); },
            _ => { attempts.standard_get_stage = Some(stage); },
        },
        Err(e) => { attempts.failures.push(e); },
    }
}

/// Why a round failed when no request gave a stage: its first error, or a generic message.
pub open spec fn round_failure_spec(attempts: ProbeAttemptState) -> Option<Seq<char>> {
    if attempts.range_stage is None && attempts.standard_get_stage is None && attempts.head_stage is None {
        Some(if attempts.failures@.len() > 0 { attempts.failures@[0]@ } else { "Probe request failed before metadata could be collected."@ })
    } else {
        None
    }
}

pub fn probe_round_failure(attempts: &ProbeAttemptState) -> (r: Option<String>)
    ensures
        opt_text(r) == round_failure_spec(*attempts),
{
    if attempts.range_stage.is_none() && attempts.standard_get_stage.is_none() && attempts.head_stage.is_none() {
        if attempts.failures.len() > 0 {
            Some(attempts.failures[0].clone())
        } else {
            Some(String::from_str("Probe request failed before metadata could be collected."))
        }
    } else {
        None
    }
}

/// Whether every stage that ran (at least one) saw an HTML wrapper page.
pub open spec fn all_stages_html_spec(attempts: ProbeAttemptState) -> bool {
    (attempts.range_stage is Some || attempts.standard_get_stage is Some || attempts.head_stage is Some)
        && !stage_not_html(attempts.range_stage) && !stage_not_html(attempts.standard_get_stage)
        && !stage_not_html(attempts.head_stage)
}

pub fn all_stages_html(attempts: &ProbeAttemptState) -> (r: bool)
    ensures
        r == all_stages_html_spec(*attempts),
{
    (attempts.range_stage.is_some() || attempts.standard_get_stage.is_some() || attempts.head_stage.is_some())
        && !(match &attempts.range_stage { Some(s) => !s.html_interstitial, None => false })
        && !(match &attempts.standard_get_stage { Some(s) => !s.html_interstitial, None => false })
        && !(match &attempts.head_stage { Some(s) => !s.html_interstitial, None => false })
}

pub open spec fn stage_follow_up(stage: Option<ProbeStageMetadata>) -> Option<(Seq<char>, HtmlFollowUpRequest)> {
    match stage {
        Some(s) => match s.html_resolution {
            Some(h) => match h.follow_up_request {
                Some(req) => Some((h.request_referer@, req)),
                None => None,
            },
            None => None,
        },
        None => None,
    }
}

fn follow_up_of(stage: &Option<ProbeStageMetadata>) -> (r: Option<(String, HtmlFollowUpRequest)>)
    ensures
        match r {
            Some((referer, req)) => stage_follow_up(*stage) matches Some((x, y)) && referer@ == x && req.url == y.url
                && req.method == y.method && req.fields@ == y.fields@,
            None => stage_follow_up(*stage) is None,
        },
{
    match stage {
        Some(s) => match &s.html_resolution {
            Some(h) => match &h.follow_up_request {
                Some(req) => Some((h.request_referer.clone(), copy_follow_up(req))),
                None => None,
            },
            None => None,
        },
        None => None,
    }
}

pub fn copy_follow_up(req: &HtmlFollowUpRequest) -> (r: HtmlFollowUpRequest)
    ensures
        r.url == req.url,
        r.method == req.method,
        r.fields@ == req.fields@,
{
    let mut fields: Vec<(String, String)> = Vec::new();
    let mut i: usize = 0;
    while i < req.fields.len()
        invariant
            i <= req.fields@.len(),
            fields@ == req.fields@.take(i as int),
        decreases req.fields@.len() - i,
    {
        let pair = (req.fields[i].0.clone(), req.fields[i].1.clone());
        fields.push(pair);
        assert(fields@ =~= req.fields@.take(i + 1));
        i = i + 1;
    }
    assert(req.fields@.take(req.fields@.len() as int) =~= req.fields@);
    HtmlFollowUpRequest { url: req.url.clone(), method: req.method, fields }
}

/// The form a wrapper page leads to, when every stage saw only wrapper pages and another
/// hop may be followed: the first stage's (range GET, GET, HEAD) with the page as referer.
pub open spec fn follow_up_spec(attempts: ProbeAttemptState, can_resolve: bool) -> Option<(Seq<char>, HtmlFollowUpRequest)> {
    if !can_resolve || !all_stages_html_spec(attempts) {
        None
    } else {
        first3(stage_follow_up(attempts.range_stage), stage_follow_up(attempts.standard_get_stage), stage_follow_up(attempts.head_stage))
    }
}

pub fn select_html_follow_up_candidate(attempts: &ProbeAttemptState, can_resolve_wrapper_hop: bool) -> (r: Option<(String, HtmlFollowUpRequest)>)
    ensures
        match r {
            Some((referer, req)) => follow_up_spec(*attempts, can_resolve_wrapper_hop) matches Some((x, y)) && referer@ == x
                && req.url == y.url && req.method == y.method && req.fields@ == y.fields@,
            None => follow_up_spec(*attempts, can_resolve_wrapper_hop) is None,
        },
        r is Some ==> can_resolve_wrapper_hop,
{
    if !can_resolve_wrapper_hop || !all_stages_html(attempts) {
        return None;
    }
    let a = follow_up_of(&attempts.range_stage);
    if a.is_some() { return a; }
    let b = follow_up_of(&attempts.standard_get_stage);
    if b.is_some() { return b; }
    follow_up_of(&attempts.head_stage)
}

/// A followed form's answer: on success the request becomes the form's (method, fields and
/// referer); a page that is not a wrapper counts as resolved, and one at another URL is
/// retargeted to (`true`: probe again). The stage is otherwise kept as the GET stage; an
/// error is recorded.
pub fn apply_follow_up_outcome(
    state: &mut ProbeRequestState,
    attempts: &mut ProbeAttemptState,
    referer: String,
    request: &HtmlFollowUpRequest,
    outcome: Result<ProbeStageMetadata, String>,
) -> (restart: bool)
    ensures
        match outcome {
            Err(e) => !restart && *final(state) == *old(state) && final(attempts).failures@ == old(attempts).failures@.push(e)
                && final(attempts).standard_get_stage == old(attempts).standard_get_stage,
            Ok(stage) => {
                &&& final(state).method == (if restart { DownloadRequestMethod::Get } else { request_method_spec(request.method) })
                &&& final(state).cookies == old(state).cookies
                &&& restart == (!stage.html_interstitial && url_key_spec(old(state).url@) != url_key_spec(stage.final_url@))
                &&& restart ==> final(state).url@ == stage.final_url@ && final(state).referer == Some(referer)
                    && final(state).resolved_wrapper_page && final(state).form_fields@.len() == 0
                &&& restart && old(state).resolved_wrapper_hop < HTML_WRAPPER_RESOLVE_MAX_HOPS
                    ==> probe_rounds_left(*final(state)) < probe_rounds_left(*old(state))
                &&& !restart ==> final(state).url == old(state).url && final(state).referer == Some(referer)
                    && fields_view(final(state).form_fields@) == pairs_as_fields(request.fields@)
                    && final(state).resolved_wrapper_page == (old(state).resolved_wrapper_page || !stage.html_interstitial)
                    && final(attempts).standard_get_stage == Some(stage)
            },
        },
{
    match outcome {
        Ok(stage) => {
            state.method = request_method_from_html_follow_up(request.method);
            state.form_fields = request_fields_from_pairs(&request.fields);
            state.referer = Some(referer.clone());
            if !stage.html_interstitial {
                state.resolved_wrapper_page = true;
            }
            if !stage.html_interstitial && !urls_match_after_normalization(state.url.as_str(), stage.final_url.as_str()) {
                state.retarget_to_direct_download(stage.final_url.as_str(), referer);
                return true;
            }
            attempts.standard_get_stage = Some(stage);
            false
        },
        Err(e) => {
            attempts.failures.push(e);
            false
        },
    }
}

pub open spec fn request_method_spec(method: HtmlFollowUpMethod) -> DownloadRequestMethod {
    if method == HtmlFollowUpMethod::Post { DownloadRequestMethod::Post } else { DownloadRequestMethod::Get }
}

pub open spec fn stage_hint(stage: Option<ProbeStageMetadata>) -> Option<HtmlResolutionHint> {
    match stage {
        Some(s) => s.html_resolution,
        None => None,
    }
}

/// The wrapper-page hint of the first stage (range GET, GET, HEAD) that has one.
pub fn first_resolution_hint(attempts: &ProbeAttemptState) -> (r: Option<&HtmlResolutionHint>)
    ensures
        match r {
            Some(h) => first3(stage_hint(attempts.range_stage), stage_hint(attempts.standard_get_stage), stage_hint(attempts.head_stage)) == Some(*h),
            None => first3(stage_hint(attempts.range_stage), stage_hint(attempts.standard_get_stage), stage_hint(attempts.head_stage)) is None,
        },
{
    match &attempts.range_stage {
        Some(s) => match &s.html_resolution { Some(h) => { return Some(h); }, None => {} },
        None => {},
    }
    match &attempts.standard_get_stage {
        Some(s) => match &s.html_resolution { Some(h) => { return Some(h); }, None => {} },
        None => {},
    }
    match &attempts.head_stage {
        Some(s) => match &s.html_resolution { Some(h) => Some(h), None => None },
        None => None,
    }
}

/// A hint's direct download link is followed (`true`: probe again) when another hop may be
/// followed and it leads elsewhere.
pub fn follow_direct_hint(state: &mut ProbeRequestState, hint: &HtmlResolutionHint) -> (restart: bool)
    ensures
        restart == (old(state).resolved_wrapper_hop < HTML_WRAPPER_RESOLVE_MAX_HOPS && hint.direct_download_url is Some
            && url_key_spec(old(state).url@) != url_key_spec(hint.direct_download_url.unwrap()@)),
        restart ==> final(state).url@ == hint.direct_download_url.unwrap()@ && final(state).referer == Some(hint.request_referer)
            && final(state).method == DownloadRequestMethod::Get && final(state).resolved_wrapper_page,
        restart ==> probe_rounds_left(*final(state)) < probe_rounds_left(*old(state)),
        !restart ==> *final(state) == *old(state),
{
    if !state.can_resolve_wrapper_hop() {
        return false;
    }
    match &hint.direct_download_url {
        Some(url) => {
            if !urls_match_after_normalization(state.url.as_str(), url.as_str()) {
                state.retarget_to_direct_download(url.as_str(), hint.request_referer.clone());
                return true;
            }
            false
        },
        None => false,
    }
}

/// The app resolver to ask, when another hop may be followed, every stage saw only wrapper
/// pages, and the page gave no direct link but an app resolver.
pub fn app_api_to_resolve<'a>(state: &ProbeRequestState, attempts: &ProbeAttemptState, hint: &'a HtmlResolutionHint) -> (r: Option<&'a HtmlAppApiHint>)
    ensures
        match r {
            Some(a) => hint.app_api == Some(*a) && state.resolved_wrapper_hop < HTML_WRAPPER_RESOLVE_MAX_HOPS
                && all_stages_html_spec(*attempts) && hint.direct_download_url is None,
            None => !(state.resolved_wrapper_hop < HTML_WRAPPER_RESOLVE_MAX_HOPS && all_stages_html_spec(*attempts)
                && hint.direct_download_url is None && hint.app_api is Some),
        },
{
    if state.can_resolve_wrapper_hop() && all_stages_html(attempts) && hint.direct_download_url.is_none() {
        match &hint.app_api {
            Some(a) => Some(a),
            None => None,
        }
    } else {
        None
    }
}

/// What an app resolver gave for a wrapper page.
#[derive(Clone, Debug)]
pub struct HtmlApiResolvedDownload {
    pub direct_download_url: String,
    pub suggested_name: Option<String>,
    pub request_cookies: Option<String>,
}

/// An app resolver's answer: an error is kept for the warnings; a resolved link brings its
/// cookies and is followed (`true`: probe again) when it leads elsewhere.
pub fn apply_app_api_outcome(
    state: &mut ProbeRequestState,
    attempts: &mut ProbeAttemptState,
    hint: &HtmlResolutionHint,
    outcome: Result<Option<HtmlApiResolvedDownload>, String>,
) -> (restart: bool)
    ensures
        match outcome {
            Err(e) => !restart && *final(state) == *old(state) && final(attempts).app_api_resolution_failure == Some(e),
            Ok(None) => !restart && *final(state) == *old(state) && *final(attempts) == *old(attempts),
            Ok(Some(found)) => {
                &&& *final(attempts) == *old(attempts)
                &&& final(state).cookies == (if found.request_cookies is Some { found.request_cookies } else { old(state).cookies })
                &&& restart == (url_key_spec(old(state).url@) != url_key_spec(found.direct_download_url@))
                &&& restart ==> final(state).url@ == found.direct_download_url@ && final(state).referer == Some(hint.request_referer)
                &&& restart && old(state).resolved_wrapper_hop < HTML_WRAPPER_RESOLVE_MAX_HOPS
                    ==> probe_rounds_left(*final(state)) < probe_rounds_left(*old(state))
                &&& !restart ==> final(state).url == old(state).url && final(state).referer == old(state).referer
            },
        },
{
    match outcome {
        Err(e) => {
            attempts.app_api_resolution_failure = Some(e);
            false
        },
        Ok(None) => false,
        Ok(Some(found)) => {
            if found.request_cookies.is_some() {
                state.cookies = copy_opt_string(&found.request_cookies);
            }
            if !urls_match_after_normalization(state.url.as_str(), found.direct_download_url.as_str()) {
                state.retarget_to_direct_download(found.direct_download_url.as_str(), hint.request_referer.clone());
                return true;
            }
            false
        },
    }
}

/// A wrapper page that names a file, or links back to itself, is asked once more from the
/// same URL (`true`: probe again) while every stage saw only wrapper pages.
pub fn retry_same_url_if_wrapper(state: &mut ProbeRequestState, attempts: &ProbeAttemptState, hint: &HtmlResolutionHint) -> (restart: bool)
    ensures
        restart == (all_stages_html_spec(*attempts)
            && (hint.suggested_name is Some || (hint.direct_download_url is Some
                && url_key_spec(old(state).url@) == url_key_spec(hint.direct_download_url.unwrap()@)))
            && old(state).same_url_wrapper_retries < HTML_WRAPPER_SAME_URL_RETRY_LIMIT),
        restart ==> final(state).url == old(state).url && final(state).referer == Some(hint.request_referer)
            && final(state).same_url_wrapper_retries == old(state).same_url_wrapper_retries + 1,
        restart ==> probe_rounds_left(*final(state)) < probe_rounds_left(*old(state)),
        !restart ==> *final(state) == *old(state),
{
    let same_url_hint = hint.suggested_name.is_some() || (match &hint.direct_download_url {
        Some(candidate) => urls_match_after_normalization(state.url.as_str(), candidate.as_str()),
        None => false,
    });
    if all_stages_html(attempts) && same_url_hint && state.same_url_wrapper_retries < HTML_WRAPPER_SAME_URL_RETRY_LIMIT {
        state.retry_same_url_wrapper(hint.request_referer.clone());
        return true;
    }
    false
}

} // verus!
