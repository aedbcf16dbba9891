//! What one probe response says, read from its status and header values: the size (from
//! Content-Range, else Content-Length), the cleaned MIME type, whether it is a wrapper page,
//! the resume validators and what it shows of range support. The caller reads the header
//! values (as text, when they are text) and, when asked, the page body.

use vstd::prelude::*;
use vstd::string::StringSliceAdditionalSpecFns;
use crate::chars::{lower_chars, trim_ws, TrimClass};
use crate::download_ops::non_empty_spec;
use crate::filename::opt_str_text;
use crate::html::HtmlResolutionHint;
use crate::model::opt_text;
use crate::probe::{range_observation_spec, ProbeStageMetadata, ResumeValidators};
use crate::probe_flow::ProbeMethod;

verus! {

/// The header values of a probe response, as text (none when absent or not text).
#[derive(Clone, Debug)]
pub struct ProbeHeaders {
    pub accept_ranges: Option<String>,
    pub content_range: Option<String>,
    pub content_type: Option<String>,
    pub content_disposition: Option<String>,
    pub content_length: Option<String>,
    pub etag: Option<String>,
    pub last_modified: Option<String>,
}

/// A header value trimmed, none when blank.
pub open spec fn header_text(v: Option<String>) -> Option<Seq<char>> {
    match v {
        Some(s) => non_empty_spec(s@),
        None => None,
    }
}

/// Whether the Accept-Ranges value, trimmed and lower-cased, is `none`.
pub open spec fn accepts_no_ranges(v: Option<String>) -> bool {
    match v {
        Some(s) => lower_chars(trim_ws(s@)) == "none"@,
        None => false,
    }
}

/// The size a response reports: the total of its Content-Range, else its Content-Length.
pub open spec fn stage_size_spec(h: ProbeHeaders) -> Option<u64> {
    let from_range = match crate::http_helpers::content_range_spec(match h.content_range { Some(s) => Some(trim_ws(s@)), None => None }) {
        Some((_, _, total)) => total,
        None => None,
    };
    match from_range {
        Some(t) => Some(t),
        None => match h.content_length {
            Some(s) => crate::http_helpers::parse_u64_spec(s@),
            None => None,
        },
    }
}

/// The metadata of a probe response at `final_url` with `status` and headers `h`, to a
/// range request or not, over `protocol`, with the wrapper-page hint `html_resolution`.
pub open spec fn probe_stage_spec(final_url: Seq<char>, status: u16, used_range_request: bool, h: ProbeHeaders,
    protocol: Seq<char>, html_resolution: Option<HtmlResolutionHint>, m: ProbeStageMetadata) -> bool
{
    let mime = crate::filename::clean_mime_spec(header_text(h.content_type));
    let cd = header_text(h.content_disposition);
    let size = stage_size_spec(h);
    &&& m.final_url@ == final_url
    &&& m.size == size
    &&& opt_text(m.mime_type) == mime
    &&& opt_text(m.negotiated_protocol) == Some(protocol)
    &&& m.range_observation == range_observation_spec(status, used_range_request,
        if accepts_no_ranges(h.accept_ranges) { Some("none".spec_bytes()) } else { None }, h.content_range is Some)
    &&& opt_text(m.validators.etag) == header_text(h.etag)
    &&& opt_text(m.validators.last_modified) == header_text(h.last_modified)
    &&& m.validators.content_length == size
    &&& opt_text(m.validators.content_type) == mime
    &&& opt_text(m.validators.content_disposition) == cd
    &&& m.html_interstitial == crate::html::interstitial_spec(final_url, mime, cd)
    &&& m.html_resolution == html_resolution
}

fn header_value(v: &Option<String>) -> (r: Option<String>)
    ensures
        opt_text(r) == header_text(*v),
{
    match v {
        Some(s) => crate::download_ops::non_empty(s.clone()),
        None => None,
    }
}

fn text_ref(v: &Option<String>) -> (r: Option<&str>)
    ensures
        opt_str_text(r) == opt_text(*v),
{
    match v {
        Some(s) => Some(s.as_str()),
        None => None,
    }
}

/// The size a response reports.
pub fn stage_size(h: &ProbeHeaders) -> (r: Option<u64>)
    ensures
        r == stage_size_spec(*h),
{
    let trimmed: Option<String> = match &h.content_range {
        Some(s) => {
            let cs = crate::text::chars_of(s.as_str());
            let t = crate::chars::trim_chars(cs.as_slice(), TrimClass::WhiteSpace);
            Some(crate::chars::string_from_chars(t.as_slice()))
        },
        None => None,
    };
    let from_range = match crate::http_helpers::parse_content_range_bounds(text_ref(&trimmed)) {
        Some((_, _, total)) => total,
        None => None,
    };
    match from_range {
        Some(t) => Some(t),
        None => match &h.content_length {
            Some(s) => {
                let cs = crate::text::chars_of(s.as_str());
                crate::http_helpers::parse_u64(cs.as_slice())
            },
            None => None,
        },
    }
}

fn no_ranges(v: &Option<String>) -> (r: bool)
    ensures
        r == accepts_no_ranges(*v),
{
    match v {
        Some(s) => {
            let cs = crate::text::chars_of(s.as_str());
            let t = crate::chars::trim_chars(cs.as_slice(), TrimClass::WhiteSpace);
            let l = crate::chars::lower_ascii(t.as_slice());
            let none = crate::text::chars_of("none");
            let r = crate::chars::chars_equal(l.as_slice(), none.as_slice());
            r
        },
        None => false,
    }
}

/// The metadata of one probe response.
pub fn probe_stage_from_headers(
    final_url: &str,
    status: u16,
    used_range_request: bool,
    headers: &ProbeHeaders,
    protocol: &str,
    html_resolution: Option<HtmlResolutionHint>,
) -> (m: ProbeStageMetadata)
    ensures
        probe_stage_spec(final_url@, status, used_range_request, *headers, protocol@, html_resolution, m),
{
    let cd = header_value(&headers.content_disposition);
    let ct = header_value(&headers.content_type);
    let mime = crate::filename::clean_mime_type(text_ref(&ct));
    let size = stage_size(headers);
    let interstitial = crate::html::is_html_interstitial_response(final_url, text_ref(&mime), text_ref(&cd));
    let accept: Option<&str> = if no_ranges(&headers.accept_ranges) { Some("none") } else { None };
    proof { reveal_strlit("none"); }
    let observation = crate::probe::classify_range_observation(status, used_range_request, accept, text_ref(&headers.content_range));
    let validators = ResumeValidators {
        etag: header_value(&headers.etag),
        last_modified: header_value(&headers.last_modified),
        content_length: size,
        content_type: crate::scopes::copy_opt_string(&mime),
        content_disposition: crate::scopes::copy_opt_string(&cd),
    };
    ProbeStageMetadata {
        final_url: final_url.to_owned(),
        size,
        mime_type: mime,
        negotiated_protocol: Some(protocol.to_owned()),
        range_observation: observation,
        validators,
        html_interstitial: interstitial,
        html_resolution,
    }
}

/// Whether the page body is read for a wrapper-page hint: for a wrapper page, unless the
/// request was a HEAD.
pub fn reads_html_body(html_interstitial: bool, method: ProbeMethod) -> (r: bool)
    ensures
        r == (html_interstitial && method != ProbeMethod::Head),
{
    html_interstitial && !matches!(method, ProbeMethod::Head)
}

/// Whether the response stream is handed on for the transfer: when asked, for a GET or form
/// POST that is not a wrapper page.
pub fn hands_over_stream(capture_stream: bool, method: ProbeMethod, html_interstitial: bool) -> (r: bool)
    ensures
        r == (capture_stream && (method == ProbeMethod::StandardGet || method == ProbeMethod::FormPost) && !html_interstitial),
{
    capture_stream && (matches!(method, ProbeMethod::StandardGet) || matches!(method, ProbeMethod::FormPost)) && !html_interstitial
}

/// Bytes of a wrapper page's body read at most.
pub const HTML_WRAPPER_BODY_SCAN_LIMIT_BYTES: usize = 262144;
/// Bytes read between two looks for a resolution in a wrapper page's body.
pub const HTML_WRAPPER_PROGRESSIVE_SCAN_STEP_BYTES: usize = 32768;

/// What to do with one chunk of a wrapper page's body: how many of its bytes to keep,
/// whether to look for a resolution in what is kept, the threshold of the next look if this
/// one finds nothing, and whether reading stops after this chunk.
#[derive(Clone, Copy, Debug, PartialEq, Eq, Structural)]
pub struct ExcerptStep {
    pub take: usize,
    pub scan_now: bool,
    pub next_threshold: usize,
    pub stop_after: bool,
}

/// The first look for a resolution comes after one scan step, or at the limit.
pub fn first_scan_threshold(max_bytes: usize) -> (r: usize)
    ensures
        r == (if HTML_WRAPPER_PROGRESSIVE_SCAN_STEP_BYTES <= max_bytes { HTML_WRAPPER_PROGRESSIVE_SCAN_STEP_BYTES } else { max_bytes }),
{
    if HTML_WRAPPER_PROGRESSIVE_SCAN_STEP_BYTES <= max_bytes { HTML_WRAPPER_PROGRESSIVE_SCAN_STEP_BYTES } else { max_bytes }
}

/// One chunk of `chunk_len` bytes after `buffered` kept ones: as much of it as fits under
/// `max_bytes` is kept; a look is due once the kept bytes reach the threshold or the chunk
/// did not fit, the next threshold one step further (at most the limit); a chunk that did not
/// fit ends the reading.
pub fn excerpt_chunk_step(buffered: usize, next_threshold: usize, chunk_len: usize, max_bytes: usize) -> (r: ExcerptStep)
    requires
        buffered < max_bytes,
    ensures
        r.take == (if chunk_len <= max_bytes - buffered { chunk_len } else { (max_bytes - buffered) as usize }),
        r.scan_now == (buffered + r.take >= next_threshold || r.take < chunk_len),
        r.next_threshold == (if r.scan_now {
            let t = if next_threshold + HTML_WRAPPER_PROGRESSIVE_SCAN_STEP_BYTES > usize::MAX { usize::MAX as int }
                else { next_threshold + HTML_WRAPPER_PROGRESSIVE_SCAN_STEP_BYTES };
            if t <= max_bytes { t } else { max_bytes as int }
        } else {
            next_threshold as int
        }),
        r.stop_after == (r.take < chunk_len),
        buffered + r.take <= max_bytes,
{
    let remaining = max_bytes - buffered;
    let take = if chunk_len <= remaining { chunk_len } else { remaining };
    let scan_now = buffered + take >= next_threshold || take < chunk_len;
    let next = if scan_now {
        let t = next_threshold.saturating_add(HTML_WRAPPER_PROGRESSIVE_SCAN_STEP_BYTES);
        if t <= max_bytes { t } else { max_bytes }
    } else {
        next_threshold
    };
    ExcerptStep { take, scan_now, next_threshold: next, stop_after: take < chunk_len }
}

} // verus!
