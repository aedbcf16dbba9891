//! Interpreting probe responses: byte-range support and negotiated protocols.

use vstd::prelude::*;
use vstd::string::StringSliceAdditionalSpecFns;
use crate::text::{lower_seq, bytes_equal_ci, str_eq_ci};
use crate::html::HtmlResolutionHint;
use crate::model::DownloadCompatibility;

verus! {

/// What responses showed about byte-range support.
#[derive(Clone, Copy, Debug, PartialEq, Eq, Structural)]
pub enum RangeObservation {
    Supported,
    Unsupported,
    Unknown,
}

/// Resume validators a server sent.
#[derive(Clone, Debug)]
pub struct ResumeValidators {
    pub etag: Option<String>,
    pub last_modified: Option<String>,
    pub content_length: Option<u64>,
    pub content_type: Option<String>,
    pub content_disposition: Option<String>,
}

impl Default for ResumeValidators {
    fn default() -> (r: Self)
        ensures
            r.etag is None,
            r.last_modified is None,
            r.content_length is None,
            r.content_type is None,
            r.content_disposition is None,
    {
        ResumeValidators { etag: None, last_modified: None, content_length: None, content_type: None, content_disposition: None }
    }
}

/// What one probe request (HEAD, range GET or GET) observed.
#[derive(Clone, Debug)]
pub struct ProbeStageMetadata {
    pub final_url: String,
    pub size: Option<u64>,
    pub mime_type: Option<String>,
    pub negotiated_protocol: Option<String>,
    pub range_observation: RangeObservation,
    pub validators: ResumeValidators,
    pub html_interstitial: bool,
    pub html_resolution: Option<HtmlResolutionHint>,
}

/// The result of probing a download URL.
#[derive(Clone, Debug)]
pub struct DownloadProbeData {
    pub final_url: String,
    pub size: Option<u64>,
    pub mime_type: Option<String>,
    pub negotiated_protocol: Option<String>,
    pub range_supported: bool,
    pub range_observation: RangeObservation,
    pub resumable: bool,
    pub validators: ResumeValidators,
    pub suggested_name: String,
    pub compatibility: DownloadCompatibility,
    pub warnings: Vec<String>,
}

/// Range support from one response: a 206 or a Content-Range proves it, a plain 200 to a
/// range request or `Accept-Ranges: none` disproves it, anything else leaves it open.
pub open spec fn range_observation_spec(status: u16, used_range_request: bool, accept_ranges: Option<Seq<u8>>, has_content_range: bool) -> RangeObservation {
    if status == 206 || has_content_range {
        RangeObservation::Supported
    } else if used_range_request && status == 200 {
        RangeObservation::Unsupported
    } else if accept_ranges == Some("none".spec_bytes()) {
        RangeObservation::Unsupported
    } else {
        RangeObservation::Unknown
    }
}

pub open spec fn opt_str_bytes(value: Option<&str>) -> Option<Seq<u8>> {
    match value {
        Some(v) => Some(v.spec_bytes()),
        None => None,
    }
}

pub fn classify_range_observation(
    status: u16,
    used_range_request: bool,
    accept_ranges: Option<&str>,
    content_range: Option<&str>,
) -> (r: RangeObservation)
    ensures
        r == range_observation_spec(status, used_range_request, opt_str_bytes(accept_ranges), content_range is Some),
{
    if status == 206 {
        return RangeObservation::Supported;
    }
    if content_range.is_some() {
        return RangeObservation::Supported;
    }
    if used_range_request && status == 200 {
        return RangeObservation::Unsupported;
    }
    match accept_ranges {
        Some(v) => {
            if crate::text::bytes_equal(v.as_bytes(), "none".as_bytes()) {
                return RangeObservation::Unsupported;
            }
        },
        None => {},
    }
    RangeObservation::Unknown
}

/// The strongest observation among the stages: any proof of support wins, then any
/// disproof, otherwise unknown.
pub open spec fn strongest_spec(stages: Seq<Option<RangeObservation>>) -> RangeObservation {
    if exists|i: int| 0 <= i < stages.len() && stages[i] == Some(RangeObservation::Supported) {
        RangeObservation::Supported
    } else if exists|i: int| 0 <= i < stages.len() && stages[i] == Some(RangeObservation::Unsupported) {
        RangeObservation::Unsupported
    } else {
        RangeObservation::Unknown
    }
}

pub open spec fn stage_observation(stage: Option<&ProbeStageMetadata>) -> Option<RangeObservation> {
    match stage {
        Some(s) => Some(s.range_observation),
        None => None,
    }
}

pub fn strongest_range_observation(
    range_stage: Option<&ProbeStageMetadata>,
    standard_get_stage: Option<&ProbeStageMetadata>,
    head_stage: Option<&ProbeStageMetadata>,
) -> (r: RangeObservation)
    ensures
        r == strongest_spec(seq![stage_observation(range_stage), stage_observation(standard_get_stage), stage_observation(head_stage)]),
{
    let ghost stages = seq![stage_observation(range_stage), stage_observation(standard_get_stage), stage_observation(head_stage)];
    let a = match range_stage { Some(s) => Some(s.range_observation), None => None };
    let b = match standard_get_stage { Some(s) => Some(s.range_observation), None => None };
    let c = match head_stage { Some(s) => Some(s.range_observation), None => None };
    if a == Some(RangeObservation::Supported) || b == Some(RangeObservation::Supported) || c == Some(RangeObservation::Supported) {
        proof {
            if a == Some(RangeObservation::Supported) { assert(stages[0] == a); }
            else if b == Some(RangeObservation::Supported) { assert(stages[1] == b); }
            else { assert(stages[2] == c); }
        }
        return RangeObservation::Supported;
    }
    assert(!(exists|i: int| 0 <= i < stages.len() && stages[i] == Some(RangeObservation::Supported))) by {
        assert forall|i: int| 0 <= i < stages.len() implies stages[i] != Some(RangeObservation::Supported) by {
            if i == 0 { assert(stages[0] == a); } else if i == 1 { assert(stages[1] == b); } else { assert(stages[2] == c); }
        }
    }
    if a == Some(RangeObservation::Unsupported) || b == Some(RangeObservation::Unsupported) || c == Some(RangeObservation::Unsupported) {
        proof {
            if a == Some(RangeObservation::Unsupported) { assert(stages[0] == a); }
            else if b == Some(RangeObservation::Unsupported) { assert(stages[1] == b); }
            else { assert(stages[2] == c); }
        }
        return RangeObservation::Unsupported;
    }
    assert(!(exists|i: int| 0 <= i < stages.len() && stages[i] == Some(RangeObservation::Unsupported))) by {
        assert forall|i: int| 0 <= i < stages.len() implies stages[i] != Some(RangeObservation::Unsupported) by {
            if i == 0 { assert(stages[0] == a); } else if i == 1 { assert(stages[1] == b); } else { assert(stages[2] == c); }
        }
    }
    RangeObservation::Unknown
}

/// A plain GET is tried when no stage ran yet or every stage that ran only saw an HTML
/// interstitial page.
pub open spec fn standard_probe_spec(head_stage: Option<bool>, range_stage: Option<bool>) -> bool {
    (head_stage is None && range_stage is None)
        || !((range_stage matches Some(h) && !h) || (head_stage matches Some(h) && !h))
}

pub open spec fn stage_interstitial(stage: Option<&ProbeStageMetadata>) -> Option<bool> {
    match stage {
        Some(s) => Some(s.html_interstitial),
        None => None,
    }
}

pub fn should_try_standard_probe(head_stage: Option<&ProbeStageMetadata>, range_stage: Option<&ProbeStageMetadata>) -> (r: bool)
    ensures
        r == standard_probe_spec(stage_interstitial(head_stage), stage_interstitial(range_stage)),
{
    if head_stage.is_none() && range_stage.is_none() {
        return true;
    }
    let range_real = match range_stage { Some(s) => !s.html_interstitial, None => false };
    let head_real = match head_stage { Some(s) => !s.html_interstitial, None => false };
    !(range_real || head_real)
}

/// Labels of protocols that multiplex requests over one connection.
pub open spec fn multiplexed_label_spec(label: Seq<u8>) -> bool {
    normalized_kind(label) == 2 || normalized_kind(label) == 3
}

/// 2 for the HTTP/2 aliases, 3 for the HTTP/3 aliases, 0 otherwise (ASCII case ignored).
pub open spec fn normalized_kind(label: Seq<u8>) -> int {
    let l = lower_seq(label);
    if l == lower_seq("http2".spec_bytes()) || l == lower_seq("h2".spec_bytes()) || l == lower_seq("http/2".spec_bytes()) {
        2
    } else if l == lower_seq("http3".spec_bytes()) || l == lower_seq("h3".spec_bytes()) || l == lower_seq("http/3".spec_bytes()) {
        3
    } else {
        0
    }
}

fn protocol_kind(label: &[u8]) -> (r: u8)
    ensures
        r == normalized_kind(label@),
{
    if bytes_equal_ci(label, "http2".as_bytes()) || bytes_equal_ci(label, "h2".as_bytes()) || bytes_equal_ci(label, "http/2".as_bytes()) {
        2
    } else if bytes_equal_ci(label, "http3".as_bytes()) || bytes_equal_ci(label, "h3".as_bytes()) || bytes_equal_ci(label, "http/3".as_bytes()) {
        3
    } else {
        0
    }
}

pub fn is_multiplexed_label(label: &[u8]) -> (r: bool)
    ensures
        r == multiplexed_label_spec(label@),
{
    let k = protocol_kind(label);
    k == 2 || k == 3
}

/// The canonical label of a protocol: `http2` or `http3` for their aliases, the label itself otherwise.
pub open spec fn normalized_protocol_spec(label: Seq<char>) -> Seq<char> {
    let k = normalized_kind(vstd::utf8::encode_utf8(label));
    if k == 2 { "http2"@ } else if k == 3 { "http3"@ } else { label }
}

pub fn normalize_protocol_label(label: &str) -> (r: String)
    ensures
        r@ == normalized_protocol_spec(label@),
{
    let k = protocol_kind(label.as_bytes());
    if k == 2 {
        String::from_str("http2")
    } else if k == 3 {
        String::from_str("http3")
    } else {
        label.to_owned()
    }
}

} // verus!
