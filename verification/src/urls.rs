//! What the WHATWG URL parser of the `url` crate makes of a text, as plain values.

use vstd::prelude::*;

verus! {

/// The decoded `application/x-www-form-urlencoded` pairs of the query of the URL that a text
/// parses to, in order; `None` when the text is not a URL.
pub uninterp spec fn url_query_pairs(url: Seq<char>) -> Option<Seq<(Seq<char>, Seq<char>)>>;

/// The `/`-separated segments of the path of the URL that a text parses to (not decoded);
/// `None` when the text is not a URL or its URL cannot be a base.
pub uninterp spec fn url_path_segments(url: Seq<char>) -> Option<Seq<Seq<char>>>;

/// The serialization of the URL that a text parses to, with its fragment removed; `None`
/// when the text is not a URL.
pub uninterp spec fn url_without_fragment(url: Seq<char>) -> Option<Seq<char>>;

/// The serialization of `candidate` resolved against the URL that `base` parses to; `None`
/// when either does not parse.
pub uninterp spec fn url_join(base: Seq<char>, candidate: Seq<char>) -> Option<Seq<char>>;

/// The scheme, host (when it has one), path and serialization of the URL that a text parses
/// to; `None` when the text is not a URL.
pub uninterp spec fn url_parts(url: Seq<char>) -> Option<(Seq<char>, Option<Seq<char>>, Seq<char>, Seq<char>)>;

/// The parts of a parsed URL.
#[derive(Clone, Debug)]
pub struct UrlParts {
    pub scheme: String,
    pub host: Option<String>,
    pub path: String,
    pub serialized: String,
}

pub open spec fn parts_view(p: Option<UrlParts>) -> Option<(Seq<char>, Option<Seq<char>>, Seq<char>, Seq<char>)> {
    match p {
        Some(v) => Some((v.scheme@, crate::model::opt_text(v.host), v.path@, v.serialized@)),
        None => None,
    }
}

pub open spec fn pairs_view(pairs: Option<Vec<(String, String)>>) -> Option<Seq<(Seq<char>, Seq<char>)>> {
    match pairs {
        Some(v) => Some(v@.map_values(|p: (String, String)| (p.0@, p.1@))),
        None => None,
    }
}

pub open spec fn strings_view(items: Option<Vec<String>>) -> Option<Seq<Seq<char>>> {
    match items {
        Some(v) => Some(v@.map_values(|s: String| s@)),
        None => None,
    }
}

/// `url::Url::parse` followed by `query_pairs`: the decoded query pairs, in order.
#[verifier::external_body]
pub fn query_pairs_of(url: &str) -> (r: Option<Vec<(String, String)>>)
    ensures
        pairs_view(r) == url_query_pairs(url@),
{
    match url::Url::parse(url) {
        Ok(parsed) => Some(parsed.query_pairs().map(|(k, v)| (k.into_owned(), v.into_owned())).collect()),
        Err(_) => None,
    }
}

/// `url::Url::parse` followed by `path_segments`: the raw path segments.
#[verifier::external_body]
pub fn path_segments_of(url: &str) -> (r: Option<Vec<String>>)
    ensures
        strings_view(r) == url_path_segments(url@),
{
    match url::Url::parse(url) {
        Ok(parsed) => parsed.path_segments().map(|segments| segments.map(|s| s.to_string()).collect()),
        Err(_) => None,
    }
}

/// `url::Url::parse`, `set_fragment(None)` and the serialization of the result.
#[verifier::external_body]
pub fn without_fragment(url: &str) -> (r: Option<String>)
    ensures
        crate::model::opt_text(r) == url_without_fragment(url@),
{
    match url::Url::parse(url) {
        Ok(mut parsed) => {
            parsed.set_fragment(None);
            Some(parsed.to_string())
        },
        Err(_) => None,
    }
}

/// `url::Url::parse` of `base`, then `join` of `candidate`, serialized.
#[verifier::external_body]
pub fn join_url(base: &str, candidate: &str) -> (r: Option<String>)
    ensures
        crate::model::opt_text(r) == url_join(base@, candidate@),
{
    match url::Url::parse(base) {
        Ok(parsed) => match parsed.join(candidate) {
            Ok(joined) => Some(joined.to_string()),
            Err(_) => None,
        },
        Err(_) => None,
    }
}

/// `url::Url::parse`, read back as its scheme, `host_str`, path and serialization.
#[verifier::external_body]
pub fn url_parts_of(url: &str) -> (r: Option<UrlParts>)
    ensures
        parts_view(r) == url_parts(url@),
{
    match url::Url::parse(url) {
        Ok(parsed) => Some(UrlParts {
            scheme: parsed.scheme().to_string(),
            host: parsed.host_str().map(|h| h.to_string()),
            path: parsed.path().to_string(),
            serialized: parsed.to_string(),
        }),
        Err(_) => None,
    }
}

} // verus!
