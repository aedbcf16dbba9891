//! Recognizing HTML wrapper pages that stand in front of a download, and reading file name
//! hints out of them.

use vstd::prelude::*;
use crate::chars::{
    before_first, contains_char, contains_sub, contains_text, lower_ascii, lower_chars, prefix_before, replace_all,
    replace_text, split_on, split_text, string_from_chars, trim_by, trim_chars, trim_ws, vecs_view, TrimClass,
};
use crate::filename::{
    clean_mime_spec, disposition_name_spec, equals_text, extract_filename_from_content_disposition,
    best_url_filename_candidate, best_url_path_candidate, opt_str_text, or_cand, url_filename_spec, url_path_spec,
    usable_ext_spec, usable_extension, utf8_len,
};
use crate::filename_policy::{sanitize_filename_leaf, sanitize_leaf_spec};
use crate::model::opt_text;
use crate::patterns::{group_captures, regex_group_captures, texts_of};
use crate::text::chars_of;
use crate::urls::{url_without_fragment, without_fragment};

verus! {

pub const HTML_FILENAME_CANDIDATE_MIN_SCORE: i32 = 90;

/// Where an app-backed wrapper page keeps the configuration of its resolver API.
#[derive(Clone, Debug)]
pub struct HtmlAppApiHint {
    pub config_url: Option<String>,
    pub inline_api_base_url: Option<String>,
    pub inline_website_token_seed: Option<String>,
    pub content_id: String,
}

/// HTTP method of a form a wrapper page submits.
#[derive(Clone, Copy, Debug, PartialEq, Eq, Structural)]
pub enum HtmlFollowUpMethod {
    Get,
    Post,
}

/// The form submission a wrapper page leads to.
#[derive(Clone, Debug)]
pub struct HtmlFollowUpRequest {
    pub url: String,
    pub method: HtmlFollowUpMethod,
    pub fields: Vec<(String, String)>,
}

/// What a wrapper page revealed of the download behind it.
#[derive(Clone, Debug)]
pub struct HtmlResolutionHint {
    pub direct_download_url: Option<String>,
    pub request_referer: String,
    pub suggested_name: Option<String>,
    pub app_api: Option<HtmlAppApiHint>,
    pub follow_up_request: Option<HtmlFollowUpRequest>,
}

pub const HTML_META_TITLE_RE: &'static str = r#"(?is)<meta[^>]+(?:property|name)\s*=\s*["'](?:og:title|twitter:title|title)["'][^>]+content\s*=\s*["']([^"'>]{1,260})["']"#;
pub const HTML_FILENAME_JSON_RE: &'static str = r#"(?is)"(?:fileName|filename|file_name|downloadName|download_name|displayName|display_name|suggestedName|name|title)"\s*:\s*"([^"]{1,260})""#;
pub const HTML_FILENAME_SCRIPT_RE: &'static str = r#"(?is)(?:fileName|filename|file_name|downloadName|download_name|displayName|display_name|suggestedName|name|title)\s*[:=]\s*["']([^"']{1,260})["']"#;
pub const HTML_FILENAME_ATTR_RE: &'static str = r#"(?is)(?:data-filename|data-file-name|data-name|download)\s*=\s*["']([^"'<>]{1,260})["']"#;
pub const HTML_TITLE_RE: &'static str = r#"(?is)<title[^>]*>([^<]{1,260})</title>"#;

/// The common HTML character references for `&`, `"` and `'` decoded, in that order.
pub open spec fn decode_entities_spec(v: Seq<char>) -> Seq<char> {
    let a = replace_all(v, "&amp;"@, "&"@);
    let b = replace_all(a, "&#38;"@, "&"@);
    let c = replace_all(b, "&quot;"@, "\""@);
    let d = replace_all(c, "&#34;"@, "\""@);
    let e = replace_all(d, "&#39;"@, "'"@);
    replace_all(e, "&apos;"@, "'"@)
}

pub fn decode_basic_html_entities(v: &[char]) -> (r: Vec<char>)
    ensures
        r@ == decode_entities_spec(v@),
{
    proof {
        reveal_strlit("&amp;");
        reveal_strlit("&#38;");
        reveal_strlit("&quot;");
        reveal_strlit("&#34;");
        reveal_strlit("&#39;");
        reveal_strlit("&apos;");
    }
    let a = replace_text(v, "&amp;", "&");
    let b = replace_text(a.as_slice(), "&#38;", "&");
    let c = replace_text(b.as_slice(), "&quot;", "\"");
    let d = replace_text(c.as_slice(), "&#34;", "\"");
    let e = replace_text(d.as_slice(), "&#39;", "'");
    replace_text(e.as_slice(), "&apos;", "'")
}

/// The trimmed, non-empty pieces of `parts[..n]`.
pub open spec fn trimmed_nonblank(parts: Seq<Seq<char>>, n: int) -> Seq<Seq<char>>
    decreases n,
{
    if n <= 0 || n > parts.len() {
        Seq::empty()
    } else {
        let prev = trimmed_nonblank(parts, n - 1);
        let t = trim_ws(parts[n - 1]);
        if t.len() > 0 { prev.push(t) } else { prev }
    }
}

/// `segs[..n]` with every segment that holds `sep` split on it (pieces trimmed, blank ones dropped).
pub open spec fn expand_segments(segs: Seq<Seq<char>>, sep: Seq<char>, n: int) -> Seq<Seq<char>>
    decreases n,
{
    if n <= 0 || n > segs.len() {
        Seq::empty()
    } else {
        let prev = expand_segments(segs, sep, n - 1);
        let seg = segs[n - 1];
        if contains_sub(seg, sep) {
            let parts = split_on(seg, sep);
            prev + trimmed_nonblank(parts, parts.len() as int)
        } else {
            prev.push(seg)
        }
    }
}

pub open spec fn expand_all(segs: Seq<Seq<char>>, sep: Seq<char>) -> Seq<Seq<char>> {
    expand_segments(segs, sep, segs.len() as int)
}

/// The pieces of a page title that may be a file name: split on ` | `, ` - ` and ` :: `.
pub open spec fn html_candidates_spec(v: Seq<char>) -> Seq<Seq<char>> {
    let s0 = seq![trim_ws(v)];
    expand_all(expand_all(expand_all(s0, " | "@), " - "@), " :: "@)
}

fn trimmed_nonblank_parts(parts: &Vec<Vec<char>>) -> (r: Vec<Vec<char>>)
    ensures
        vecs_view(r@) == trimmed_nonblank(vecs_view(parts@), parts@.len() as int),
{
    let ghost pv = vecs_view(parts@);
    let mut out: Vec<Vec<char>> = Vec::new();
    let mut i: usize = 0;
    while i < parts.len()
        invariant
            i <= parts@.len(),
            pv == vecs_view(parts@),
            vecs_view(out@) == trimmed_nonblank(pv, i as int),
        decreases parts@.len() - i,
    {
        let t = trim_chars(parts[i].as_slice(), TrimClass::WhiteSpace);
        assert(pv[i as int] == parts@[i as int]@);
        if t.len() > 0 {
            let ghost before = out@;
            out.push(t);
            assert(vecs_view(out@) =~= vecs_view(before).push(t@));
        }
        i = i + 1;
    }
    out
}

fn expand_on(segs: &Vec<Vec<char>>, sep: &str) -> (r: Vec<Vec<char>>)
    requires
        sep@.len() > 0,
    ensures
        vecs_view(r@) == expand_all(vecs_view(segs@), sep@),
{
    let sep_chars = chars_of(sep);
    let ghost sv = vecs_view(segs@);
    let mut out: Vec<Vec<char>> = Vec::new();
    let mut i: usize = 0;
    while i < segs.len()
        invariant
            i <= segs@.len(),
            sv == vecs_view(segs@),
            sep_chars@ == sep@,
            sep@.len() > 0,
            vecs_view(out@) == expand_segments(sv, sep@, i as int),
        decreases segs@.len() - i,
    {
        let seg = &segs[i];
        assert(sv[i as int] == seg@);
        if contains_text(seg.as_slice(), sep) {
            let parts = split_text(seg.as_slice(), sep_chars.as_slice());
            let kept = trimmed_nonblank_parts(&parts);
            let ghost before = out@;
            let mut k: usize = 0;
            while k < kept.len()
                invariant
                    k <= kept@.len(),
                    vecs_view(out@) == vecs_view(before) + vecs_view(kept@).take(k as int),
                decreases kept@.len() - k,
            {
                let item = crate::chars::slice_chars(kept[k].as_slice(), 0, kept[k].len());
                assert(item@ =~= kept@[k as int]@);
                let ghost prev = out@;
                out.push(item);
                assert(vecs_view(out@) =~= vecs_view(prev).push(item@));
                assert(vecs_view(kept@).take(k + 1) =~= vecs_view(kept@).take(k as int).push(kept@[k as int]@));
                assert(vecs_view(out@) =~= vecs_view(before) + vecs_view(kept@).take(k + 1));
                k = k + 1;
            }
            assert(vecs_view(kept@).take(kept@.len() as int) =~= vecs_view(kept@));
            assert(vecs_view(parts@).len() == parts@.len());
        } else {
            let item = crate::chars::slice_chars(seg.as_slice(), 0, seg.len());
            assert(item@ =~= seg@);
            let ghost before = out@;
            out.push(item);
            assert(vecs_view(out@) =~= vecs_view(before).push(seg@));
        }
        i = i + 1;
    }
    out
}

pub fn html_filename_candidates(v: &[char]) -> (r: Vec<Vec<char>>)
    ensures
        vecs_view(r@) == html_candidates_spec(v@),
{
    proof {
        reveal_strlit(" | ");
        reveal_strlit(" - ");
        reveal_strlit(" :: ");
    }
    let t = trim_chars(v, TrimClass::WhiteSpace);
    let mut s0: Vec<Vec<char>> = Vec::new();
    s0.push(t);
    assert(vecs_view(s0@) =~= seq![trim_ws(v@)]);
    let s1 = expand_on(&s0, " | ");
    let s2 = expand_on(&s1, " - ");
    expand_on(&s2, " :: ")
}

/// The first of `cands[i..]` that sanitizes to a name with a usable extension.
pub open spec fn first_named_candidate(cands: Seq<Seq<char>>, i: int) -> Option<Seq<char>>
    decreases cands.len() - i,
{
    if i < 0 || i >= cands.len() {
        None
    } else {
        match sanitize_leaf_spec(cands[i]) {
            Some(s) => if usable_ext_spec(s) is Some { Some(s) } else { first_named_candidate(cands, i + 1) },
            None => first_named_candidate(cands, i + 1),
        }
    }
}

/// Escapes that scripts use inside embedded names, resolved.
pub open spec fn unescape_embedded_spec(v: Seq<char>) -> Seq<char> {
    let a = replace_all(decode_entities_spec(v), "\\u0026"@, "&"@);
    let b = replace_all(a, "\\u003a"@, ":"@);
    let c = replace_all(b, "\\u003A"@, ":"@);
    let d = replace_all(c, "\\u002e"@, "."@);
    let e = replace_all(d, "\\u002E"@, "."@);
    let f = replace_all(e, "\\\""@, "\""@);
    replace_all(f, "\\'"@, "'"@)
}

/// The file name an embedded text names: quotes and spaces trimmed, escapes resolved, and the
/// first title piece that is a file name with a usable extension.
pub open spec fn embedded_filename_spec(raw: Seq<char>) -> Option<Seq<char>> {
    let t = trim_by(trim_ws(raw), TrimClass::QuoteOrSpace);
    if t.len() == 0 {
        None
    } else {
        first_named_candidate(html_candidates_spec(unescape_embedded_spec(t)), 0)
    }
}

pub fn normalize_embedded_html_filename(raw: &str) -> (r: Option<String>)
    ensures
        opt_text(r) == embedded_filename_spec(raw@),
{
    proof {
        reveal_strlit("\\u0026");
        reveal_strlit("\\u003a");
        reveal_strlit("\\u003A");
        reveal_strlit("\\u002e");
        reveal_strlit("\\u002E");
        reveal_strlit("\\\"");
        reveal_strlit("\\'");
    }
    let all = chars_of(raw);
    let t0 = trim_chars(all.as_slice(), TrimClass::WhiteSpace);
    let t = trim_chars(t0.as_slice(), TrimClass::QuoteOrSpace);
    if t.len() == 0 {
        return None;
    }
    let d = decode_basic_html_entities(t.as_slice());
    let a = replace_text(d.as_slice(), "\\u0026", "&");
    let b = replace_text(a.as_slice(), "\\u003a", ":");
    let c = replace_text(b.as_slice(), "\\u003A", ":");
    let e = replace_text(c.as_slice(), "\\u002e", ".");
    let f = replace_text(e.as_slice(), "\\u002E", ".");
    let g = replace_text(f.as_slice(), "\\\"", "\"");
    let normalized = replace_text(g.as_slice(), "\\'", "'");
    let cands = html_filename_candidates(normalized.as_slice());
    let ghost cv = vecs_view(cands@);
    assert(embedded_filename_spec(raw@) == first_named_candidate(cv, 0));
    let mut i: usize = 0;
    while i < cands.len()
        invariant
            i <= cands@.len(),
            cv == vecs_view(cands@),
            embedded_filename_spec(raw@) == first_named_candidate(cv, 0),
            first_named_candidate(cv, 0) == first_named_candidate(cv, i as int),
        decreases cands@.len() - i,
    {
        assert(cv[i as int] == cands@[i as int]@);
        let text = string_from_chars(cands[i].as_slice());
        match sanitize_filename_leaf(text.as_str()) {
            Some(s) => {
                let sc = chars_of(s.as_str());
                if usable_extension(sc.as_slice()).is_some() {
                    return Some(s);
                }
            },
            None => {},
        }
        i = i + 1;
    }
    None
}

/// The exact UTF-8 length of a text.
pub fn utf8_length(s: &[char]) -> (r: u128)
    ensures
        r == utf8_len(s@),
{
    let mut acc: u128 = 0;
    let mut i: usize = 0;
    while i < s.len()
        invariant
            i <= s@.len(),
            acc == utf8_len(s@.take(i as int)),
            acc <= 4 * i,
        decreases s@.len() - i,
    {
        assert(s@.take(i + 1).drop_last() =~= s@.take(i as int));
        let u = s[i] as u32;
        let w: u128 = if u < 0x80 { 1 } else if u < 0x800 { 2 } else if u < 0x10000 { 3 } else { 4 };
        acc = acc + w;
        i = i + 1;
    }
    assert(s@.take(s@.len() as int) =~= s@);
    acc
}

/// How much a page text looks like a file name.
pub open spec fn hint_score_spec(c: Seq<char>) -> int {
    (if usable_ext_spec(c) is Some { 120int } else { 0int }) + (if utf8_len(c) >= 10 { 10int } else { 0int })
        + (if c.contains(' ') || c.contains('_') || c.contains('-') { 5int } else { 0int })
}

pub fn score_html_filename_candidate(c: &[char]) -> (r: i32)
    ensures
        r == hint_score_spec(c@),
{
    let mut score: i32 = 0;
    if usable_extension(c).is_some() {
        score = score + 120;
    }
    if utf8_length(c) >= 10 {
        score = score + 10;
    }
    if contains_char(c, ' ') || contains_char(c, '_') || contains_char(c, '-') {
        score = score + 5;
    }
    score
}

/// Every raw name the page offers, pattern by pattern.
pub open spec fn hint_texts_spec(body: Seq<char>) -> Seq<Seq<char>> {
    regex_group_captures(HTML_META_TITLE_RE@, body, 1) + regex_group_captures(HTML_FILENAME_JSON_RE@, body, 1)
        + regex_group_captures(HTML_FILENAME_SCRIPT_RE@, body, 1) + regex_group_captures(HTML_FILENAME_ATTR_RE@, body, 1)
        + regex_group_captures(HTML_TITLE_RE@, body, 1)
}

/// The best-scoring name among `raws[..n]` (scoring at least the minimum); on a tie the
/// earlier one stays unless the later one is strictly shorter.
pub open spec fn best_hint(raws: Seq<Seq<char>>, n: int) -> Option<(int, Seq<char>)>
    decreases n,
{
    if n <= 0 || n > raws.len() {
        None
    } else {
        let prev = best_hint(raws, n - 1);
        match embedded_filename_spec(raws[n - 1]) {
            None => prev,
            Some(c) => {
                let sc = hint_score_spec(c);
                if sc < HTML_FILENAME_CANDIDATE_MIN_SCORE {
                    prev
                } else {
                    match prev {
                        Some((bs, bn)) => if bs > sc || (bs == sc && utf8_len(bn) <= utf8_len(c)) { prev } else { Some((sc, c)) },
                        None => Some((sc, c)),
                    }
                }
            },
        }
    }
}

pub open spec fn filename_hint_spec(body: Seq<char>) -> Option<Seq<char>> {
    let raws = hint_texts_spec(body);
    match best_hint(raws, raws.len() as int) {
        Some((_, c)) => Some(c),
        None => None,
    }
}

/// The file name an HTML wrapper page suggests, from its titles, scripts and attributes.
pub fn extract_html_filename_hint(body: &str) -> (r: Option<String>)
    ensures
        opt_text(r) == filename_hint_spec(body@),
{
    let mut raws = group_captures(HTML_META_TITLE_RE, body, 1);
    let mut b = group_captures(HTML_FILENAME_JSON_RE, body, 1);
    let mut c = group_captures(HTML_FILENAME_SCRIPT_RE, body, 1);
    let mut d = group_captures(HTML_FILENAME_ATTR_RE, body, 1);
    let mut e = group_captures(HTML_TITLE_RE, body, 1);
    let ghost (va, vb, vc, vd, ve) = (texts_of(raws), texts_of(b), texts_of(c), texts_of(d), texts_of(e));
    raws.append(&mut b);
    raws.append(&mut c);
    raws.append(&mut d);
    raws.append(&mut e);
    let ghost rv = texts_of(raws);
    assert(rv =~= va + vb + vc + vd + ve);
    let mut best: Option<(i32, Vec<char>)> = None;
    let mut i: usize = 0;
    while i < raws.len()
        invariant
            i <= raws@.len(),
            rv == texts_of(raws),
            match best_hint(rv, i as int) {
                Some((bs, bn)) => best matches Some((s, n)) && s == bs && n@ == bn,
                None => best is None,
            },
        decreases raws@.len() - i,
    {
        assert(rv[i as int] == raws@[i as int]@);
        match normalize_embedded_html_filename(raws[i].as_str()) {
            None => {},
            Some(candidate_text) => {
                let candidate = chars_of(candidate_text.as_str());
                let score = score_html_filename_candidate(candidate.as_slice());
                if score >= HTML_FILENAME_CANDIDATE_MIN_SCORE {
                    let keep = match &best {
                        Some((bs, bn)) => *bs > score || (*bs == score && utf8_length(bn.as_slice()) <= utf8_length(candidate.as_slice())),
                        None => false,
                    };
                    if !keep {
                        best = Some((score, candidate));
                    }
                }
            },
        }
        i = i + 1;
    }
    match best {
        Some((_, n)) => Some(string_from_chars(n.as_slice())),
        None => None,
    }
}

/// Whether a content type is that of an HTML document.
pub open spec fn html_mime_spec(mime: Option<Seq<char>>) -> bool {
    clean_mime_spec(mime) == Some("text/html"@) || clean_mime_spec(mime) == Some("application/xhtml+xml"@)
}

pub fn is_html_document_mime(mime: Option<&str>) -> (r: bool)
    ensures
        r == html_mime_spec(opt_str_text(mime)),
{
    match crate::filename::clean_mime_type(mime) {
        Some(m) => {
            let mc = chars_of(m.as_str());
            equals_text(mc.as_slice(), "text/html") || equals_text(mc.as_slice(), "application/xhtml+xml")
        },
        None => false,
    }
}

/// Whether a Content-Disposition value asks for a download: an `attachment` disposition or a
/// file name.
pub open spec fn disposition_download_spec(value: Option<Seq<char>>) -> bool {
    (match value {
        Some(raw) => lower_chars(trim_ws(before_first(raw, ';'))) == "attachment"@,
        None => false,
    }) || disposition_name_spec(value) is Some
}

pub fn content_disposition_signals_download(value: Option<&str>) -> (r: bool)
    ensures
        r == disposition_download_spec(opt_str_text(value)),
{
    let attachment = match value {
        Some(raw) => {
            let all = chars_of(raw);
            let head = prefix_before(all.as_slice(), ';');
            let t = trim_chars(head.as_slice(), TrimClass::WhiteSpace);
            crate::chars::lower_equals(t.as_slice(), "attachment")
        },
        None => false,
    };
    attachment || extract_filename_from_content_disposition(value).is_some()
}

/// Whether a URL's query or path names a file with a usable extension.
pub open spec fn file_like_url_spec(url: Seq<char>) -> bool {
    match or_cand(url_filename_spec(url, true), url_path_spec(url, true)) {
        Some(c) => usable_ext_spec(c.name) is Some,
        None => false,
    }
}

pub fn has_file_like_url_hint(url: &str) -> (r: bool)
    ensures
        r == file_like_url_spec(url@),
{
    let candidate = match best_url_filename_candidate(url, true) {
        Some(c) => Some(c),
        None => best_url_path_candidate(url, true),
    };
    match candidate {
        Some(c) => usable_extension(c.name.as_slice()).is_some(),
        None => false,
    }
}

/// An HTML response is a wrapper page (not the file) unless its Content-Disposition asks for
/// a download or its URL names a file.
pub open spec fn interstitial_spec(final_url: Seq<char>, mime: Option<Seq<char>>, cd: Option<Seq<char>>) -> bool {
    html_mime_spec(mime) && !disposition_download_spec(cd) && !file_like_url_spec(final_url)
}

pub fn is_html_interstitial_response(final_url: &str, mime_type: Option<&str>, content_disposition: Option<&str>) -> (r: bool)
    ensures
        r == interstitial_spec(final_url@, opt_str_text(mime_type), opt_str_text(content_disposition)),
{
    is_html_document_mime(mime_type) && !content_disposition_signals_download(content_disposition)
        && !has_file_like_url_hint(final_url)
}

/// A URL without its fragment, as the parser serializes it (the trimmed text when it does
/// not parse).
pub open spec fn url_key_spec(value: Seq<char>) -> Seq<char> {
    match url_without_fragment(value) {
        Some(u) => u,
        None => trim_ws(value),
    }
}

pub fn normalize_url_without_fragment(value: &str) -> (r: String)
    ensures
        r@ == url_key_spec(value@),
{
    match without_fragment(value) {
        Some(u) => u,
        None => {
            let all = chars_of(value);
            let t = trim_chars(all.as_slice(), TrimClass::WhiteSpace);
            string_from_chars(t.as_slice())
        },
    }
}

/// Whether two URLs are the same once fragments are dropped.
pub fn urls_match_after_normalization(left: &str, right: &str) -> (r: bool)
    ensures
        r == (url_key_spec(left@) == url_key_spec(right@)),
{
    let l = normalize_url_without_fragment(left);
    let rr = normalize_url_without_fragment(right);
    crate::text::str_equal(l.as_str(), rr.as_str())
}

} // verus!
