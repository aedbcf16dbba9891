//! The direct download link a wrapper page points at: the URLs it embeds (in a refresh tag,
//! JSON, scripts, location changes and attributes) are unescaped, resolved against the page
//! and scored, and the best one that scores enough is the page's direct link.

use vstd::prelude::*;
use crate::chars::{contains_sub, lower_chars, replace_all, trim_by, trim_ws, TrimClass};
use crate::filename::utf8_len;
use crate::html::{decode_entities_spec, url_key_spec};
use crate::model::opt_text;
use crate::patterns::{group_captures, regex_group_captures, texts_of};
use crate::text::chars_of;
use crate::urls::{url_join, url_parts, UrlParts};

verus! {

pub const HTML_META_REFRESH_URL_RE: &'static str = r#"(?is)<meta[^>]+http-equiv\s*=\s*["']refresh["'][^>]+content\s*=\s*["'][^"']*url=([^"'>]+)["'][^>]*>"#;
pub const HTML_JSON_URL_RE: &'static str = r#"(?is)"(?:downloadUrl|directLink|contentUrl|fileUrl|downloadLink|url)"\s*:\s*"([^"]+)""#;
pub const HTML_SCRIPT_URL_RE: &'static str = r#"(?is)(?:downloadUrl|directLink|contentUrl|fileUrl|downloadLink)\s*[:=]\s*["']([^"']+)["']"#;
pub const HTML_LOCATION_ASSIGN_URL_RE: &'static str = r#"(?is)(?:(?:window|document|top)\.)?location(?:\.href)?\s*=\s*["']([^"']+)["']"#;
pub const HTML_LOCATION_CALL_URL_RE: &'static str = r#"(?is)location\.(?:assign|replace)\(\s*["']([^"']+)["']\s*\)"#;
pub const HTML_ATTRIBUTE_URL_RE: &'static str = r#"(?is)(?:href|src|data-url|data-href|data-download-url|data-direct-url|data-file-url)\s*=\s*["']([^"'<>]+)["']"#;

/// The lowest score a link must reach to be the page's direct link.
pub const HTML_DOWNLOAD_CANDIDATE_MIN_SCORE: i32 = 40;

/// Whether `s` starts with `p`.
pub open spec fn begins(s: Seq<char>, p: Seq<char>) -> bool {
    s.len() >= p.len() && s.subrange(0, p.len() as int) == p
}

/// Whether `s` ends with `p`.
pub open spec fn finishes(s: Seq<char>, p: Seq<char>) -> bool {
    s.len() >= p.len() && s.subrange(s.len() - p.len(), s.len() as int) == p
}

/// An embedded URL with its script escapes (`\/`, `\u002F`, `\u003A`, `\u003D`, `\u0026`)
/// and basic HTML entities undone.
pub open spec fn unescape_url_spec(t: Seq<char>) -> Seq<char> {
    let a = replace_all(t, "\\\\/"@, "/"@);
    let b = replace_all(a, "\\/"@, "/"@);
    let c = replace_all(b, "\\u002F"@, "/"@);
    let d = replace_all(c, "\\u002f"@, "/"@);
    let e = replace_all(d, "\\u003A"@, ":"@);
    let f = replace_all(e, "\\u003a"@, ":"@);
    let g = replace_all(f, "\\u003D"@, "="@);
    let h = replace_all(g, "\\u003d"@, "="@);
    let i = replace_all(h, "\\u0026"@, "&"@);
    decode_entities_spec(i)
}

/// An embedded URL, trimmed of white space, quotes and spaces and unescaped; none when blank,
/// a fragment, a script or a mail link.
pub open spec fn embedded_url_spec(raw: Seq<char>) -> Option<Seq<char>> {
    let t = trim_by(trim_ws(raw), TrimClass::QuoteOrSpace);
    if t.len() == 0 || begins(t, "#"@) || begins(t, "javascript:"@) || begins(t, "mailto:"@) {
        None
    } else {
        Some(unescape_url_spec(t))
    }
}

/// A link resolved against the page (`page` the page's URL parts, `page_text` its text): a
/// scheme-relative link takes the page's scheme; an absolute link counts only for http(s);
/// anything else is joined to the page's URL.
pub open spec fn resolve_link_spec(page: (Seq<char>, Option<Seq<char>>, Seq<char>, Seq<char>), page_text: Seq<char>, raw: Seq<char>) -> Option<Seq<char>> {
    if begins(raw, "//"@) {
        Some(page.0 + ":"@ + raw)
    } else {
        match url_parts(raw) {
            Some(p) => if p.0 == "http"@ || p.0 == "https"@ { Some(p.3) } else { None },
            None => url_join(page_text, raw),
        }
    }
}

/// The position of the last `.` of `s`.
pub open spec fn last_dot(s: Seq<char>) -> Option<int>
    decreases s.len(),
{
    if s.len() == 0 { None } else if s.last() == '.' { Some(s.len() - 1) } else { last_dot(s.drop_last()) }
}

/// Whether an extension is that of a page asset rather than a download.
pub open spec fn asset_extension(e: Seq<char>) -> bool {
    e == "js"@ || e == "css"@ || e == "png"@ || e == "jpg"@ || e == "jpeg"@ || e == "gif"@ || e == "webp"@
        || e == "svg"@ || e == "ico"@ || e == "woff"@ || e == "woff2"@ || e == "map"@ || e == "json"@
}

/// How likely a resolved link is the download: file-like links, named files, download
/// queries, other hosts and download-like paths count up; page assets, HTML pages and asset
/// folders count down; a link that is no http(s) URL or is the page itself is worth nothing.
pub open spec fn link_score_spec(page: (Seq<char>, Option<Seq<char>>, Seq<char>, Seq<char>), candidate: Seq<char>) -> int {
    match url_parts(candidate) {
        None => i32::MIN as int,
        Some(c) => if !(c.0 == "http"@ || c.0 == "https"@) || url_key_spec(page.3) == url_key_spec(candidate) {
            i32::MIN as int
        } else {
            query_score_spec(candidate) + (if c.1 != page.1 { 20int } else { 0int }) + path_score_spec(lower_chars(c.2))
        },
    }
}

/// What a link's name and query tell: a file-like link, a named file, and the download
/// disposition or type asked for in its query.
pub open spec fn query_score_spec(candidate: Seq<char>) -> int {
    (if crate::html::file_like_url_spec(candidate) { 140int } else { 0int })
    + (if crate::filename::url_filename_spec(candidate, true) is Some { 30int } else { 0int })
    + (if crate::filename::query_param_spec(candidate, "response-content-disposition"@) is Some { 30int } else { 0int })
    + (if crate::filename::query_param_spec(candidate, "response-content-type"@) is Some { 15int } else { 0int })
}

/// The extension of a (lower-cased) path: after its last `.`, without slashes around it.
pub open spec fn path_extension(path: Seq<char>) -> Option<Seq<char>> {
    match last_dot(path) {
        Some(k) => Some(lower_chars(trim_by(path.subrange(k + 1, path.len() as int), TrimClass::Slash))),
        None => None,
    }
}

/// What a (lower-cased) path tells: download-like folders count up; page assets, HTML pages
/// and asset folders count down.
pub open spec fn path_score_spec(path: Seq<char>) -> int {
    (if contains_sub(path, "/download"@) || contains_sub(path, "/direct"@) || contains_sub(path, "/dl"@)
        || contains_sub(path, "/file"@) || contains_sub(path, "/get"@) { 40int } else { 0int })
    - (if path_extension(path) matches Some(e) && asset_extension(e) { 180int } else { 0int })
    - (if finishes(path, ".html"@) || finishes(path, ".htm"@) { 100int } else { 0int })
    - (if contains_sub(path, "/assets/"@) || contains_sub(path, "/static/"@) || contains_sub(path, "/dist/"@)
        || contains_sub(path, "favicon"@) { 100int } else { 0int })
}

/// The embedded URLs of a page, pattern by pattern.
pub open spec fn link_texts_spec(body: Seq<char>) -> Seq<Seq<char>> {
    regex_group_captures(HTML_META_REFRESH_URL_RE@, body, 1) + regex_group_captures(HTML_JSON_URL_RE@, body, 1)
        + regex_group_captures(HTML_SCRIPT_URL_RE@, body, 1) + regex_group_captures(HTML_LOCATION_ASSIGN_URL_RE@, body, 1)
        + regex_group_captures(HTML_LOCATION_CALL_URL_RE@, body, 1) + regex_group_captures(HTML_ATTRIBUTE_URL_RE@, body, 1)
}

/// The best link among the first `n` embedded URLs, with its score: the highest score of
/// at least the minimum, and among equal scores the first of the shortest.
pub open spec fn best_link(page: (Seq<char>, Option<Seq<char>>, Seq<char>, Seq<char>), page_text: Seq<char>, raws: Seq<Seq<char>>, n: int)
    -> Option<(int, Seq<char>)>
    decreases n,
{
    if n <= 0 {
        None
    } else {
        let prev = best_link(page, page_text, raws, n - 1);
        match embedded_url_spec(raws[n - 1]) {
            None => prev,
            Some(norm) => match resolve_link_spec(page, page_text, norm) {
                None => prev,
                Some(c) => {
                    let sc = link_score_spec(page, c);
                    if sc < HTML_DOWNLOAD_CANDIDATE_MIN_SCORE {
                        prev
                    } else {
                        match prev {
                            Some((bs, bu)) => if bs > sc || (bs == sc && utf8_len(bu) <= utf8_len(c)) { prev } else { Some((sc, c)) },
                            None => Some((sc, c)),
                        }
                    }
                },
            },
        }
    }
}

/// The direct download link of a page at `page_url` with `body`; none when the page URL does
/// not parse or no link scores enough.
pub open spec fn direct_link_spec(page_url: Seq<char>, body: Seq<char>) -> Option<Seq<char>> {
    match url_parts(page_url) {
        None => None,
        Some(p) => {
            let raws = link_texts_spec(body);
            match best_link(p, page_url, raws, raws.len() as int) {
                Some((_, u)) => Some(u),
                None => None,
            }
        },
    }
}

fn begins_with(s: &[char], p: &str) -> (r: bool)
    ensures
        r == begins(s@, p@),
{
    let pc = chars_of(p);
    if s.len() < pc.len() {
        return false;
    }
    let mut i: usize = 0;
    while i < pc.len()
        invariant
            i <= pc@.len() <= s@.len(),
            pc@ == p@,
            forall|k: int| 0 <= k < i ==> s@[k] == pc@[k],
        decreases pc@.len() - i,
    {
        if s[i] != pc[i] {
            return false;
        }
        i = i + 1;
    }
    assert(s@.subrange(0, pc@.len() as int) =~= pc@);
    true
}

fn finishes_with(s: &[char], p: &str) -> (r: bool)
    ensures
        r == finishes(s@, p@),
{
    let pc = chars_of(p);
    if s.len() < pc.len() {
        return false;
    }
    let off = s.len() - pc.len();
    let mut i: usize = 0;
    while i < pc.len()
        invariant
            i <= pc@.len(),
            off + pc@.len() == s@.len(),
            s@.len() == s.len(),
            pc@ == p@,
            forall|k: int| 0 <= k < i ==> s@[off + k] == pc@[k],
        decreases pc@.len() - i,
    {
        assert(off + i < s@.len());
        if s[off + i] != pc[i] {
            assert(s@.subrange(off as int, s@.len() as int)[i as int] != pc@[i as int]);
            return false;
        }
        i = i + 1;
    }
    assert(s@.subrange(off as int, s@.len() as int) =~= pc@);
    true
}

/// The embedded URL `raw`, trimmed and unescaped; none when it is no link to follow.
pub fn normalize_embedded_html_url(raw: &str) -> (r: Option<Vec<char>>)
    ensures
        match r { Some(v) => Some(v@), None => None } == embedded_url_spec(raw@),
{
    proof {
        reveal_strlit("\\\\/"); reveal_strlit("\\/"); reveal_strlit("\\u002F"); reveal_strlit("\\u002f");
        reveal_strlit("\\u003A"); reveal_strlit("\\u003a"); reveal_strlit("\\u003D"); reveal_strlit("\\u003d");
        reveal_strlit("\\u0026");
    }
    let all = chars_of(raw);
    let t0 = crate::chars::trim_chars(all.as_slice(), TrimClass::WhiteSpace);
    let t = crate::chars::trim_chars(t0.as_slice(), TrimClass::QuoteOrSpace);
    if t.len() == 0 || begins_with(t.as_slice(), "#") || begins_with(t.as_slice(), "javascript:") || begins_with(t.as_slice(), "mailto:") {
        return None;
    }
    let a = crate::chars::replace_text(t.as_slice(), "\\\\/", "/");
    let b = crate::chars::replace_text(a.as_slice(), "\\/", "/");
    let c = crate::chars::replace_text(b.as_slice(), "\\u002F", "/");
    let d = crate::chars::replace_text(c.as_slice(), "\\u002f", "/");
    let e = crate::chars::replace_text(d.as_slice(), "\\u003A", ":");
    let f = crate::chars::replace_text(e.as_slice(), "\\u003a", ":");
    let g = crate::chars::replace_text(f.as_slice(), "\\u003D", "=");
    let h = crate::chars::replace_text(g.as_slice(), "\\u003d", "=");
    let i = crate::chars::replace_text(h.as_slice(), "\\u0026", "&");
    Some(crate::html::decode_basic_html_entities(i.as_slice()))
}

/// A link resolved against the page whose URL parts are `page` and whose text is `page_text`.
pub fn resolve_html_candidate_url(page: &UrlParts, page_text: &str, raw: &str) -> (r: Option<String>)
    requires
        crate::urls::parts_view(Some(*page)) == url_parts(page_text@),
    ensures
        opt_text(r) == resolve_link_spec(crate::urls::parts_view(Some(*page))->0, page_text@, raw@),
{
    let rc = chars_of(raw);
    if begins_with(rc.as_slice(), "//") {
        let mut s = page.scheme.clone();
        s.append(":");
        s.append(raw);
        return Some(s);
    }
    match crate::urls::url_parts_of(raw) {
        Some(p) => {
            if crate::text::str_equal(p.scheme.as_str(), "http") || crate::text::str_equal(p.scheme.as_str(), "https") {
                Some(p.serialized)
            } else {
                None
            }
        },
        None => crate::urls::join_url(page_text, raw),
    }
}

fn last_dot_of(s: &[char]) -> (r: Option<usize>)
    ensures
        match r { Some(k) => last_dot(s@) == Some(k as int), None => last_dot(s@) is None },
        r matches Some(k) ==> k < s@.len(),
{
    let mut i: usize = s.len();
    assert(s@.take(i as int) =~= s@);
    while i > 0
        invariant
            i <= s@.len(),
            last_dot(s@) == last_dot(s@.take(i as int)),
        decreases i,
    {
        assert(s@.take(i as int).last() == s@[i - 1]);
        assert(s@.take(i as int).drop_last() =~= s@.take(i - 1));
        if s[i - 1] == '.' {
            return Some(i - 1);
        }
        i = i - 1;
    }
    None
}

fn eq_lit(e: &[char], lit: &str) -> (b: bool)
    ensures
        b == (e@ == lit@),
{
    crate::chars::chars_equal(e, chars_of(lit).as_slice())
}

fn is_asset_extension(e: &[char]) -> (r: bool)
    ensures
        r == asset_extension(e@),
{
    proof {
        reveal_strlit("js"); reveal_strlit("css"); reveal_strlit("png"); reveal_strlit("jpg"); reveal_strlit("jpeg");
        reveal_strlit("gif"); reveal_strlit("webp"); reveal_strlit("svg"); reveal_strlit("ico"); reveal_strlit("woff");
        reveal_strlit("woff2"); reveal_strlit("map"); reveal_strlit("json");
    }
    eq_lit(e, "js") || eq_lit(e, "css") || eq_lit(e, "png") || eq_lit(e, "jpg") || eq_lit(e, "jpeg") || eq_lit(e, "gif")
        || eq_lit(e, "webp") || eq_lit(e, "svg") || eq_lit(e, "ico") || eq_lit(e, "woff") || eq_lit(e, "woff2")
        || eq_lit(e, "map") || eq_lit(e, "json")
}

fn query_points(candidate: &str) -> (r: i32)
    ensures
        r == query_score_spec(candidate@),
{
    let mut score: i32 = 0;
    if crate::html::has_file_like_url_hint(candidate) { score = score + 140; }
    if crate::filename::best_url_filename_candidate(candidate, true).is_some() { score = score + 30; }
    if crate::filename::query_response_content_disposition(candidate).is_some() { score = score + 30; }
    if crate::filename::query_response_content_type(candidate).is_some() { score = score + 15; }
    score
}

fn extension_of(p: &[char]) -> (r: Option<Vec<char>>)
    ensures
        match r { Some(v) => Some(v@), None => None } == path_extension(p@),
{
    match last_dot_of(p) {
        Some(k) => {
            assert(k < p@.len());
            assert(p@.len() == p.len());
            let mut tail: Vec<char> = Vec::new();
            let mut j: usize = k + 1;
            while j < p.len()
                invariant
                    k < p@.len(),
                    k + 1 <= j <= p@.len(),
                    tail@ == p@.subrange(k + 1, j as int),
                decreases p@.len() - j,
            {
                tail.push(p[j]);
                assert(tail@ =~= p@.subrange(k + 1, j + 1));
                j = j + 1;
            }
            let t = crate::chars::trim_chars(tail.as_slice(), TrimClass::Slash);
            Some(crate::chars::lower_ascii(t.as_slice()))
        },
        None => None,
    }
}

fn path_points(p: &[char]) -> (r: i32)
    ensures
        r == path_score_spec(p@),
{
    let mut score: i32 = 0;
    if crate::chars::contains_text(p, "/download") || crate::chars::contains_text(p, "/direct") || crate::chars::contains_text(p, "/dl")
        || crate::chars::contains_text(p, "/file") || crate::chars::contains_text(p, "/get") {
        score = score + 40;
    }
    let asset = match extension_of(p) {
        Some(e) => is_asset_extension(e.as_slice()),
        None => false,
    };
    if asset { score = score - 180; }
    if finishes_with(p, ".html") || finishes_with(p, ".htm") { score = score - 100; }
    if crate::chars::contains_text(p, "/assets/") || crate::chars::contains_text(p, "/static/") || crate::chars::contains_text(p, "/dist/")
        || crate::chars::contains_text(p, "favicon") {
        score = score - 100;
    }
    score
}

/// How likely `candidate` is the download the page at `page` points at.
#[verifier::rlimit(40)]
pub fn score_html_download_candidate(page: &UrlParts, candidate: &str) -> (r: i32)
    ensures
        r == link_score_spec(crate::urls::parts_view(Some(*page))->0, candidate@),
{
    let c = match crate::urls::url_parts_of(candidate) {
        Some(c) => c,
        None => { return i32::MIN; },
    };
    let http = crate::text::str_equal(c.scheme.as_str(), "http") || crate::text::str_equal(c.scheme.as_str(), "https");
    if !http || crate::html::urls_match_after_normalization(page.serialized.as_str(), candidate) {
        return i32::MIN;
    }
    let same_host = match (&c.host, &page.host) {
        (Some(a), Some(b)) => crate::text::str_equal(a.as_str(), b.as_str()),
        (None, None) => true,
        _ => false,
    };
    let pc = chars_of(c.path.as_str());
    let path = crate::chars::lower_ascii(pc.as_slice());
    let score = query_points(candidate) + (if !same_host { 20i32 } else { 0i32 }) + path_points(path.as_slice());
    proof {
        assert(opt_text(c.host) == (url_parts(candidate@)->0).1);
        assert(same_host == (opt_text(c.host) == opt_text(page.host)));
    }
    score
}

/// The direct download link a wrapper page at `page_url` points at.
#[verifier::rlimit(40)]
pub fn extract_html_direct_download_url(page_url: &str, body: &str) -> (r: Option<String>)
    ensures
        opt_text(r) == direct_link_spec(page_url@, body@),
{
    let page = match crate::urls::url_parts_of(page_url) {
        Some(p) => p,
        None => { return None; },
    };
    let ghost pv = crate::urls::parts_view(Some(page))->0;
    let mut raws = group_captures(HTML_META_REFRESH_URL_RE, body, 1);
    let mut b = group_captures(HTML_JSON_URL_RE, body, 1);
    let mut c = group_captures(HTML_SCRIPT_URL_RE, body, 1);
    let mut d = group_captures(HTML_LOCATION_ASSIGN_URL_RE, body, 1);
    let mut e = group_captures(HTML_LOCATION_CALL_URL_RE, body, 1);
    let mut f = group_captures(HTML_ATTRIBUTE_URL_RE, body, 1);
    let ghost (va, vb, vc, vd, ve, vf) = (texts_of(raws), texts_of(b), texts_of(c), texts_of(d), texts_of(e), texts_of(f));
    raws.append(&mut b);
    raws.append(&mut c);
    raws.append(&mut d);
    raws.append(&mut e);
    raws.append(&mut f);
    let ghost rv = texts_of(raws);
    assert(rv =~= va + vb + vc + vd + ve + vf);
    let mut best: Option<(i32, String)> = None;
    let mut i: usize = 0;
    while i < raws.len()
        invariant
            i <= raws@.len(),
            rv == texts_of(raws),
            crate::urls::parts_view(Some(page)) == url_parts(page_url@),
            pv == crate::urls::parts_view(Some(page))->0,
            match best_link(pv, page_url@, rv, i as int) {
                Some((bs, bu)) => best matches Some((s, u)) && s == bs && u@ == bu,
                None => best is None,
            },
        decreases raws@.len() - i,
    {
        assert(rv[i as int] == raws@[i as int]@);
        match normalize_embedded_html_url(raws[i].as_str()) {
            None => {},
            Some(norm) => {
                let norm_text = crate::chars::string_from_chars(norm.as_slice());
                match resolve_html_candidate_url(&page, page_url, norm_text.as_str()) {
                    None => {},
                    Some(candidate) => {
                        let score = score_html_download_candidate(&page, candidate.as_str());
                        if score >= HTML_DOWNLOAD_CANDIDATE_MIN_SCORE {
                            let keep = match &best {
                                Some((bs, bu)) => *bs > score || (*bs == score
                                    && crate::html::utf8_length(chars_of(bu.as_str()).as_slice())
                                        <= crate::html::utf8_length(chars_of(candidate.as_str()).as_slice())),
                                None => false,
                            };
                            if !keep {
                                best = Some((score, candidate));
                            }
                        }
                    },
                }
            },
        }
        i = i + 1;
    }
    match best {
        Some((_, u)) => Some(u),
        None => None,
    }
}


pub const HTML_FORM_RE: &'static str = r#"(?is)<form\b([^>]*)>(.*?)</form>"#;
pub const HTML_FORM_METHOD_RE: &'static str = r#"(?is)\bmethod\s*=\s*["']([^"']+)["']"#;
pub const HTML_FORM_ACTION_RE: &'static str = r#"(?is)\baction\s*=\s*["']([^"']+)["']"#;
pub const HTML_INPUT_RE: &'static str = r#"(?is)<input\b([^>]*)>"#;
pub const HTML_INPUT_NAME_RE: &'static str = r#"(?is)\bname\s*=\s*["']([^"']+)["']"#;
pub const HTML_INPUT_VALUE_RE: &'static str = r#"(?is)\bvalue\s*=\s*["']([^"']*)["']"#;
pub const HTML_INPUT_TYPE_RE: &'static str = r#"(?is)\btype\s*=\s*["']([^"']+)["']"#;

/// The lowest score a form must reach to be followed.
pub const HTML_FORM_FOLLOW_UP_MIN_SCORE: i64 = 100;

/// Group 1 of the first match of `pattern` in `text`.
pub open spec fn first_capture(pattern: Seq<char>, text: Seq<char>) -> Option<Seq<char>> {
    let v = regex_group_captures(pattern, text, 1);
    if v.len() > 0 { Some(v[0]) } else { None }
}

/// The field an `<input>` tag's attributes give: its name (entities decoded, trimmed, not
/// blank) and value (entities decoded, empty when absent); none for file, password,
/// checkbox and radio inputs.
pub open spec fn form_field_spec(input: Seq<char>) -> Option<(Seq<char>, Seq<char>)> {
    match first_capture(HTML_INPUT_NAME_RE@, input) {
        None => None,
        Some(n) => {
            let name = trim_ws(decode_entities_spec(n));
            let ty = match first_capture(HTML_INPUT_TYPE_RE@, input) { Some(t) => Some(lower_chars(trim_ws(t))), None => None };
            if name.len() == 0 || ty == Some("file"@) || ty == Some("password"@) || ty == Some("checkbox"@) || ty == Some("radio"@) {
                None
            } else {
                Some((name, match first_capture(HTML_INPUT_VALUE_RE@, input) { Some(v) => decode_entities_spec(v), None => Seq::empty() }))
            }
        },
    }
}

/// The fields of the first `n` inputs.
pub open spec fn fields_from(inputs: Seq<Seq<char>>, n: int) -> Seq<(Seq<char>, Seq<char>)>
    decreases n,
{
    if n <= 0 { Seq::empty() } else {
        let prev = fields_from(inputs, n - 1);
        match form_field_spec(inputs[n - 1]) { Some(f) => prev.push(f), None => prev }
    }
}

/// The fields of a form's inner HTML.
pub open spec fn form_fields_spec(inner: Seq<char>) -> Seq<(Seq<char>, Seq<char>)> {
    let inputs = regex_group_captures(HTML_INPUT_RE@, inner, 1);
    fields_from(inputs, inputs.len() as int)
}

/// What one field adds to a form's score: a token-, CSRF- or download-like name (or `op`,
/// `id`) and a non-blank value.
pub open spec fn field_points(f: (Seq<char>, Seq<char>)) -> int {
    let l = lower_chars(f.0);
    (if contains_sub(l, "token"@) || contains_sub(l, "csrf"@) || contains_sub(l, "download"@) || l == "op"@ || l == "id"@ { 15int } else { 0int })
    + (if trim_ws(f.1).len() > 0 { 4int } else { 0int })
}

pub open spec fn fields_points(fs: Seq<(Seq<char>, Seq<char>)>, n: int) -> int
    decreases n,
{
    if n <= 0 { 0 } else { fields_points(fs, n - 1) + field_points(fs[n - 1]) }
}

/// How likely a form leads to the download: a POST, fields, the page's host, a file-like or
/// download-like action and telling field names count (capped at `i64::MAX`); a bare GET
/// back to the page, or an action that is no URL, is worth nothing.
pub open spec fn form_score_spec(page: (Seq<char>, Option<Seq<char>>, Seq<char>, Seq<char>), action: Seq<char>,
    method: crate::html::HtmlFollowUpMethod, fields: Seq<(Seq<char>, Seq<char>)>) -> int
{
    if method == crate::html::HtmlFollowUpMethod::Get && fields.len() == 0 && url_key_spec(page.3) == url_key_spec(action) {
        i32::MIN as int
    } else {
        match url_parts(action) {
            None => i32::MIN as int,
            Some(a) => min_i64(
                (if method == crate::html::HtmlFollowUpMethod::Post { 80int } else if fields.len() > 0 { 20int } else { 0int })
                + (if a.1 == page.1 { 10int } else { 0int })
                + (if crate::html::file_like_url_spec(action) { 60int } else { 0int })
                + (if contains_sub(lower_chars(a.2), "/download"@) || contains_sub(lower_chars(a.2), "/direct"@)
                    || contains_sub(lower_chars(a.2), "/dl"@) || contains_sub(lower_chars(a.2), "/file"@)
                    || contains_sub(lower_chars(a.2), "/get"@) { 50int } else { 0int })
                + (if fields.len() >= 2 { 20int } else { 0int })
                + fields_points(fields, fields.len() as int)),
        }
    }
}

pub open spec fn min_i64(v: int) -> int {
    if v > i64::MAX { i64::MAX as int } else { v }
}

/// The request a form makes: its action resolved against the page (else the page itself),
/// POST when its method says so (else GET), and its fields.
pub open spec fn form_request_spec(page: (Seq<char>, Option<Seq<char>>, Seq<char>, Seq<char>), page_text: Seq<char>,
    attrs: Seq<char>, inner: Seq<char>) -> (Seq<char>, crate::html::HtmlFollowUpMethod, Seq<(Seq<char>, Seq<char>)>)
{
    let action = match first_capture(HTML_FORM_ACTION_RE@, attrs) {
        Some(raw) => match embedded_url_spec(raw) {
            Some(n) => match resolve_link_spec(page, page_text, n) { Some(u) => u, None => page.3 },
            None => page.3,
        },
        None => page.3,
    };
    let method = match first_capture(HTML_FORM_METHOD_RE@, attrs) {
        Some(m) => if lower_chars(trim_ws(m)) == "post"@ { crate::html::HtmlFollowUpMethod::Post } else { crate::html::HtmlFollowUpMethod::Get },
        None => crate::html::HtmlFollowUpMethod::Get,
    };
    (action, method, form_fields_spec(inner))
}

/// The best form among the first `n` (attributes `attrs[k]`, inner HTML `inners[k]`), with
/// its score: the highest score of at least the minimum, and among equal scores the first
/// with the most fields.
pub open spec fn best_form(page: (Seq<char>, Option<Seq<char>>, Seq<char>, Seq<char>), page_text: Seq<char>,
    attrs: Seq<Seq<char>>, inners: Seq<Seq<char>>, n: int) -> Option<(int, (Seq<char>, crate::html::HtmlFollowUpMethod, Seq<(Seq<char>, Seq<char>)>))>
    decreases n,
{
    if n <= 0 {
        None
    } else {
        let prev = best_form(page, page_text, attrs, inners, n - 1);
        let req = form_request_spec(page, page_text, attrs[n - 1], inners[n - 1]);
        let sc = form_score_spec(page, req.0, req.1, req.2);
        if sc < HTML_FORM_FOLLOW_UP_MIN_SCORE {
            prev
        } else {
            match prev {
                Some((bs, br)) => if bs > sc || (bs == sc && br.2.len() >= req.2.len()) { prev } else { Some((sc, req)) },
                None => Some((sc, req)),
            }
        }
    }
}

/// The form a wrapper page at `page_url` leads to; its forms are the matches of the form
/// pattern, whose two groups (attributes, inner HTML) always take part.
pub open spec fn follow_up_form_spec(page_url: Seq<char>, body: Seq<char>) -> Option<(Seq<char>, crate::html::HtmlFollowUpMethod, Seq<(Seq<char>, Seq<char>)>)> {
    match url_parts(page_url) {
        None => None,
        Some(p) => {
            let attrs = regex_group_captures(HTML_FORM_RE@, body, 1);
            let inners = regex_group_captures(HTML_FORM_RE@, body, 2);
            let n = if attrs.len() <= inners.len() { attrs.len() as int } else { inners.len() as int };
            match best_form(p, page_url, attrs, inners, n) { Some((_, r)) => Some(r), None => None }
        },
    }
}

pub open spec fn fields_view(v: Vec<(String, String)>) -> Seq<(Seq<char>, Seq<char>)> {
    v@.map_values(|f: (String, String)| (f.0@, f.1@))
}

fn first_match(pattern: &str, text: &str) -> (r: Option<String>)
    ensures
        opt_text(r) == first_capture(pattern@, text@),
{
    let mut v = group_captures(pattern, text, 1);
    if v.len() > 0 {
        assert(texts_of(v)[0] == v@[0]@);
        Some(v.swap_remove(0))
    } else {
        None
    }
}

fn trimmed(v: &[char]) -> (r: Vec<char>)
    ensures
        r@ == trim_ws(v@),
{
    crate::chars::trim_chars(v, TrimClass::WhiteSpace)
}

fn form_field(input: &str) -> (r: Option<(String, String)>)
    ensures
        match r { Some(f) => Some((f.0@, f.1@)), None => None } == form_field_spec(input@),
{
    proof {
        reveal_strlit("file"); reveal_strlit("password"); reveal_strlit("checkbox"); reveal_strlit("radio");
    }
    let n = match first_match(HTML_INPUT_NAME_RE, input) { Some(n) => n, None => { return None; } };
    let name = trimmed(crate::html::decode_basic_html_entities(chars_of(n.as_str()).as_slice()).as_slice());
    let skipped = match first_match(HTML_INPUT_TYPE_RE, input) {
        Some(t) => {
            let l = crate::chars::lower_ascii(trimmed(chars_of(t.as_str()).as_slice()).as_slice());
            let ls = l.as_slice();
            eq_lit(ls, "file") || eq_lit(ls, "password") || eq_lit(ls, "checkbox") || eq_lit(ls, "radio")
        },
        None => false,
    };
    if name.len() == 0 || skipped {
        return None;
    }
    let value: Vec<char> = match first_match(HTML_INPUT_VALUE_RE, input) {
        Some(v) => crate::html::decode_basic_html_entities(chars_of(v.as_str()).as_slice()),
        None => Vec::new(),
    };
    Some((crate::chars::string_from_chars(name.as_slice()), crate::chars::string_from_chars(value.as_slice())))
}

/// The fields of a form's inner HTML.
pub fn extract_html_form_fields(inner: &str) -> (r: Vec<(String, String)>)
    ensures
        fields_view(r) == form_fields_spec(inner@),
{
    let inputs = group_captures(HTML_INPUT_RE, inner, 1);
    let ghost iv = texts_of(inputs);
    let mut out: Vec<(String, String)> = Vec::new();
    let mut i: usize = 0;
    while i < inputs.len()
        invariant
            i <= inputs@.len(),
            iv == texts_of(inputs),
            fields_view(out) == fields_from(iv, i as int),
        decreases inputs@.len() - i,
    {
        assert(iv[i as int] == inputs@[i as int]@);
        match form_field(inputs[i].as_str()) {
            Some(f) => {
                let ghost before = fields_view(out);
                out.push(f);
                assert(fields_view(out) =~= before.push((f.0@, f.1@)));
            },
            None => {},
        }
        i = i + 1;
    }
    out
}

fn field_score(f: &(String, String)) -> (r: i64)
    ensures
        r == field_points((f.0@, f.1@)),
{
    proof { reveal_strlit("op"); reveal_strlit("id"); }
    let l = crate::chars::lower_ascii(chars_of(f.0.as_str()).as_slice());
    let ls = l.as_slice();
    let mut s: i64 = 0;
    if crate::chars::contains_text(ls, "token") || crate::chars::contains_text(ls, "csrf") || crate::chars::contains_text(ls, "download")
        || eq_lit(ls, "op") || eq_lit(ls, "id") {
        s = s + 15;
    }
    if trimmed(chars_of(f.1.as_str()).as_slice()).len() > 0 {
        s = s + 4;
    }
    s
}

/// How likely the form with `action`, `method` and `fields` leads to the download.
#[verifier::rlimit(40)]
pub fn score_html_follow_up_request(page: &UrlParts, action: &str, method: crate::html::HtmlFollowUpMethod,
    fields: &Vec<(String, String)>) -> (r: i64)
    ensures
        r == form_score_spec(crate::urls::parts_view(Some(*page))->0, action@, method, fields_view(*fields)),
{
    if method == crate::html::HtmlFollowUpMethod::Get && fields.len() == 0
        && crate::html::urls_match_after_normalization(page.serialized.as_str(), action) {
        return i32::MIN as i64;
    }
    let a = match crate::urls::url_parts_of(action) { Some(a) => a, None => { return i32::MIN as i64; } };
    let same_host = match (&a.host, &page.host) {
        (Some(x), Some(y)) => crate::text::str_equal(x.as_str(), y.as_str()),
        (None, None) => true,
        _ => false,
    };
    let path = crate::chars::lower_ascii(chars_of(a.path.as_str()).as_slice());
    let p = path.as_slice();
    let mut score: i64 = if method == crate::html::HtmlFollowUpMethod::Post { 80 } else if fields.len() > 0 { 20 } else { 0 };
    if same_host { score = score + 10; }
    if crate::html::has_file_like_url_hint(action) { score = score + 60; }
    if crate::chars::contains_text(p, "/download") || crate::chars::contains_text(p, "/direct") || crate::chars::contains_text(p, "/dl")
        || crate::chars::contains_text(p, "/file") || crate::chars::contains_text(p, "/get") {
        score = score + 50;
    }
    if fields.len() >= 2 { score = score + 20; }
    let ghost base = score as int;
    let ghost fv = fields_view(*fields);
    let mut i: usize = 0;
    while i < fields.len()
        invariant
            i <= fields@.len(),
            0 <= base <= 220,
            fv == fields_view(*fields),
            score == min_i64(base + fields_points(fv, i as int)),
            fields_points(fv, i as int) >= 0,
        decreases fields@.len() - i,
    {
        let add = field_score(&fields[i]);
        assert(fv[i as int] == (fields@[i as int].0@, fields@[i as int].1@));
        score = if score > i64::MAX - add { i64::MAX } else { score + add };
        i = i + 1;
    }
    proof {
        assert(opt_text(a.host) == (url_parts(action@)->0).1);
        assert(same_host == (opt_text(a.host) == opt_text(page.host)));
    }
    score
}

pub open spec fn request_view(r: crate::html::HtmlFollowUpRequest) -> (Seq<char>, crate::html::HtmlFollowUpMethod, Seq<(Seq<char>, Seq<char>)>) {
    (r.url@, r.method, fields_view(r.fields))
}

fn form_request(page: &UrlParts, page_text: &str, attrs: &str, inner: &str) -> (r: crate::html::HtmlFollowUpRequest)
    requires
        crate::urls::parts_view(Some(*page)) == url_parts(page_text@),
    ensures
        request_view(r) == form_request_spec(crate::urls::parts_view(Some(*page))->0, page_text@, attrs@, inner@),
{
    proof { reveal_strlit("post"); }
    let action: String = match first_match(HTML_FORM_ACTION_RE, attrs) {
        Some(raw) => match normalize_embedded_html_url(raw.as_str()) {
            Some(n) => {
                let nt = crate::chars::string_from_chars(n.as_slice());
                match resolve_html_candidate_url(page, page_text, nt.as_str()) { Some(u) => u, None => page.serialized.clone() }
            },
            None => page.serialized.clone(),
        },
        None => page.serialized.clone(),
    };
    let method = match first_match(HTML_FORM_METHOD_RE, attrs) {
        Some(m) => {
            let l = crate::chars::lower_ascii(trimmed(chars_of(m.as_str()).as_slice()).as_slice());
            if eq_lit(l.as_slice(), "post") { crate::html::HtmlFollowUpMethod::Post } else { crate::html::HtmlFollowUpMethod::Get }
        },
        None => crate::html::HtmlFollowUpMethod::Get,
    };
    crate::html::HtmlFollowUpRequest { url: action, method, fields: extract_html_form_fields(inner) }
}

/// The form a wrapper page at `page_url` with `body` leads to, if any scores enough.
#[verifier::rlimit(40)]
pub fn extract_html_follow_up_request(page_url: &str, body: &str) -> (r: Option<crate::html::HtmlFollowUpRequest>)
    ensures
        match r { Some(q) => Some(request_view(q)), None => None } == follow_up_form_spec(page_url@, body@),
{
    let page = match crate::urls::url_parts_of(page_url) { Some(p) => p, None => { return None; } };
    let ghost pv = crate::urls::parts_view(Some(page))->0;
    let attrs = group_captures(HTML_FORM_RE, body, 1);
    let inners = group_captures(HTML_FORM_RE, body, 2);
    let ghost (av, nv) = (texts_of(attrs), texts_of(inners));
    let n = if attrs.len() <= inners.len() { attrs.len() } else { inners.len() };
    let mut best: Option<(i64, crate::html::HtmlFollowUpRequest)> = None;
    let mut i: usize = 0;
    while i < n
        invariant
            i <= n,
            n == (if attrs@.len() <= inners@.len() { attrs@.len() } else { inners@.len() }),
            av == texts_of(attrs),
            nv == texts_of(inners),
            crate::urls::parts_view(Some(page)) == url_parts(page_url@),
            pv == crate::urls::parts_view(Some(page))->0,
            match best_form(pv, page_url@, av, nv, i as int) {
                Some((bs, br)) => best matches Some((s, q)) && s == bs && request_view(q) == br,
                None => best is None,
            },
        decreases n - i,
    {
        assert(av[i as int] == attrs@[i as int]@ && nv[i as int] == inners@[i as int]@);
        let req = form_request(&page, page_url, attrs[i].as_str(), inners[i].as_str());
        let score = score_html_follow_up_request(&page, req.url.as_str(), req.method, &req.fields);
        if score >= HTML_FORM_FOLLOW_UP_MIN_SCORE {
            let keep = match &best {
                Some((bs, bq)) => *bs > score || (*bs == score && bq.fields.len() >= req.fields.len()),
                None => false,
            };
            if !keep {
                best = Some((score, req));
            }
        }
        i = i + 1;
    }
    match best { Some((_, q)) => Some(q), None => None }
}


pub const HTML_CONFIG_SCRIPT_RE: &'static str = r#"(?is)<script[^>]+src\s*=\s*["']([^"'<>]*(?:config|runtime-config|app-config|site-config)\.js[^"'<>]*)["']"#;
pub const HTML_APPDATA_API_SERVER_RE: &'static str = r#"(?is)(?:appdata\.apiServer|(?:["'](?:apiServer|apiBase|apiBaseUrl)["']|(?:apiServer|apiBase|apiBaseUrl)))\s*[:=]\s*["']([^"']+)["']"#;
pub const HTML_APPDATA_WT_RE: &'static str = r#"(?is)(?:appdata\.wt|(?:["'](?:wt|websiteToken|websiteTokenSeed)["']|(?:wt|websiteToken|websiteTokenSeed)))\s*[:=]\s*["']([^"']+)["']"#;

pub open spec fn id_char(c: char) -> bool {
    ('a' <= c <= 'z') || ('A' <= c <= 'Z') || ('0' <= c <= '9') || c == '-' || c == '_'
}

/// Whether a path segment names an app's content: trimmed, at least six bytes, no file
/// extension, only ASCII letters, digits, `-` and `_`.
pub open spec fn content_id_ok(seg: Seq<char>) -> bool {
    let t = trim_ws(seg);
    &&& t.len() > 0
    &&& crate::filename::usable_ext_spec(t) is None
    &&& utf8_len(t) >= 6
    &&& forall|i: int| 0 <= i < t.len() ==> #[trigger] id_char(t[i])
}

/// The content id among the first `n` path segments: the last that names content, trimmed.
pub open spec fn content_id_from(segs: Seq<Seq<char>>, n: int) -> Option<Seq<char>>
    decreases n,
{
    if n <= 0 { None } else if content_id_ok(segs[n - 1]) { Some(trim_ws(segs[n - 1])) } else { content_id_from(segs, n - 1) }
}

/// The first embedded URL of `raws` that unescapes and resolves against the page.
pub open spec fn first_resolved(page: (Seq<char>, Option<Seq<char>>, Seq<char>, Seq<char>), page_text: Seq<char>, raws: Seq<Seq<char>>) -> Option<Seq<char>>
    decreases raws.len(),
{
    if raws.len() == 0 {
        None
    } else {
        match embedded_url_spec(raws[0]) {
            Some(n) => match resolve_link_spec(page, page_text, n) {
                Some(u) => Some(u),
                None => first_resolved(page, page_text, raws.drop_first()),
            },
            None => first_resolved(page, page_text, raws.drop_first()),
        }
    }
}

/// The API base of an app: an absolute server as it is, a dotted host over https, else a
/// sub-domain of the config's host (without `www.`) in the config's scheme; trailing slashes
/// dropped.
pub open spec fn api_base_spec(config_url: Seq<char>, api: Seq<char>) -> Option<Seq<char>> {
    let bare = crate::chars::trim_end_by(api, TrimClass::Slash);
    if begins(api, "http://"@) || begins(api, "https://"@) {
        Some(bare)
    } else if api.contains('.') {
        Some("https://"@ + bare)
    } else {
        match url_parts(config_url) {
            None => None,
            Some(c) => match c.1 {
                None => None,
                Some(h) => {
                    let host = if begins(h, "www."@) { h.subrange(4, h.len() as int) } else { h };
                    if host.len() == 0 { None } else { Some(c.0 + "://"@ + bare + "."@ + host) }
                },
            },
        }
    }
}

/// The inline app configuration of a body: the API base (resolved against `config_url`)
/// and the website token seed, both trimmed and not blank.
pub open spec fn app_config_spec(config_url: Seq<char>, body: Seq<char>) -> Option<(Seq<char>, Seq<char>)> {
    match first_capture(HTML_APPDATA_API_SERVER_RE@, body) {
        None => None,
        Some(a) => {
            let api = trim_ws(a);
            match first_capture(HTML_APPDATA_WT_RE@, body) {
                None => None,
                Some(w) => {
                    let wt = trim_ws(w);
                    if api.len() == 0 || wt.len() == 0 {
                        None
                    } else {
                        match api_base_spec(config_url, api) { Some(b) => Some((b, wt)), None => None }
                    }
                },
            }
        },
    }
}

/// The app resolver a wrapper page names: its content id, the config script it loads, and
/// any inline configuration; none without a content id or any configuration.
pub open spec fn app_hint_spec(page_url: Seq<char>, body: Seq<char>) -> Option<(Option<Seq<char>>, Option<Seq<char>>, Option<Seq<char>>, Seq<char>)> {
    match (url_parts(page_url), crate::urls::url_path_segments(page_url)) {
        (Some(p), Some(segs)) => match content_id_from(segs, segs.len() as int) {
            None => None,
            Some(id) => {
                let config = first_resolved(p, page_url, regex_group_captures(HTML_CONFIG_SCRIPT_RE@, body, 1));
                let inline = app_config_spec(match config { Some(c) => c, None => p.3 }, body);
                if config is None && inline is None {
                    None
                } else {
                    Some((config, match inline { Some(i) => Some(i.0), None => None }, match inline { Some(i) => Some(i.1), None => None }, id))
                }
            },
        },
        _ => None,
    }
}

pub open spec fn app_hint_view(h: crate::html::HtmlAppApiHint) -> (Option<Seq<char>>, Option<Seq<char>>, Option<Seq<char>>, Seq<char>) {
    (opt_text(h.config_url), opt_text(h.inline_api_base_url), opt_text(h.inline_website_token_seed), h.content_id@)
}

fn trim_end_slashes(v: &[char]) -> (r: Vec<char>)
    ensures
        r@ == crate::chars::trim_end_by(v@, TrimClass::Slash),
{
    let mut e: usize = v.len();
    assert(v@.take(e as int) =~= v@);
    while e > 0 && v[e - 1] == '/'
        invariant
            e <= v@.len(),
            crate::chars::trim_end_by(v@, TrimClass::Slash) == crate::chars::trim_end_by(v@.take(e as int), TrimClass::Slash),
        decreases e,
    {
        assert(v@.take(e as int).drop_last() =~= v@.take(e - 1));
        assert(v@.take(e as int).last() == v@[e - 1]);
        e = e - 1;
    }
    proof {
        if e > 0 { assert(v@.take(e as int).last() == v@[e - 1]); }
    }
    let mut out: Vec<char> = Vec::new();
    let mut i: usize = 0;
    while i < e
        invariant
            i <= e <= v@.len(),
            out@ == v@.take(i as int),
        decreases e - i,
    {
        out.push(v[i]);
        assert(out@ =~= v@.take(i + 1));
        i = i + 1;
    }
    out
}

fn all_id_chars(t: &[char]) -> (r: bool)
    ensures
        r == (forall|i: int| 0 <= i < t@.len() ==> #[trigger] id_char(t@[i])),
{
    let mut i: usize = 0;
    while i < t.len()
        invariant
            i <= t@.len(),
            forall|k: int| 0 <= k < i ==> #[trigger] id_char(t@[k]),
        decreases t@.len() - i,
    {
        let c = t[i];
        if !(('a' <= c && c <= 'z') || ('A' <= c && c <= 'Z') || ('0' <= c && c <= '9') || c == '-' || c == '_') {
            assert(!id_char(t@[i as int]));
            return false;
        }
        i = i + 1;
    }
    true
}

/// The content id a page's path names.
pub fn extract_html_app_content_id(page_url: &str) -> (r: Option<String>)
    ensures
        opt_text(r) == match crate::urls::url_path_segments(page_url@) {
            Some(segs) => content_id_from(segs, segs.len() as int),
            None => None,
        },
{
    let segs = match crate::urls::path_segments_of(page_url) { Some(s) => s, None => { return None; } };
    let ghost sv = segs@.map_values(|s: String| s@);
    assert(crate::urls::url_path_segments(page_url@) == Some(sv));
    let mut n: usize = segs.len();
    while n > 0
        invariant
            n <= segs@.len(),
            sv == segs@.map_values(|s: String| s@),
            crate::urls::url_path_segments(page_url@) == Some(sv),
            content_id_from(sv, segs@.len() as int) == content_id_from(sv, n as int),
        decreases n,
    {
        let t = trimmed(chars_of(segs[n - 1].as_str()).as_slice());
        assert(sv[n - 1] == segs@[n - 1]@);
        let ok = t.len() > 0 && crate::filename::usable_extension(t.as_slice()).is_none()
            && crate::html::utf8_length(t.as_slice()) >= 6 && all_id_chars(t.as_slice());
        if ok {
            assert(content_id_ok(sv[n - 1]));
            assert(content_id_from(sv, n as int) == Some(trim_ws(sv[n - 1])));
            return Some(crate::chars::string_from_chars(t.as_slice()));
        }
        n = n - 1;
    }
    None
}

fn api_base(config_url: &str, api: &[char]) -> (r: Option<String>)
    ensures
        opt_text(r) == api_base_spec(config_url@, api@),
{
    proof { reveal_strlit("www."); reveal_strlit("https://"); }
    let bare = trim_end_slashes(api);
    if begins_with(api, "http://") || begins_with(api, "https://") {
        return Some(crate::chars::string_from_chars(bare.as_slice()));
    }
    if crate::chars::contains_char(api, '.') {
        let mut s = String::new();
        s.append("https://");
        s.append(crate::chars::string_from_chars(bare.as_slice()).as_str());
        return Some(s);
    }
    let c = match crate::urls::url_parts_of(config_url) { Some(c) => c, None => { return None; } };
    let h = match &c.host { Some(h) => chars_of(h.as_str()), None => { return None; } };
    let host: Vec<char> = if begins_with(h.as_slice(), "www.") {
        let mut out: Vec<char> = Vec::new();
        let mut i: usize = 4;
        while i < h.len()
            invariant
                4 <= i <= h@.len(),
                out@ == h@.subrange(4, i as int),
            decreases h@.len() - i,
        {
            out.push(h[i]);
            assert(out@ =~= h@.subrange(4, i + 1));
            i = i + 1;
        }
        out
    } else {
        h
    };
    if host.len() == 0 {
        return None;
    }
    let mut s = c.scheme.clone();
    s.append("://");
    s.append(crate::chars::string_from_chars(bare.as_slice()).as_str());
    s.append(".");
    s.append(crate::chars::string_from_chars(host.as_slice()).as_str());
    Some(s)
}

/// The inline app configuration of a body: API base and website token seed.
pub fn parse_html_app_api_config(config_url: &str, body: &str) -> (r: Option<(String, String)>)
    ensures
        match r { Some(c) => Some((c.0@, c.1@)), None => None } == app_config_spec(config_url@, body@),
{
    let a = match first_match(HTML_APPDATA_API_SERVER_RE, body) { Some(a) => a, None => { return None; } };
    let api = trimmed(chars_of(a.as_str()).as_slice());
    let w = match first_match(HTML_APPDATA_WT_RE, body) { Some(w) => w, None => { return None; } };
    let wt = trimmed(chars_of(w.as_str()).as_slice());
    if api.len() == 0 || wt.len() == 0 {
        return None;
    }
    match api_base(config_url, api.as_slice()) {
        Some(b) => Some((b, crate::chars::string_from_chars(wt.as_slice()))),
        None => None,
    }
}

fn first_resolved_of(page: &UrlParts, page_text: &str, raws: &Vec<String>) -> (r: Option<String>)
    requires
        crate::urls::parts_view(Some(*page)) == url_parts(page_text@),
    ensures
        opt_text(r) == first_resolved(crate::urls::parts_view(Some(*page))->0, page_text@, texts_of(*raws)),
{
    let ghost pv = crate::urls::parts_view(Some(*page))->0;
    let ghost rv = texts_of(*raws);
    let mut i: usize = 0;
    assert(rv.skip(0) =~= rv);
    while i < raws.len()
        invariant
            i <= raws@.len(),
            rv == texts_of(*raws),
            crate::urls::parts_view(Some(*page)) == url_parts(page_text@),
            pv == crate::urls::parts_view(Some(*page))->0,
            first_resolved(pv, page_text@, rv) == first_resolved(pv, page_text@, rv.skip(i as int)),
        decreases raws@.len() - i,
    {
        assert(rv.skip(i as int).len() > 0);
        assert(rv.skip(i as int)[0] == raws@[i as int]@);
        assert(rv.skip(i as int).drop_first() =~= rv.skip(i + 1));
        match normalize_embedded_html_url(raws[i].as_str()) {
            Some(n) => {
                let nt = crate::chars::string_from_chars(n.as_slice());
                assert(embedded_url_spec(rv.skip(i as int)[0]) == Some(nt@));
                match resolve_html_candidate_url(page, page_text, nt.as_str()) {
                    Some(u) => {
                        assert(resolve_link_spec(pv, page_text@, nt@) == Some(u@));
                        assert(first_resolved(pv, page_text@, rv.skip(i as int)) == Some(u@));
                        return Some(u);
                    },
                    None => {},
                }
            },
            None => {},
        }
        i = i + 1;
    }
    None
}

/// The app resolver a wrapper page at `page_url` with `body` names.
pub fn extract_html_app_api_hint(page_url: &str, body: &str) -> (r: Option<crate::html::HtmlAppApiHint>)
    ensures
        match r { Some(h) => Some(app_hint_view(h)), None => None } == app_hint_spec(page_url@, body@),
{
    let page = match crate::urls::url_parts_of(page_url) { Some(p) => p, None => { return None; } };
    let content_id = match extract_html_app_content_id(page_url) { Some(id) => id, None => { return None; } };
    let raws = group_captures(HTML_CONFIG_SCRIPT_RE, body, 1);
    let config_url = first_resolved_of(&page, page_url, &raws);
    let inline = match &config_url {
        Some(c) => parse_html_app_api_config(c.as_str(), body),
        None => parse_html_app_api_config(page.serialized.as_str(), body),
    };
    if config_url.is_none() && inline.is_none() {
        return None;
    }
    let (base, seed) = match inline { Some((b, w)) => (Some(b), Some(w)), None => (None, None) };
    Some(crate::html::HtmlAppApiHint { config_url, inline_api_base_url: base, inline_website_token_seed: seed, content_id })
}

pub open spec fn resolution_view(h: crate::html::HtmlResolutionHint) -> (Option<Seq<char>>, Seq<char>, Option<Seq<char>>,
    Option<(Option<Seq<char>>, Option<Seq<char>>, Option<Seq<char>>, Seq<char>)>, Option<(Seq<char>, crate::html::HtmlFollowUpMethod, Seq<(Seq<char>, Seq<char>)>)>)
{
    (opt_text(h.direct_download_url), h.request_referer@, opt_text(h.suggested_name),
        match h.app_api { Some(a) => Some(app_hint_view(a)), None => None },
        match h.follow_up_request { Some(q) => Some(request_view(q)), None => None })
}

/// What a wrapper page at `final_url` with `body` reveals: its direct link (dropped when it
/// is where a POST form goes), suggested file name, app resolver and form, with the page as
/// referer; none when it reveals nothing.
pub open spec fn resolution_spec(final_url: Seq<char>, body: Seq<char>) -> Option<(Option<Seq<char>>, Seq<char>, Option<Seq<char>>,
    Option<(Option<Seq<char>>, Option<Seq<char>>, Option<Seq<char>>, Seq<char>)>, Option<(Seq<char>, crate::html::HtmlFollowUpMethod, Seq<(Seq<char>, Seq<char>)>)>)>
{
    let direct = direct_link_spec(final_url, body);
    let name = crate::html::filename_hint_spec(body);
    let app = app_hint_spec(final_url, body);
    let follow = follow_up_form_spec(final_url, body);
    let direct2 = match (follow, direct) {
        (Some(f), Some(d)) => if f.1 == crate::html::HtmlFollowUpMethod::Post && url_key_spec(d) == url_key_spec(f.0) { None } else { direct },
        _ => direct,
    };
    if direct2 is None && name is None && app is None && follow is None {
        None
    } else {
        Some((direct2, final_url, name, app, follow))
    }
}

/// What a wrapper page at `final_url` with `body` reveals of the download behind it.
pub fn inspect_html_resolution_body(final_url: &str, body: &str) -> (r: Option<crate::html::HtmlResolutionHint>)
    ensures
        match r { Some(h) => Some(resolution_view(h)), None => None } == resolution_spec(final_url@, body@),
{
    let mut direct = extract_html_direct_download_url(final_url, body);
    let name = crate::html::extract_html_filename_hint(body);
    let app = extract_html_app_api_hint(final_url, body);
    let follow = extract_html_follow_up_request(final_url, body);
    let drop_direct = match (&follow, &direct) {
        (Some(f), Some(d)) => f.method == crate::html::HtmlFollowUpMethod::Post
            && crate::html::urls_match_after_normalization(d.as_str(), f.url.as_str()),
        _ => false,
    };
    if drop_direct {
        direct = None;
    }
    if direct.is_none() && name.is_none() && app.is_none() && follow.is_none() {
        return None;
    }
    Some(crate::html::HtmlResolutionHint {
        direct_download_url: direct,
        request_referer: final_url.to_owned(),
        suggested_name: name,
        app_api: app,
        follow_up_request: follow,
    })
}

} // verus!
