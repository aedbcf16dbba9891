//! Where a download's file name comes from: Content-Disposition, URL query and path, HTML
//! wrapper hints and the content type, and how the candidates are ranked.

use vstd::prelude::*;
use crate::chars::{
    before_first, chars_equal, concat_chars, contains_char, find_char, first_index, last_index, lemma_first_index_bounds,
    lemma_last_index_bounds, lower_ascii, lower_chars, lower_equals, prefix_before, rfind_char, slice_chars,
    string_from_chars, trim_by, trim_chars, trim_end_by, trim_bounds, trim_ws, TrimClass,
};
use crate::filename_policy::{decode_percent_encoded, decode_percent_spec, sanitize_filename_leaf, sanitize_leaf_spec};
use crate::model::opt_text;
use crate::text::chars_of;
use crate::urls::{pairs_view, path_segments_of, query_pairs_of, url_path_segments, url_query_pairs};
use crate::model::{DownloadCompatibility, DownloadRequestMethod};

verus! {

pub open spec fn ascii_alnum(c: char) -> bool {
    ('0' <= c <= '9') || ('a' <= c <= 'z') || ('A' <= c <= 'Z')
}

pub open spec fn all_ascii_alnum(s: Seq<char>) -> bool {
    forall|i: int| 0 <= i < s.len() ==> ascii_alnum(#[trigger] s[i])
}

fn is_all_ascii_alnum(s: &[char]) -> (r: bool)
    ensures
        r == all_ascii_alnum(s@),
{
    let mut i: usize = 0;
    while i < s.len()
        invariant
            i <= s@.len(),
            forall|j: int| 0 <= j < i ==> ascii_alnum(#[trigger] s@[j]),
        decreases s@.len() - i,
    {
        let c = s[i];
        if !(('0' <= c && c <= '9') || ('a' <= c && c <= 'z') || ('A' <= c && c <= 'Z')) {
            assert(!ascii_alnum(s@[i as int]));
            return false;
        }
        i = i + 1;
    }
    true
}

/// Extensions of server-side scripts, which say nothing about the file served.
pub open spec fn server_route_ext(e: Seq<char>) -> bool {
    let l = lower_chars(e);
    l == "php"@ || l == "asp"@ || l == "aspx"@ || l == "ashx"@ || l == "axd"@ || l == "jsp"@ || l == "jspx"@
        || l == "cgi"@ || l == "fcgi"@ || l == "do"@ || l == "action"@
}

pub fn is_server_route_extension(e: &[char]) -> (r: bool)
    ensures
        r == server_route_ext(e@),
{
    lower_equals(e, "php") || lower_equals(e, "asp") || lower_equals(e, "aspx") || lower_equals(e, "ashx")
        || lower_equals(e, "axd") || lower_equals(e, "jsp") || lower_equals(e, "jspx") || lower_equals(e, "cgi")
        || lower_equals(e, "fcgi") || lower_equals(e, "do") || lower_equals(e, "action")
}

/// The extension after a name's last dot, trimmed, when it is one to ten ASCII letters or
/// digits and not a server-side script extension.
pub open spec fn usable_ext_spec(name: Seq<char>) -> Option<Seq<char>> {
    match last_index(name, '.') {
        Some(p) => {
            let e = trim_ws(name.subrange(p + 1, name.len() as int));
            if e.len() == 0 || e.len() > 10 || !all_ascii_alnum(e) || server_route_ext(e) { None } else { Some(e) }
        },
        None => None,
    }
}

pub fn usable_extension(name: &[char]) -> (r: Option<Vec<char>>)
    ensures
        match r {
            Some(e) => usable_ext_spec(name@) == Some(e@),
            None => usable_ext_spec(name@) is None,
        },
{
    let p = match rfind_char(name, '.') {
        Some(p) => p,
        None => { return None; },
    };
    let n = name.len();
    assert(p < n);
    let tail = slice_chars(name, p + 1, n);
    let e = trim_chars(tail.as_slice(), TrimClass::WhiteSpace);
    if e.len() == 0 || e.len() > 10 || !is_all_ascii_alnum(e.as_slice()) || is_server_route_extension(e.as_slice()) {
        return None;
    }
    Some(e)
}

/// Stems of generic download endpoints.
pub open spec fn generic_stem(l: Seq<char>) -> bool {
    l == "download"@ || l == "file"@ || l == "get"@ || l == "dl"@ || l == "attachment"@ || l == "fetch"@
        || l == "view"@ || l == "open"@ || l == "content"@ || l == "asset"@ || l == "index"@ || l == "default"@
}

/// Whether a name is that of a generic endpoint (`download`, `file.php`, ...) rather than of a file.
pub open spec fn generic_route_spec(name: Seq<char>) -> bool {
    let t = trim_ws(name);
    if t.len() == 0 {
        true
    } else {
        let stem = lower_chars(trim_ws(before_first(t, '.')));
        let route_ext = match last_index(t, '.') {
            Some(p) => server_route_ext(trim_ws(t.subrange(p + 1, t.len() as int))),
            None => false,
        };
        generic_stem(stem) || route_ext
    }
}

pub fn is_generic_route_candidate(name: &[char]) -> (r: bool)
    ensures
        r == generic_route_spec(name@),
{
    let t = trim_chars(name, TrimClass::WhiteSpace);
    if t.len() == 0 {
        return true;
    }
    let head = prefix_before(t.as_slice(), '.');
    let stem_t = trim_chars(head.as_slice(), TrimClass::WhiteSpace);
    let stem = lower_ascii(stem_t.as_slice());
    let s = stem.as_slice();
    let generic = lower_equals(s, "download") || lower_equals(s, "file") || lower_equals(s, "get")
        || lower_equals(s, "dl") || lower_equals(s, "attachment") || lower_equals(s, "fetch")
        || lower_equals(s, "view") || lower_equals(s, "open") || lower_equals(s, "content")
        || lower_equals(s, "asset") || lower_equals(s, "index") || lower_equals(s, "default");
    proof {
        assert(lower_chars(stem@) =~= stem@);
    }
    let route_ext = match rfind_char(t.as_slice(), '.') {
        Some(p) => {
            let tail = slice_chars(t.as_slice(), p + 1, t.len());
            let e = trim_chars(tail.as_slice(), TrimClass::WhiteSpace);
            is_server_route_extension(e.as_slice())
        },
        None => false,
    };
    generic || route_ext
}

/// `s` without one pair of surrounding double quotes.
pub open spec fn strip_quotes_spec(v: Seq<char>) -> Seq<char> {
    if v.len() >= 2 && v[0] == '"' && v.last() == '"' { v.subrange(1, v.len() - 1) } else { v }
}

pub fn strip_surrounding_quotes(v: &[char]) -> (r: Vec<char>)
    ensures
        r@ == strip_quotes_spec(v@),
{
    if v.len() >= 2 && v[0] == '"' && v[v.len() - 1] == '"' {
        slice_chars(v, 1, v.len() - 1)
    } else {
        let r = slice_chars(v, 0, v.len());
        assert(r@ =~= v@);
        r
    }
}

/// Backslash escapes of `v[..n]` resolved, and whether the last character opened an escape.
pub open spec fn unescape_state(v: Seq<char>, n: int) -> (Seq<char>, bool)
    decreases n,
{
    if n <= 0 {
        (Seq::empty(), false)
    } else {
        let prev = unescape_state(v, n - 1);
        let c = v[n - 1];
        if prev.1 {
            (prev.0.push(c), false)
        } else if c == '\\' {
            (prev.0, true)
        } else {
            (prev.0.push(c), false)
        }
    }
}

pub open spec fn unescape_spec(v: Seq<char>) -> Seq<char> {
    unescape_state(v, v.len() as int).0
}

pub fn unescape_quoted_value(v: &[char]) -> (r: Vec<char>)
    ensures
        r@ == unescape_spec(v@),
{
    let mut out: Vec<char> = Vec::new();
    let mut escaped = false;
    let mut i: usize = 0;
    while i < v.len()
        invariant
            i <= v@.len(),
            (out@, escaped) == unescape_state(v@, i as int),
        decreases v@.len() - i,
    {
        let c = v[i];
        if escaped {
            out.push(c);
            escaped = false;
        } else if c == '\\' {
            escaped = true;
        } else {
            out.push(c);
        }
        i = i + 1;
    }
    out
}

/// Index of the first `''` in `t` at or after `i`.
pub open spec fn double_apostrophe_from(t: Seq<char>, i: int) -> Option<int>
    decreases t.len() - i,
{
    if i < 0 || i + 1 >= t.len() {
        None
    } else if t[i] == '\'' && t[i + 1] == '\'' {
        Some(i)
    } else {
        double_apostrophe_from(t, i + 1)
    }
}

pub proof fn lemma_double_apostrophe_bounds(t: Seq<char>, i: int)
    requires
        0 <= i,
    ensures
        double_apostrophe_from(t, i) matches Some(j) ==> i <= j && j + 2 <= t.len(),
    decreases t.len() - i,
{
    if i + 1 < t.len() && !(t[i] == '\'' && t[i + 1] == '\'') {
        lemma_double_apostrophe_bounds(t, i + 1);
    }
}

/// An RFC 5987 `filename*` value: quotes stripped, the charset and language before `''`
/// dropped, and the rest percent-decoded.
pub open spec fn rfc5987_spec(v: Seq<char>) -> Option<Seq<char>> {
    let t = strip_quotes_spec(v);
    let encoded = match double_apostrophe_from(t, 0) {
        Some(i) => t.subrange(i + 2, t.len() as int),
        None => t,
    };
    decode_percent_spec(encoded)
}

fn decode_rfc5987_filename(v: &[char]) -> (r: Option<Vec<char>>)
    ensures
        match r {
            Some(d) => rfc5987_spec(v@) == Some(d@),
            None => rfc5987_spec(v@) is None,
        },
{
    let t = strip_surrounding_quotes(v);
    let len = t.len();
    let mut i: usize = 0;
    while len >= 2 && i < len - 1 && !(t[i] == '\'' && t[i + 1] == '\'')
        invariant
            len == t@.len(),
            double_apostrophe_from(t@, 0) == double_apostrophe_from(t@, i as int),
        decreases t@.len() - i,
    {
        i = i + 1;
    }
    let found: Option<usize> = if len >= 2 && i < len - 1 { Some(i) } else { None };
    proof { lemma_double_apostrophe_bounds(t@, 0); }
    let encoded = match found {
        Some(j) => slice_chars(t.as_slice(), j + 2, t.len()),
        None => {
            let e = slice_chars(t.as_slice(), 0, t.len());
            assert(e@ =~= t@);
            e
        },
    };
    let text = string_from_chars(encoded.as_slice());
    match decode_percent_encoded(text.as_str()) {
        Some(d) => Some(chars_of(d.as_str())),
        None => None,
    }
}

/// A plain `filename` value: quotes stripped, escapes resolved, and percent-decoded when it
/// holds a `%` and decodes.
pub open spec fn basic_filename_spec(v: Seq<char>) -> Seq<char> {
    let u = unescape_spec(strip_quotes_spec(v));
    if u.contains('%') {
        match decode_percent_spec(u) {
            Some(d) => d,
            None => u,
        }
    } else {
        u
    }
}

fn decode_basic_filename(v: &[char]) -> (r: Vec<char>)
    ensures
        r@ == basic_filename_spec(v@),
{
    let stripped = strip_surrounding_quotes(v);
    let u = unescape_quoted_value(stripped.as_slice());
    if contains_char(u.as_slice(), '%') {
        let text = string_from_chars(u.as_slice());
        match decode_percent_encoded(text.as_str()) {
            Some(d) => chars_of(d.as_str()),
            None => u,
        }
    } else {
        u
    }
}

/// Splitting state over `s[..n]`: the parts closed so far, where the open part starts,
/// whether inside quotes, and whether the previous character escaped this one.
pub open spec fn split_state(s: Seq<char>, n: int) -> (Seq<Seq<char>>, int, bool, bool)
    decreases n,
{
    if n <= 0 {
        (Seq::empty(), 0, false, false)
    } else {
        let prev = split_state(s, n - 1);
        let c = s[n - 1];
        if prev.3 {
            (prev.0, prev.1, prev.2, false)
        } else if c == '\\' && prev.2 {
            (prev.0, prev.1, prev.2, true)
        } else if c == '"' {
            (prev.0, prev.1, !prev.2, false)
        } else if c == ';' && !prev.2 {
            (prev.0.push(trim_ws(s.subrange(prev.1, n - 1))), n, prev.2, false)
        } else {
            (prev.0, prev.1, prev.2, false)
        }
    }
}

/// The `;`-separated parameters of a header value, outside quotes, each trimmed.
pub open spec fn split_params_spec(s: Seq<char>) -> Seq<Seq<char>> {
    let st = split_state(s, s.len() as int);
    st.0.push(trim_ws(s.subrange(st.1, s.len() as int)))
}

pub proof fn lemma_split_state_start(s: Seq<char>, n: int)
    requires
        0 <= n <= s.len(),
    ensures
        0 <= split_state(s, n).1 <= n,
    decreases n,
{
    if n > 0 {
        lemma_split_state_start(s, n - 1);
    }
}

pub fn split_header_parameters(s: &[char]) -> (r: Vec<Vec<char>>)
    ensures
        r@.len() == split_params_spec(s@).len(),
        forall|i: int| 0 <= i < r@.len() ==> (#[trigger] r@[i])@ == split_params_spec(s@)[i],
{
    let mut parts: Vec<Vec<char>> = Vec::new();
    let ghost mut parts_view: Seq<Seq<char>> = Seq::empty();
    let mut start: usize = 0;
    let mut in_quotes = false;
    let mut escaped = false;
    let mut i: usize = 0;
    while i < s.len()
        invariant
            i <= s@.len(),
            start <= i,
            parts@.len() == parts_view.len(),
            forall|k: int| 0 <= k < parts@.len() ==> (#[trigger] parts@[k])@ == parts_view[k],
            (parts_view, start as int, in_quotes, escaped) == split_state(s@, i as int),
        decreases s@.len() - i,
    {
        let c = s[i];
        if escaped {
            escaped = false;
        } else if c == '\\' && in_quotes {
            escaped = true;
        } else if c == '"' {
            in_quotes = !in_quotes;
        } else if c == ';' && !in_quotes {
            let seg = slice_chars(s, start, i);
            let part = trim_chars(seg.as_slice(), TrimClass::WhiteSpace);
            proof { parts_view = parts_view.push(part@); }
            parts.push(part);
            start = i + 1;
        }
        i = i + 1;
    }
    let seg = slice_chars(s, start, s.len());
    let part = trim_chars(seg.as_slice(), TrimClass::WhiteSpace);
    proof { parts_view = parts_view.push(part@); }
    parts.push(part);
    assert(parts_view == split_params_spec(s@));
    parts
}

/// What the `filename*` and `filename` parameters among `parts[..n]` gave (the last of each wins).
pub open spec fn disposition_scan(parts: Seq<Seq<char>>, n: int) -> (Option<Seq<char>>, Option<Seq<char>>)
    decreases n,
{
    if n <= 0 {
        (None, None)
    } else {
        let prev = disposition_scan(parts, n - 1);
        let p = parts[n - 1];
        match first_index(p, '=') {
            None => prev,
            Some(e) => {
                let key = lower_chars(trim_ws(p.take(e)));
                let value = trim_ws(p.subrange(e + 1, p.len() as int));
                if key == "filename*"@ {
                    match rfc5987_spec(value) {
                        Some(d) => (Some(d), prev.1),
                        None => prev,
                    }
                } else if key == "filename"@ {
                    (prev.0, Some(basic_filename_spec(value)))
                } else {
                    prev
                }
            },
        }
    }
}

/// The file name a Content-Disposition value carries: `filename*` before `filename`, sanitized.
pub open spec fn disposition_name_spec(value: Option<Seq<char>>) -> Option<Seq<char>> {
    match value {
        None => None,
        Some(v) => {
            let raw = trim_ws(v);
            if raw.len() == 0 {
                None
            } else {
                let parts = split_params_spec(raw);
                let found = disposition_scan(parts, parts.len() as int);
                match (if found.0 is Some { found.0 } else { found.1 }) {
                    Some(n) => sanitize_leaf_spec(n),
                    None => None,
                }
            }
        },
    }
}

pub open spec fn opt_str_text(value: Option<&str>) -> Option<Seq<char>> {
    match value {
        Some(v) => Some(v@),
        None => None,
    }
}

pub fn extract_filename_from_content_disposition(value: Option<&str>) -> (r: Option<String>)
    ensures
        opt_text(r) == disposition_name_spec(opt_str_text(value)),
{
    let v = match value {
        Some(v) => v,
        None => { return None; },
    };
    let all = chars_of(v);
    let raw = trim_chars(all.as_slice(), TrimClass::WhiteSpace);
    if raw.len() == 0 {
        return None;
    }
    let parts = split_header_parameters(raw.as_slice());
    let ghost pv = split_params_spec(raw@);
    let mut filename_star: Option<Vec<char>> = None;
    let mut filename: Option<Vec<char>> = None;
    let mut i: usize = 0;
    while i < parts.len()
        invariant
            i <= parts@.len(),
            parts@.len() == pv.len(),
            forall|k: int| 0 <= k < parts@.len() ==> (#[trigger] parts@[k])@ == pv[k],
            match disposition_scan(pv, i as int) {
                (a, b) => (match filename_star { Some(x) => Some(x@), None => None }) == a
                    && (match filename { Some(x) => Some(x@), None => None }) == b,
            },
        decreases parts@.len() - i,
    {
        let p = &parts[i];
        assert(p@ == pv[i as int]);
        match find_char(p.as_slice(), '=') {
            None => {},
            Some(e) => {
                proof { lemma_first_index_bounds(p@, '=', 0); }
                let plen = p.len();
                assert(e < plen);
                let key_raw = slice_chars(p.as_slice(), 0, e);
                proof { assert(key_raw@ =~= p@.take(e as int)); }
                let key_t = trim_chars(key_raw.as_slice(), TrimClass::WhiteSpace);
                let value_raw = slice_chars(p.as_slice(), e + 1, plen);
                let value_t = trim_chars(value_raw.as_slice(), TrimClass::WhiteSpace);
                if lower_equals(key_t.as_slice(), "filename*") {
                    match decode_rfc5987_filename(value_t.as_slice()) {
                        Some(d) => { filename_star = Some(d); },
                        None => {},
                    }
                } else if lower_equals(key_t.as_slice(), "filename") {
                    filename = Some(decode_basic_filename(value_t.as_slice()));
                }
            },
        }
        i = i + 1;
    }
    let chosen = match filename_star {
        Some(x) => Some(x),
        None => filename,
    };
    match chosen {
        Some(n) => {
            let text = string_from_chars(n.as_slice());
            sanitize_filename_leaf(text.as_str())
        },
        None => None,
    }
}

/// Whether `a` is exactly the text `lit`.
pub fn equals_text(a: &[char], lit: &str) -> (r: bool)
    ensures
        r == (a@ == lit@),
{
    let other = chars_of(lit);
    chars_equal(a, other.as_slice())
}

/// A content type without parameters, trimmed and in lower case; `None` when that is empty.
pub open spec fn clean_mime_spec(value: Option<Seq<char>>) -> Option<Seq<char>> {
    match value {
        None => None,
        Some(raw) => {
            let t = lower_chars(trim_ws(before_first(raw, ';')));
            if t.len() == 0 { None } else { Some(t) }
        },
    }
}

fn clean_mime_chars(value: Option<&str>) -> (r: Option<Vec<char>>)
    ensures
        match r {
            Some(t) => clean_mime_spec(opt_str_text(value)) == Some(t@),
            None => clean_mime_spec(opt_str_text(value)) is None,
        },
{
    let raw = match value {
        Some(v) => chars_of(v),
        None => { return None; },
    };
    let head = prefix_before(raw.as_slice(), ';');
    let t = trim_chars(head.as_slice(), TrimClass::WhiteSpace);
    let l = lower_ascii(t.as_slice());
    if l.len() == 0 { None } else { Some(l) }
}

pub fn clean_mime_type(value: Option<&str>) -> (r: Option<String>)
    ensures
        opt_text(r) == clean_mime_spec(opt_str_text(value)),
{
    match clean_mime_chars(value) {
        Some(t) => Some(string_from_chars(t.as_slice())),
        None => None,
    }
}

/// The usual extension of a content type.
pub open spec fn mime_ext_table(m: Seq<char>) -> Option<Seq<char>> {
    if m == "application/vnd.android.package-archive"@ { Some("apk"@) }
    else if m == "application/vnd.apple.installer+xml"@ { Some("pkg"@) }
    else if m == "application/vnd.ms-excel"@ { Some("xls"@) }
    else if m == "application/vnd.ms-powerpoint"@ { Some("ppt"@) }
    else if m == "application/vnd.ms-word"@ || m == "application/msword"@ { Some("doc"@) }
    else if m == "application/vnd.openxmlformats-officedocument.presentationml.presentation"@ { Some("pptx"@) }
    else if m == "application/vnd.openxmlformats-officedocument.spreadsheetml.sheet"@ { Some("xlsx"@) }
    else if m == "application/vnd.openxmlformats-officedocument.wordprocessingml.document"@ { Some("docx"@) }
    else if m == "application/x-7z-compressed"@ { Some("7z"@) }
    else if m == "application/x-debian-package"@ { Some("deb"@) }
    else if m == "application/x-msdownload"@ { Some("exe"@) }
    else if m == "application/x-rar-compressed"@ { Some("rar"@) }
    else if m == "application/x-rpm"@ { Some("rpm"@) }
    else if m == "application/epub+zip"@ { Some("epub"@) }
    else if m == "application/gzip"@ { Some("gz"@) }
    else if m == "application/json"@ { Some("json"@) }
    else if m == "application/pdf"@ { Some("pdf"@) }
    else if m == "application/vnd.rar"@ { Some("rar"@) }
    else if m == "application/x-tar"@ { Some("tar"@) }
    else if m == "application/xml"@ { Some("xml"@) }
    else if m == "application/zip"@ { Some("zip"@) }
    else if m == "audio/aac"@ { Some("aac"@) }
    else if m == "audio/flac"@ { Some("flac"@) }
    else if m == "audio/m4a"@ || m == "audio/mp4"@ { Some("m4a"@) }
    else if m == "audio/mpeg"@ { Some("mp3"@) }
    else if m == "audio/ogg"@ { Some("ogg"@) }
    else if m == "audio/wav"@ || m == "audio/wave"@ { Some("wav"@) }
    else if m == "image/gif"@ { Some("gif"@) }
    else if m == "image/jpeg"@ { Some("jpg"@) }
    else if m == "image/png"@ { Some("png"@) }
    else if m == "image/svg+xml"@ { Some("svg"@) }
    else if m == "image/webp"@ { Some("webp"@) }
    else if m == "text/csv"@ { Some("csv"@) }
    else if m == "text/plain"@ { Some("txt"@) }
    else if m == "video/mp4"@ { Some("mp4"@) }
    else if m == "video/quicktime"@ { Some("mov"@) }
    else if m == "video/webm"@ { Some("webm"@) }
    else if m == "video/x-matroska"@ { Some("mkv"@) }
    else { None }
}

pub open spec fn mime_ext_spec(mime: Option<Seq<char>>) -> Option<Seq<char>> {
    match clean_mime_spec(mime) {
        Some(m) => mime_ext_table(m),
        None => None,
    }
}

pub fn preferred_extension_from_mime(mime_type: Option<&str>) -> (r: Option<&'static str>)
    ensures
        opt_str_text(r) == mime_ext_spec(opt_str_text(mime_type)),
{
    let cleaned = match clean_mime_chars(mime_type) {
        Some(m) => m,
        None => { return None; },
    };
    let m = cleaned.as_slice();
    if equals_text(m, "application/vnd.android.package-archive") { Some("apk") }
    else if equals_text(m, "application/vnd.apple.installer+xml") { Some("pkg") }
    else if equals_text(m, "application/vnd.ms-excel") { Some("xls") }
    else if equals_text(m, "application/vnd.ms-powerpoint") { Some("ppt") }
    else if equals_text(m, "application/vnd.ms-word") || equals_text(m, "application/msword") { Some("doc") }
    else if equals_text(m, "application/vnd.openxmlformats-officedocument.presentationml.presentation") { Some("pptx") }
    else if equals_text(m, "application/vnd.openxmlformats-officedocument.spreadsheetml.sheet") { Some("xlsx") }
    else if equals_text(m, "application/vnd.openxmlformats-officedocument.wordprocessingml.document") { Some("docx") }
    else if equals_text(m, "application/x-7z-compressed") { Some("7z") }
    else if equals_text(m, "application/x-debian-package") { Some("deb") }
    else if equals_text(m, "application/x-msdownload") { Some("exe") }
    else if equals_text(m, "application/x-rar-compressed") { Some("rar") }
    else if equals_text(m, "application/x-rpm") { Some("rpm") }
    else if equals_text(m, "application/epub+zip") { Some("epub") }
    else if equals_text(m, "application/gzip") { Some("gz") }
    else if equals_text(m, "application/json") { Some("json") }
    else if equals_text(m, "application/pdf") { Some("pdf") }
    else if equals_text(m, "application/vnd.rar") { Some("rar") }
    else if equals_text(m, "application/x-tar") { Some("tar") }
    else if equals_text(m, "application/xml") { Some("xml") }
    else if equals_text(m, "application/zip") { Some("zip") }
    else if equals_text(m, "audio/aac") { Some("aac") }
    else if equals_text(m, "audio/flac") { Some("flac") }
    else if equals_text(m, "audio/m4a") || equals_text(m, "audio/mp4") { Some("m4a") }
    else if equals_text(m, "audio/mpeg") { Some("mp3") }
    else if equals_text(m, "audio/ogg") { Some("ogg") }
    else if equals_text(m, "audio/wav") || equals_text(m, "audio/wave") { Some("wav") }
    else if equals_text(m, "image/gif") { Some("gif") }
    else if equals_text(m, "image/jpeg") { Some("jpg") }
    else if equals_text(m, "image/png") { Some("png") }
    else if equals_text(m, "image/svg+xml") { Some("svg") }
    else if equals_text(m, "image/webp") { Some("webp") }
    else if equals_text(m, "text/csv") { Some("csv") }
    else if equals_text(m, "text/plain") { Some("txt") }
    else if equals_text(m, "video/mp4") { Some("mp4") }
    else if equals_text(m, "video/quicktime") { Some("mov") }
    else if equals_text(m, "video/webm") { Some("webm") }
    else if equals_text(m, "video/x-matroska") { Some("mkv") }
    else { None }
}

/// A name with an extension appended after its trailing dots are removed (`download` when
/// nothing is left).
pub open spec fn append_ext_spec(name: Seq<char>, ext: Seq<char>) -> Seq<char> {
    let t = trim_end_by(name, TrimClass::Dot);
    if t.len() == 0 { "download."@ + ext } else { t + seq!['.'] + ext }
}

pub fn append_extension(name: &[char], ext: &[char]) -> (r: Vec<char>)
    ensures
        r@ == append_ext_spec(name@, ext@),
{
    let mut end: usize = name.len();
    assert(name@.subrange(0, end as int) =~= name@);
    while end > 0 && name[end - 1] == '.'
        invariant
            end <= name@.len(),
            trim_end_by(name@, TrimClass::Dot) == trim_end_by(name@.subrange(0, end as int), TrimClass::Dot),
        decreases end,
    {
        assert(name@.subrange(0, end as int).drop_last() =~= name@.subrange(0, end - 1));
        end = end - 1;
    }
    proof {
        let t = name@.subrange(0, end as int);
        if t.len() > 0 {
            assert(t.last() == name@[end - 1]);
        }
    }
    let t = slice_chars(name, 0, end);
    if t.len() == 0 {
        let prefix = chars_of("download.");
        concat_chars(prefix.as_slice(), ext)
    } else {
        let dot = vec!['.'];
        let with_dot = concat_chars(t.as_slice(), dot.as_slice());
        concat_chars(with_dot.as_slice(), ext)
    }
}

/// Where a file name candidate came from.
#[derive(Clone, Copy, Debug, PartialEq, Eq, Structural)]
pub enum FilenameSource {
    ContentDisposition,
    ResponseContentDisposition,
    OriginalResponseContentDisposition,
    QueryParameter,
    OriginalQueryParameter,
    FinalUrl,
    OriginalUrl,
    HtmlWrapper,
    Fallback,
}

/// How a file name was arrived at.
#[derive(Clone, Copy, Debug, PartialEq, Eq, Structural)]
pub enum FilenameClassification {
    HeaderDerived,
    UrlDerived,
    WrapperDerived,
    Fallback,
    UrlExtended,
    MimeExtended,
}

pub open spec fn source_label(s: FilenameSource) -> Seq<char> {
    match s {
        FilenameSource::ContentDisposition => "content-disposition"@,
        FilenameSource::ResponseContentDisposition => "response-content-disposition"@,
        FilenameSource::OriginalResponseContentDisposition => "original-response-content-disposition"@,
        FilenameSource::QueryParameter => "query-parameter"@,
        FilenameSource::OriginalQueryParameter => "original-query-parameter"@,
        FilenameSource::FinalUrl => "final-url"@,
        FilenameSource::OriginalUrl => "original-url"@,
        FilenameSource::HtmlWrapper => "html-wrapper"@,
        FilenameSource::Fallback => "fallback"@,
    }
}

pub open spec fn classification_label(c: FilenameClassification) -> Seq<char> {
    match c {
        FilenameClassification::HeaderDerived => "header-derived"@,
        FilenameClassification::UrlDerived => "url-derived"@,
        FilenameClassification::WrapperDerived => "wrapper-derived"@,
        FilenameClassification::Fallback => "fallback"@,
        FilenameClassification::UrlExtended => "url-extended"@,
        FilenameClassification::MimeExtended => "mime-extended"@,
    }
}

impl FilenameSource {
    pub fn label(&self) -> (r: String)
        ensures
            r@ == source_label(*self),
    {
        match self {
            FilenameSource::ContentDisposition => String::from_str("content-disposition"),
            FilenameSource::ResponseContentDisposition => String::from_str("response-content-disposition"),
            FilenameSource::OriginalResponseContentDisposition => String::from_str("original-response-content-disposition"),
            FilenameSource::QueryParameter => String::from_str("query-parameter"),
            FilenameSource::OriginalQueryParameter => String::from_str("original-query-parameter"),
            FilenameSource::FinalUrl => String::from_str("final-url"),
            FilenameSource::OriginalUrl => String::from_str("original-url"),
            FilenameSource::HtmlWrapper => String::from_str("html-wrapper"),
            FilenameSource::Fallback => String::from_str("fallback"),
        }
    }
}

impl FilenameClassification {
    pub fn label(&self) -> (r: String)
        ensures
            r@ == classification_label(*self),
    {
        match self {
            FilenameClassification::HeaderDerived => String::from_str("header-derived"),
            FilenameClassification::UrlDerived => String::from_str("url-derived"),
            FilenameClassification::WrapperDerived => String::from_str("wrapper-derived"),
            FilenameClassification::Fallback => String::from_str("fallback"),
            FilenameClassification::UrlExtended => String::from_str("url-extended"),
            FilenameClassification::MimeExtended => String::from_str("mime-extended"),
        }
    }
}

/// A possible file name and what is known of it.
#[derive(Clone, Debug)]
pub struct FilenameCandidate {
    pub name: Vec<char>,
    pub source: FilenameSource,
    pub classification: FilenameClassification,
    pub generic: bool,
}

/// A candidate as values.
pub struct CandidateView {
    pub name: Seq<char>,
    pub source: FilenameSource,
    pub classification: FilenameClassification,
    pub generic: bool,
}

impl View for FilenameCandidate {
    type V = CandidateView;

    open spec fn view(&self) -> CandidateView {
        CandidateView { name: self.name@, source: self.source, classification: self.classification, generic: self.generic }
    }
}

pub open spec fn opt_candidate(c: Option<FilenameCandidate>) -> Option<CandidateView> {
    match c {
        Some(x) => Some(x@),
        None => None,
    }
}

/// The first query pair from `i` on whose key is `response-content-disposition` (any case)
/// and whose value names a file.
pub open spec fn rcd_scan(pairs: Seq<(Seq<char>, Seq<char>)>, i: int) -> Option<Seq<char>>
    decreases pairs.len() - i,
{
    if i < 0 || i >= pairs.len() {
        None
    } else if lower_chars(pairs[i].0) == "response-content-disposition"@ && disposition_name_spec(Some(pairs[i].1)) is Some {
        disposition_name_spec(Some(pairs[i].1))
    } else {
        rcd_scan(pairs, i + 1)
    }
}

/// The first query pair from `i` on with key `key` (any case) whose trimmed value is a file name.
pub open spec fn keyed_scan(pairs: Seq<(Seq<char>, Seq<char>)>, key: Seq<char>, i: int) -> Option<Seq<char>>
    decreases pairs.len() - i,
{
    if i < 0 || i >= pairs.len() {
        None
    } else if lower_chars(pairs[i].0) == key && trim_ws(pairs[i].1).len() > 0 && sanitize_leaf_spec(trim_ws(pairs[i].1)) is Some {
        sanitize_leaf_spec(trim_ws(pairs[i].1))
    } else {
        keyed_scan(pairs, key, i + 1)
    }
}

/// The file name the query carries under the usual keys, tried in order.
pub open spec fn query_keys_scan(pairs: Seq<(Seq<char>, Seq<char>)>) -> Option<Seq<char>> {
    if keyed_scan(pairs, "filename"@, 0) is Some { keyed_scan(pairs, "filename"@, 0) }
    else if keyed_scan(pairs, "file"@, 0) is Some { keyed_scan(pairs, "file"@, 0) }
    else if keyed_scan(pairs, "download"@, 0) is Some { keyed_scan(pairs, "download"@, 0) }
    else if keyed_scan(pairs, "attachment"@, 0) is Some { keyed_scan(pairs, "attachment"@, 0) }
    else if keyed_scan(pairs, "name"@, 0) is Some { keyed_scan(pairs, "name"@, 0) }
    else { keyed_scan(pairs, "title"@, 0) }
}

/// The best file name a URL's query offers.
pub open spec fn url_filename_spec(url: Seq<char>, is_final: bool) -> Option<CandidateView> {
    match url_query_pairs(url) {
        None => None,
        Some(pairs) => match rcd_scan(pairs, 0) {
            Some(n) => Some(CandidateView {
                name: n,
                source: if is_final { FilenameSource::ResponseContentDisposition } else { FilenameSource::OriginalResponseContentDisposition },
                classification: FilenameClassification::HeaderDerived,
                generic: false,
            }),
            None => match query_keys_scan(pairs) {
                Some(n) => Some(CandidateView {
                    name: n,
                    source: if is_final { FilenameSource::QueryParameter } else { FilenameSource::OriginalQueryParameter },
                    classification: FilenameClassification::UrlDerived,
                    generic: generic_route_spec(n),
                }),
                None => None,
            },
        },
    }
}

fn response_disposition_in(pairs: &Vec<(String, String)>) -> (r: Option<String>)
    ensures
        opt_text(r) == rcd_scan(pairs@.map_values(|p: (String, String)| (p.0@, p.1@)), 0),
{
    let ghost pv = pairs@.map_values(|p: (String, String)| (p.0@, p.1@));
    let mut i: usize = 0;
    while i < pairs.len()
        invariant
            i <= pairs@.len(),
            pv == pairs@.map_values(|p: (String, String)| (p.0@, p.1@)),
            rcd_scan(pv, 0) == rcd_scan(pv, i as int),
        decreases pairs@.len() - i,
    {
        let key = chars_of(pairs[i].0.as_str());
        assert(pv[i as int] == (pairs@[i as int].0@, pairs@[i as int].1@));
        if lower_equals(key.as_slice(), "response-content-disposition") {
            let found = extract_filename_from_content_disposition(Some(pairs[i].1.as_str()));
            if found.is_some() {
                return found;
            }
        }
        i = i + 1;
    }
    None
}

fn keyed_value_in(pairs: &Vec<(String, String)>, key: &str) -> (r: Option<String>)
    ensures
        opt_text(r) == keyed_scan(pairs@.map_values(|p: (String, String)| (p.0@, p.1@)), key@, 0),
{
    let ghost pv = pairs@.map_values(|p: (String, String)| (p.0@, p.1@));
    let mut i: usize = 0;
    while i < pairs.len()
        invariant
            i <= pairs@.len(),
            pv == pairs@.map_values(|p: (String, String)| (p.0@, p.1@)),
            keyed_scan(pv, key@, 0) == keyed_scan(pv, key@, i as int),
        decreases pairs@.len() - i,
    {
        let k = chars_of(pairs[i].0.as_str());
        assert(pv[i as int] == (pairs@[i as int].0@, pairs@[i as int].1@));
        if lower_equals(k.as_slice(), key) {
            let v = chars_of(pairs[i].1.as_str());
            let trimmed = trim_chars(v.as_slice(), TrimClass::WhiteSpace);
            if trimmed.len() > 0 {
                let text = string_from_chars(trimmed.as_slice());
                let found = sanitize_filename_leaf(text.as_str());
                if found.is_some() {
                    return found;
                }
            }
        }
        i = i + 1;
    }
    None
}

pub fn best_url_filename_candidate(url: &str, is_final_url: bool) -> (r: Option<FilenameCandidate>)
    ensures
        opt_candidate(r) == url_filename_spec(url@, is_final_url),
{
    let pairs = match query_pairs_of(url) {
        Some(p) => p,
        None => { return None; },
    };
    match response_disposition_in(&pairs) {
        Some(n) => {
            return Some(FilenameCandidate {
                name: chars_of(n.as_str()),
                source: if is_final_url { FilenameSource::ResponseContentDisposition } else { FilenameSource::OriginalResponseContentDisposition },
                classification: FilenameClassification::HeaderDerived,
                generic: false,
            });
        },
        None => {},
    }
    let mut found = keyed_value_in(&pairs, "filename");
    if found.is_none() { found = keyed_value_in(&pairs, "file"); }
    if found.is_none() { found = keyed_value_in(&pairs, "download"); }
    if found.is_none() { found = keyed_value_in(&pairs, "attachment"); }
    if found.is_none() { found = keyed_value_in(&pairs, "name"); }
    if found.is_none() { found = keyed_value_in(&pairs, "title"); }
    match found {
        Some(n) => {
            let name = chars_of(n.as_str());
            let generic = is_generic_route_candidate(name.as_slice());
            Some(FilenameCandidate {
                name,
                source: if is_final_url { FilenameSource::QueryParameter } else { FilenameSource::OriginalQueryParameter },
                classification: FilenameClassification::UrlDerived,
                generic,
            })
        },
        None => None,
    }
}

/// Whether a text is empty once trimmed.
pub fn text_is_blank(s: &str) -> (r: bool)
    ensures
        r == (trim_ws(s@).len() == 0),
{
    let c = chars_of(s);
    let t = trim_chars(c.as_slice(), TrimClass::WhiteSpace);
    t.len() == 0
}

/// The last path segment (from `segs[..n]`) whose trimmed text is not empty.
pub open spec fn last_nonblank_before(segs: Seq<Seq<char>>, n: int) -> Option<Seq<char>>
    decreases n,
{
    if n <= 0 || n > segs.len() {
        None
    } else if trim_ws(segs[n - 1]).len() > 0 {
        Some(segs[n - 1])
    } else {
        last_nonblank_before(segs, n - 1)
    }
}

/// The file name a URL's last non-blank path segment offers.
pub open spec fn url_path_spec(url: Seq<char>, is_final: bool) -> Option<CandidateView> {
    match url_path_segments(url) {
        None => None,
        Some(segs) => match last_nonblank_before(segs, segs.len() as int) {
            None => None,
            Some(seg) => match sanitize_leaf_spec(seg) {
                None => None,
                Some(name) => Some(CandidateView {
                    name,
                    source: if is_final { FilenameSource::FinalUrl } else { FilenameSource::OriginalUrl },
                    classification: FilenameClassification::UrlDerived,
                    generic: generic_route_spec(name),
                }),
            },
        },
    }
}

pub fn best_url_path_candidate(url: &str, is_final_url: bool) -> (r: Option<FilenameCandidate>)
    ensures
        opt_candidate(r) == url_path_spec(url@, is_final_url),
{
    let segs = match path_segments_of(url) {
        Some(s) => s,
        None => { return None; },
    };
    let ghost sv = segs@.map_values(|s: String| s@);
    let mut n: usize = segs.len();
    while n > 0 && text_is_blank(segs[n - 1].as_str())
        invariant
            n <= segs@.len(),
            sv == segs@.map_values(|s: String| s@),
            last_nonblank_before(sv, segs@.len() as int) == last_nonblank_before(sv, n as int),
        decreases n,
    {
        assert(sv[n - 1] == segs@[n - 1]@);
        n = n - 1;
    }
    if n == 0 {
        return None;
    }
    let idx = n - 1;
    assert(sv[idx as int] == segs@[idx as int]@);
    let name_text = match sanitize_filename_leaf(segs[idx].as_str()) {
        Some(t) => t,
        None => { return None; },
    };
    let name = chars_of(name_text.as_str());
    let generic = is_generic_route_candidate(name.as_slice());
    Some(FilenameCandidate {
        name,
        source: if is_final_url { FilenameSource::FinalUrl } else { FilenameSource::OriginalUrl },
        classification: FilenameClassification::UrlDerived,
        generic,
    })
}

/// The first query value under `key` (any case), when the text is a URL.
pub open spec fn query_param_scan(pairs: Seq<(Seq<char>, Seq<char>)>, key: Seq<char>, i: int) -> Option<Seq<char>>
    decreases pairs.len() - i,
{
    if i < 0 || i >= pairs.len() {
        None
    } else if lower_chars(pairs[i].0) == key {
        Some(pairs[i].1)
    } else {
        query_param_scan(pairs, key, i + 1)
    }
}

pub open spec fn query_param_spec(url: Seq<char>, key: Seq<char>) -> Option<Seq<char>> {
    match url_query_pairs(url) {
        Some(pairs) => query_param_scan(pairs, key, 0),
        None => None,
    }
}

fn query_param(url: &str, key: &str) -> (r: Option<String>)
    ensures
        opt_text(r) == query_param_spec(url@, key@),
{
    let parsed = query_pairs_of(url);
    let pairs = match parsed {
        Some(p) => p,
        None => { return None; },
    };
    assert(url_query_pairs(url@) == pairs_view(Some(pairs)));
    let ghost pv = pairs@.map_values(|p: (String, String)| (p.0@, p.1@));
    let mut i: usize = 0;
    while i < pairs.len()
        invariant
            i <= pairs@.len(),
            pv == pairs@.map_values(|p: (String, String)| (p.0@, p.1@)),
            query_param_scan(pv, key@, 0) == query_param_scan(pv, key@, i as int),
            url_query_pairs(url@) == Some(pv),
        decreases pairs@.len() - i,
    {
        let k = chars_of(pairs[i].0.as_str());
        assert(pv[i as int] == (pairs@[i as int].0@, pairs@[i as int].1@));
        if lower_equals(k.as_slice(), key) {
            let v = pairs[i].1.clone();
            assert(v@ == pv[i as int].1);
            return Some(v);
        }
        i = i + 1;
    }
    None
}

/// The `response-content-disposition` query value of a URL.
pub fn query_response_content_disposition(url: &str) -> (r: Option<String>)
    ensures
        opt_text(r) == query_param_spec(url@, "response-content-disposition"@),
{
    query_param(url, "response-content-disposition")
}

/// The `response-content-type` query value of a URL.
pub fn query_response_content_type(url: &str) -> (r: Option<String>)
    ensures
        opt_text(r) == query_param_spec(url@, "response-content-type"@),
{
    query_param(url, "response-content-type")
}

pub open spec fn min_int(a: int, b: int) -> int {
    if a <= b { a } else { b }
}

/// How much a candidate is worth: a usable extension counts most, a specific (not generic)
/// name next, and longer names a little.
pub open spec fn score_spec(c: CandidateView) -> int {
    (if usable_ext_spec(c.name) is Some { 120int } else { 0int }) + (if !c.generic { 40int } else { 0int })
        + min_int(utf8_len(c.name), 96) / 8
}

/// Bytes a character takes in UTF-8.
pub open spec fn utf8_width(c: char) -> int {
    let u = c as u32;
    if u < 0x80 { 1 } else if u < 0x800 { 2 } else if u < 0x10000 { 3 } else { 4 }
}

/// Bytes a text takes in UTF-8 (`str::len`).
pub open spec fn utf8_len(s: Seq<char>) -> int
    decreases s.len(),
{
    if s.len() == 0 { 0 } else { utf8_len(s.drop_last()) + utf8_width(s.last()) }
}

proof fn lemma_utf8_len_nonneg(s: Seq<char>)
    ensures
        utf8_len(s) >= 0,
    decreases s.len(),
{
    if s.len() > 0 {
        lemma_utf8_len_nonneg(s.drop_last());
    }
}

/// `min(utf8_len(s), cap)`.
fn utf8_len_capped(s: &[char], cap: usize) -> (r: usize)
    ensures
        r == min_int(utf8_len(s@), cap as int),
{
    let mut acc: usize = 0;
    let mut i: usize = 0;
    while i < s.len()
        invariant
            i <= s@.len(),
            acc == min_int(utf8_len(s@.take(i as int)), cap as int),
        decreases s@.len() - i,
    {
        assert(s@.take(i + 1).drop_last() =~= s@.take(i as int));
        proof { lemma_utf8_len_nonneg(s@.take(i as int)); }
        let u = s[i] as u32;
        let w: usize = if u < 0x80 { 1 } else if u < 0x800 { 2 } else if u < 0x10000 { 3 } else { 4 };
        acc = if acc >= cap || cap - acc <= w { cap } else { acc + w };
        i = i + 1;
    }
    assert(s@.take(s@.len() as int) =~= s@);
    acc
}

pub fn score_filename_candidate(c: &FilenameCandidate) -> (r: i32)
    ensures
        r == score_spec(c@),
{
    let mut score: i32 = 0;
    if usable_extension(c.name.as_slice()).is_some() {
        score = score + 120;
    }
    if !c.generic {
        score = score + 40;
    }
    let capped = utf8_len_capped(c.name.as_slice(), 96);
    score + (capped / 8) as i32
}

/// The better of two candidates: the second only when it scores strictly higher.
pub open spec fn choose_spec(p: Option<CandidateView>, s: Option<CandidateView>) -> Option<CandidateView> {
    match (p, s) {
        (Some(a), Some(b)) => if score_spec(b) > score_spec(a) { Some(b) } else { Some(a) },
        (Some(a), None) => Some(a),
        (None, Some(b)) => Some(b),
        (None, None) => None,
    }
}

pub fn choose_preferred_candidate(primary: Option<FilenameCandidate>, secondary: Option<FilenameCandidate>) -> (r: Option<FilenameCandidate>)
    ensures
        opt_candidate(r) == choose_spec(opt_candidate(primary), opt_candidate(secondary)),
{
    match (primary, secondary) {
        (Some(a), Some(b)) => {
            if score_filename_candidate(&b) > score_filename_candidate(&a) { Some(b) } else { Some(a) }
        },
        (Some(a), None) => Some(a),
        (None, Some(b)) => Some(b),
        (None, None) => None,
    }
}

fn copy_candidate(c: &FilenameCandidate) -> (r: FilenameCandidate)
    ensures
        r@ == c@,
{
    let name = slice_chars(c.name.as_slice(), 0, c.name.len());
    assert(name@ =~= c.name@);
    FilenameCandidate { name, source: c.source, classification: c.classification, generic: c.generic }
}

fn copy_opt_candidate(c: &Option<FilenameCandidate>) -> (r: Option<FilenameCandidate>)
    ensures
        opt_candidate(r) == opt_candidate(*c),
{
    match c {
        Some(x) => {
            let y = copy_candidate(x);
            assert(y.name@ =~= x.name@);
            Some(y)
        },
        None => None,
    }
}

pub open spec fn or_cand(a: Option<CandidateView>, b: Option<CandidateView>) -> Option<CandidateView> {
    if a is Some { a } else { b }
}

pub open spec fn ext_of(c: Option<CandidateView>) -> Option<Seq<char>> {
    match c {
        Some(x) => usable_ext_spec(x.name),
        None => None,
    }
}

pub open spec fn or_ext(a: Option<Seq<char>>, b: Option<Seq<char>>) -> Option<Seq<char>> {
    if a is Some { a } else { b }
}

pub open spec fn header_candidate_spec(cd: Option<Seq<char>>) -> Option<CandidateView> {
    match disposition_name_spec(cd) {
        Some(n) => Some(CandidateView {
            name: n,
            source: FilenameSource::ContentDisposition,
            classification: FilenameClassification::HeaderDerived,
            generic: false,
        }),
        None => None,
    }
}

pub open spec fn html_candidate_spec(html: Option<Seq<char>>) -> Option<CandidateView> {
    match html {
        Some(h) => match sanitize_leaf_spec(h) {
            Some(n) => Some(CandidateView {
                name: n,
                source: FilenameSource::HtmlWrapper,
                classification: FilenameClassification::WrapperDerived,
                generic: generic_route_spec(n),
            }),
            None => None,
        },
        None => None,
    }
}

pub open spec fn specific_path_spec(path: Option<CandidateView>) -> Option<CandidateView> {
    match path {
        Some(p) => if !p.generic && usable_ext_spec(p.name) is Some { Some(p) } else { None },
        None => None,
    }
}

/// The chosen file name with where it came from, how it was arrived at, and the warnings.
pub struct ResolvedName {
    pub name: Seq<char>,
    pub source: FilenameSource,
    pub classification: FilenameClassification,
    pub warnings: Seq<Seq<char>>,
}

pub open spec fn generic_name_warning() -> Seq<char> {
    "Filename came from a generic download endpoint, so the final file name was inferred conservatively."@
}

pub open spec fn fallback_name_warning() -> Seq<char> {
    "Remote host did not advertise a usable file name or extension; using a generic fallback."@
}

pub open spec fn mime_warning(m: Seq<char>) -> Seq<char> {
    "File extension was inferred from the reported content type ("@ + m + ")."@
}

/// The file name of a download: a Content-Disposition name first, then the better query
/// name of the final and original URLs, then a specific path name, then an HTML hint, then
/// any path name, else `download`; without a usable extension it gets one from another
/// candidate, else from the content type, else (for the fallback) `.bin`.
pub open spec fn resolve_name_spec(
    original: Seq<char>,
    final_url: Seq<char>,
    cd: Option<Seq<char>>,
    mime: Option<Seq<char>>,
    html: Option<Seq<char>>,
) -> ResolvedName {
    let header = header_candidate_spec(cd);
    let query = choose_spec(url_filename_spec(final_url, true), url_filename_spec(original, false));
    let path = choose_spec(url_path_spec(final_url, true), url_path_spec(original, false));
    let html_c = html_candidate_spec(html);
    let fallback = CandidateView {
        name: "download"@,
        source: FilenameSource::Fallback,
        classification: FilenameClassification::Fallback,
        generic: true,
    };
    let primary = match or_cand(header, or_cand(query, or_cand(specific_path_spec(path), or_cand(html_c, path)))) {
        Some(c) => c,
        None => fallback,
    };
    let w0: Seq<Seq<char>> = if primary.generic && header is None && html_c is None {
        seq![generic_name_warning()]
    } else {
        Seq::empty()
    };
    if usable_ext_spec(primary.name) is Some {
        ResolvedName { name: primary.name, source: primary.source, classification: primary.classification, warnings: w0 }
    } else {
        match or_ext(ext_of(header), or_ext(ext_of(query), or_ext(ext_of(html_c), ext_of(path)))) {
            Some(e) => ResolvedName {
                name: append_ext_spec(primary.name, e),
                source: primary.source,
                classification: FilenameClassification::UrlExtended,
                warnings: w0,
            },
            None => match mime_ext_spec(mime) {
                Some(e) => ResolvedName {
                    name: append_ext_spec(primary.name, e),
                    source: primary.source,
                    classification: FilenameClassification::MimeExtended,
                    warnings: match mime {
                        Some(m) => w0.push(mime_warning(m)),
                        None => w0,
                    },
                },
                None => if primary.source == FilenameSource::Fallback {
                    ResolvedName {
                        name: "download.bin"@,
                        source: primary.source,
                        classification: primary.classification,
                        warnings: w0.push(fallback_name_warning()),
                    }
                } else {
                    ResolvedName { name: primary.name, source: primary.source, classification: primary.classification, warnings: w0 }
                },
            },
        }
    }
}

pub open spec fn texts_view(v: Vec<String>) -> Seq<Seq<char>> {
    v@.map_values(|s: String| s@)
}

fn ext_from(c: &Option<FilenameCandidate>) -> (r: Option<Vec<char>>)
    ensures
        match r {
            Some(e) => ext_of(opt_candidate(*c)) == Some(e@),
            None => ext_of(opt_candidate(*c)) is None,
        },
{
    match c {
        Some(x) => usable_extension(x.name.as_slice()),
        None => None,
    }
}

fn push_text(warnings: &mut Vec<String>, text: String)
    ensures
        texts_view(*final(warnings)) == texts_view(*old(warnings)).push(text@),
{
    warnings.push(text);
    assert(texts_view(*final(warnings)) =~= texts_view(*old(warnings)).push(text@));
}

/// The file name for a download, where it came from, and the warnings to show.
pub fn resolve_suggested_name(
    original_url: &str,
    final_url: &str,
    content_disposition: Option<&str>,
    mime_type: Option<&str>,
    html_hint_name: Option<&str>,
) -> (r: (String, DownloadCompatibility, Vec<String>))
    ensures
        ({
            let spec = resolve_name_spec(original_url@, final_url@, opt_str_text(content_disposition),
                opt_str_text(mime_type), opt_str_text(html_hint_name));
            &&& r.0@ == spec.name
            &&& texts_view(r.2) == spec.warnings
            &&& opt_text(r.1.filename_source) == Some(source_label(spec.source))
            &&& opt_text(r.1.classification) == Some(classification_label(spec.classification))
            &&& texts_view(r.1.redirect_chain) == (if original_url@ != final_url@ { seq![original_url@, final_url@] } else { Seq::empty() })
            &&& !r.1.wrapper_detected && !r.1.direct_url_recovered && !r.1.browser_interstitial_only
            &&& r.1.request_referer is None && r.1.request_cookies is None
            &&& r.1.request_method == DownloadRequestMethod::Get
            &&& r.1.request_form_fields@.len() == 0
        }),
{
    let mut warnings: Vec<String> = Vec::new();
    let header: Option<FilenameCandidate> = match extract_filename_from_content_disposition(content_disposition) {
        Some(n) => Some(FilenameCandidate {
            name: chars_of(n.as_str()),
            source: FilenameSource::ContentDisposition,
            classification: FilenameClassification::HeaderDerived,
            generic: false,
        }),
        None => None,
    };
    let query = choose_preferred_candidate(best_url_filename_candidate(final_url, true), best_url_filename_candidate(original_url, false));
    let path = choose_preferred_candidate(best_url_path_candidate(final_url, true), best_url_path_candidate(original_url, false));
    let html: Option<FilenameCandidate> = match html_hint_name {
        Some(h) => match sanitize_filename_leaf(h) {
            Some(n) => {
                let name = chars_of(n.as_str());
                let generic = is_generic_route_candidate(name.as_slice());
                Some(FilenameCandidate {
                    name,
                    source: FilenameSource::HtmlWrapper,
                    classification: FilenameClassification::WrapperDerived,
                    generic,
                })
            },
            None => None,
        },
        None => None,
    };
    let specific: Option<FilenameCandidate> = match &path {
        Some(p) => {
            if !p.generic && usable_extension(p.name.as_slice()).is_some() { Some(copy_candidate(p)) } else { None }
        },
        None => None,
    };
    let chosen = if header.is_some() {
        copy_opt_candidate(&header)
    } else if query.is_some() {
        copy_opt_candidate(&query)
    } else if specific.is_some() {
        specific
    } else if html.is_some() {
        copy_opt_candidate(&html)
    } else {
        copy_opt_candidate(&path)
    };
    let mut primary = match chosen {
        Some(c) => c,
        None => FilenameCandidate {
            name: chars_of("download"),
            source: FilenameSource::Fallback,
            classification: FilenameClassification::Fallback,
            generic: true,
        },
    };
    if primary.generic && header.is_none() && html.is_none() {
        push_text(&mut warnings, String::from_str(
            "Filename came from a generic download endpoint, so the final file name was inferred conservatively."));
    }
    if usable_extension(primary.name.as_slice()).is_none() {
        let mut ext = ext_from(&header);
        if ext.is_none() { ext = ext_from(&query); }
        if ext.is_none() { ext = ext_from(&html); }
        if ext.is_none() { ext = ext_from(&path); }
        match ext {
            Some(e) => {
                primary.name = append_extension(primary.name.as_slice(), e.as_slice());
                primary.classification = FilenameClassification::UrlExtended;
            },
            None => {
                match preferred_extension_from_mime(mime_type) {
                    Some(e) => {
                        let e_chars = chars_of(e);
                        primary.name = append_extension(primary.name.as_slice(), e_chars.as_slice());
                        primary.classification = FilenameClassification::MimeExtended;
                        match mime_type {
                            Some(m) => {
                                let mut text = String::from_str("File extension was inferred from the reported content type (");
                                text.append(m);
                                text.append(").");
                                push_text(&mut warnings, text);
                            },
                            None => {},
                        }
                    },
                    None => {
                        if primary.source == FilenameSource::Fallback {
                            primary.name = chars_of("download.bin");
                            push_text(&mut warnings, String::from_str(
                                "Remote host did not advertise a usable file name or extension; using a generic fallback."));
                        }
                    },
                }
            },
        }
    }
    let mut redirect_chain: Vec<String> = Vec::new();
    if !crate::text::str_equal(original_url, final_url) {
        push_text(&mut redirect_chain, original_url.to_owned());
        push_text(&mut redirect_chain, final_url.to_owned());
    }
    let name = string_from_chars(primary.name.as_slice());
    let compatibility = DownloadCompatibility {
        redirect_chain,
        filename_source: Some(primary.source.label()),
        classification: Some(primary.classification.label()),
        wrapper_detected: false,
        direct_url_recovered: false,
        browser_interstitial_only: false,
        request_referer: None,
        request_cookies: None,
        request_method: DownloadRequestMethod::Get,
        request_form_fields: Vec::new(),
    };
    (name, compatibility, warnings)
}

/// Whether a name hint is trustworthy: a Content-Disposition name, or a specific query name
/// of the final (else the original) URL.
pub open spec fn confident_hint_spec(original: Seq<char>, final_url: Seq<char>, cd: Option<Seq<char>>) -> bool {
    disposition_name_spec(cd) is Some
        || (match or_cand(url_filename_spec(final_url, true), url_filename_spec(original, false)) {
            Some(c) => !c.generic,
            None => false,
        })
}

pub fn has_confident_name_hint(original_url: &str, final_url: &str, content_disposition: Option<&str>) -> (r: bool)
    ensures
        r == confident_hint_spec(original_url@, final_url@, opt_str_text(content_disposition)),
{
    if extract_filename_from_content_disposition(content_disposition).is_some() {
        return true;
    }
    let candidate = match best_url_filename_candidate(final_url, true) {
        Some(c) => Some(c),
        None => best_url_filename_candidate(original_url, false),
    };
    match candidate {
        Some(c) => !c.generic,
        None => false,
    }
}

} // verus!
