//! How a new download is named, placed and filed: its name from the URL, its extension, its
//! host and its category.

use vstd::prelude::*;
use crate::chars::{
    before_first, last_index, lower_chars, lower_equals, prefix_before, rfind_char, slice_chars, split_text,
    string_from_chars, trim_chars, trim_ws, vecs_view, split_on, TrimClass,
};
use crate::download::DownloadCategory;
use crate::filename_policy::{normalize_filename_hint, normalize_hint_spec};
use crate::model::opt_text;
use crate::text::chars_of;
use crate::urls::{pairs_view, path_segments_of, query_pairs_of, strings_view, url_path_segments, url_query_pairs};

verus! {

pub const DEFAULT_DOWNLOAD_NAME: &'static str = "download.bin";
pub const UNKNOWN_HOST: &'static str = "unknown-host";

/// Query keys that name the file.
pub open spec fn name_hint_key(lowered: Seq<char>) -> bool {
    lowered == "filename"@ || lowered == "file"@ || lowered == "download"@ || lowered == "attachment"@
        || lowered == "name"@ || lowered == "title"@
}

/// The first query pair whose key names the file and whose value is not blank, normalized.
pub open spec fn query_name_hint(pairs: Seq<(Seq<char>, Seq<char>)>) -> Option<Seq<char>>
    decreases pairs.len(),
{
    if pairs.len() == 0 {
        None
    } else if name_hint_key(lower_chars(pairs[0].0)) && trim_ws(pairs[0].1).len() > 0 {
        Some(normalize_hint_spec(trim_ws(pairs[0].1)))
    } else {
        query_name_hint(pairs.drop_first())
    }
}

/// The last path segment that is not blank, trimmed and normalized.
pub open spec fn path_name_hint(segments: Seq<Seq<char>>) -> Option<Seq<char>>
    decreases segments.len(),
{
    if segments.len() == 0 {
        None
    } else if trim_ws(segments.last()).len() > 0 {
        Some(normalize_hint_spec(trim_ws(segments.last())))
    } else {
        path_name_hint(segments.drop_last())
    }
}

/// The last piece that is not empty.
pub open spec fn last_non_empty(pieces: Seq<Seq<char>>) -> Option<Seq<char>>
    decreases pieces.len(),
{
    if pieces.len() == 0 {
        None
    } else if pieces.last().len() > 0 {
        Some(pieces.last())
    } else {
        last_non_empty(pieces.drop_last())
    }
}

/// The name read from the raw text of a URL: the last non-empty `/` piece before any `?` or
/// `#` (or the default name), trimmed and normalized.
pub open spec fn raw_url_name(url: Seq<char>) -> Seq<char> {
    let head = before_first(before_first(url, '?'), '#');
    let piece = match last_non_empty(split_on(head, "/"@)) {
        Some(p) => p,
        None => DEFAULT_DOWNLOAD_NAME@,
    };
    normalize_hint_spec(trim_ws(piece))
}

/// The name a URL suggests: a naming query parameter, else the last path segment, else the
/// raw text of the URL; the default name when that is blank.
pub open spec fn url_name_spec(url: Seq<char>) -> Seq<char> {
    let parsed = match url_query_pairs(url) {
        None => None,
        Some(pairs) => match query_name_hint(pairs) {
            Some(h) => Some(h),
            None => match url_path_segments(url) {
                Some(segments) => path_name_hint(segments),
                None => None,
            },
        },
    };
    let candidate = match parsed {
        Some(c) => c,
        None => raw_url_name(url),
    };
    if trim_ws(candidate).len() == 0 { DEFAULT_DOWNLOAD_NAME@ } else { candidate }
}

fn query_hint_of(pairs: &Vec<(String, String)>) -> (r: Option<String>)
    ensures
        opt_text(r) == query_name_hint(pairs@.map_values(|p: (String, String)| (p.0@, p.1@))),
{
    let ghost view = pairs@.map_values(|p: (String, String)| (p.0@, p.1@));
    let mut i: usize = 0;
    assert(view.skip(0) =~= view);
    while i < pairs.len()
        invariant
            i <= pairs@.len(),
            view == pairs@.map_values(|p: (String, String)| (p.0@, p.1@)),
            query_name_hint(view) == query_name_hint(view.skip(i as int)),
        decreases pairs@.len() - i,
    {
        assert(view.skip(i as int).drop_first() =~= view.skip(i + 1));
        assert(view.skip(i as int)[0] == (pairs@[i as int].0@, pairs@[i as int].1@));
        let key = chars_of(pairs[i].0.as_str());
        let value = chars_of(pairs[i].1.as_str());
        let trimmed = trim_chars(value.as_slice(), TrimClass::WhiteSpace);
        proof { reveal_strlit("filename"); }
        let named = lower_equals(key.as_slice(), "filename") || lower_equals(key.as_slice(), "file")
            || lower_equals(key.as_slice(), "download") || lower_equals(key.as_slice(), "attachment")
            || lower_equals(key.as_slice(), "name") || lower_equals(key.as_slice(), "title");
        if named && trimmed.len() > 0 {
            let t = string_from_chars(trimmed.as_slice());
            return Some(normalize_filename_hint(t.as_str()));
        }
        i = i + 1;
    }
    assert(view.skip(i as int).len() == 0);
    None
}

fn path_hint_of(segments: &Vec<String>) -> (r: Option<String>)
    ensures
        opt_text(r) == path_name_hint(segments@.map_values(|s: String| s@)),
{
    let ghost view = segments@.map_values(|s: String| s@);
    let mut n: usize = segments.len();
    assert(view.take(n as int) =~= view);
    while n > 0
        invariant
            n <= segments@.len(),
            view == segments@.map_values(|s: String| s@),
            path_name_hint(view) == path_name_hint(view.take(n as int)),
        decreases n,
    {
        assert(view.take(n as int).drop_last() =~= view.take(n - 1));
        assert(view.take(n as int).last() == segments@[n - 1]@);
        let seg = chars_of(segments[n - 1].as_str());
        let trimmed = trim_chars(seg.as_slice(), TrimClass::WhiteSpace);
        if trimmed.len() > 0 {
            let t = string_from_chars(trimmed.as_slice());
            return Some(normalize_filename_hint(t.as_str()));
        }
        n = n - 1;
    }
    None
}

fn raw_name_of(url: &str) -> (r: String)
    ensures
        r@ == raw_url_name(url@),
{
    proof { reveal_strlit("/"); reveal_strlit("download.bin"); }
    let all = chars_of(url);
    let before_query = prefix_before(all.as_slice(), '?');
    let head = prefix_before(before_query.as_slice(), '#');
    let sep = chars_of("/");
    let pieces = split_text(head.as_slice(), sep.as_slice());
    let ghost view = vecs_view(pieces@);
    let mut n: usize = pieces.len();
    assert(view.take(n as int) =~= view);
    while n > 0
        invariant
            n <= pieces@.len(),
            view == vecs_view(pieces@),
            view == split_on(before_first(before_first(url@, '?'), '#'), "/"@),
            last_non_empty(view) == last_non_empty(view.take(n as int)),
        decreases n,
    {
        assert(view.take(n as int).drop_last() =~= view.take(n - 1));
        assert(view.take(n as int).last() == pieces@[n - 1]@);
        if pieces[n - 1].len() > 0 {
            assert(last_non_empty(view.take(n as int)) == Some(pieces@[n - 1]@));
            let piece = slice_chars(pieces[n - 1].as_slice(), 0, pieces[n - 1].len());
            assert(piece@ =~= pieces@[n - 1]@);
            let trimmed = trim_chars(piece.as_slice(), TrimClass::WhiteSpace);
            let t = string_from_chars(trimmed.as_slice());
            return normalize_filename_hint(t.as_str());
        }
        n = n - 1;
    }
    assert(last_non_empty(view) is None);
    let piece = chars_of(DEFAULT_DOWNLOAD_NAME);
    let trimmed = trim_chars(piece.as_slice(), TrimClass::WhiteSpace);
    let t = string_from_chars(trimmed.as_slice());
    normalize_filename_hint(t.as_str())
}

/// The name a URL suggests for its download.
pub fn suggested_name_from_url(url: &str) -> (r: String)
    ensures
        r@ == url_name_spec(url@),
{
    proof { reveal_strlit("download.bin"); }
    let parsed: Option<String> = match query_pairs_of(url) {
        None => None,
        Some(pairs) => {
            proof { assert(pairs_view(Some(pairs)) == Some(pairs@.map_values(|p: (String, String)| (p.0@, p.1@)))); }
            match query_hint_of(&pairs) {
                Some(h) => Some(h),
                None => match path_segments_of(url) {
                    Some(segments) => {
                        proof { assert(strings_view(Some(segments)) == Some(segments@.map_values(|s: String| s@))); }
                        path_hint_of(&segments)
                    },
                    None => None,
                },
            }
        },
    };
    let candidate = match parsed {
        Some(c) => c,
        None => raw_name_of(url),
    };
    let chars = chars_of(candidate.as_str());
    let trimmed = trim_chars(chars.as_slice(), TrimClass::WhiteSpace);
    if trimmed.len() == 0 { DEFAULT_DOWNLOAD_NAME.to_owned() } else { candidate }
}

pub open spec fn is_ascii_alnum(c: char) -> bool {
    ('0' <= c && c <= '9') || ('a' <= c && c <= 'z') || ('A' <= c && c <= 'Z')
}

/// The text after the last `.` of a name, trimmed, when it is a non-empty run of ASCII
/// letters and digits.
pub open spec fn filename_extension_spec(name: Seq<char>) -> Option<Seq<char>> {
    match last_index(name, '.') {
        None => None,
        Some(i) => {
            let t = trim_ws(name.skip(i + 1));
            if t.len() == 0 || !(forall|k: int| 0 <= k < t.len() ==> is_ascii_alnum(#[trigger] t[k])) { None } else { Some(t) }
        },
    }
}

pub fn filename_extension(name: &[char]) -> (r: Option<Vec<char>>)
    ensures
        match r {
            Some(e) => filename_extension_spec(name@) == Some(e@),
            None => filename_extension_spec(name@) is None,
        },
{
    let dot = match rfind_char(name, '.') {
        Some(i) => i,
        None => { return None; },
    };
    let len = name.len();
    assert(dot < len);
    let after = slice_chars(name, dot + 1, len);
    assert(after@ =~= name@.skip(dot + 1));
    let t = trim_chars(after.as_slice(), TrimClass::WhiteSpace);
    assert(t@ == trim_ws(name@.skip(dot + 1)));
    if t.len() == 0 {
        return None;
    }
    let mut k: usize = 0;
    while k < t.len()
        invariant
            k <= t@.len(),
            t@ == trim_ws(name@.skip(dot + 1)),
            last_index(name@, '.') == Some(dot as int),
            forall|j: int| 0 <= j < k ==> is_ascii_alnum(#[trigger] t@[j]),
        decreases t@.len() - k,
    {
        let c = t[k];
        if !(('0' <= c && c <= '9') || ('a' <= c && c <= 'z') || ('A' <= c && c <= 'Z')) {
            assert(!is_ascii_alnum(t@[k as int]));
            assert(!(forall|j: int| 0 <= j < t@.len() ==> is_ascii_alnum(#[trigger] t@[j])));
            return None;
        }
        k = k + 1;
    }
    Some(t)
}

/// A user-given name keeps its own extension, or takes the detected name's; a blank name
/// becomes the detected name (or the default name).
pub open spec fn detected_extension_spec(name: Seq<char>, detected: Option<Seq<char>>) -> Seq<char> {
    let trimmed = trim_ws(name);
    if trimmed.len() == 0 {
        match detected {
            Some(d) => d,
            None => DEFAULT_DOWNLOAD_NAME@,
        }
    } else if filename_extension_spec(trimmed) is Some {
        trimmed
    } else {
        match detected {
            Some(d) => match filename_extension_spec(d) {
                Some(ext) => trimmed + "."@ + ext,
                None => trimmed,
            },
            None => trimmed,
        }
    }
}

pub fn apply_detected_extension(name: &str, detected_name: Option<&str>) -> (r: String)
    ensures
        r@ == detected_extension_spec(name@, crate::filename::opt_str_text(detected_name)),
{
    let all = chars_of(name);
    let trimmed = trim_chars(all.as_slice(), TrimClass::WhiteSpace);
    if trimmed.len() == 0 {
        return match detected_name {
            Some(d) => d.to_owned(),
            None => DEFAULT_DOWNLOAD_NAME.to_owned(),
        };
    }
    let own = filename_extension(trimmed.as_slice());
    let trimmed_text = string_from_chars(trimmed.as_slice());
    if own.is_some() {
        return trimmed_text;
    }
    match detected_name {
        Some(d) => {
            let dchars = chars_of(d);
            match filename_extension(dchars.as_slice()) {
                Some(ext) => {
                    let mut out = trimmed_text;
                    out.append(".");
                    let e = string_from_chars(ext.as_slice());
                    out.append(e.as_str());
                    out
                },
                None => trimmed_text,
            }
        },
        None => trimmed_text,
    }
}

/// The host name of the URL that a text parses to; `None` when it does not parse or has no
/// host.
pub uninterp spec fn url_host(url: Seq<char>) -> Option<Seq<char>>;

/// `url::Url::parse` followed by `host_str`.
#[verifier::external_body]
fn host_of(url: &str) -> (r: Option<String>)
    ensures
        opt_text(r) == url_host(url@),
{
    match url::Url::parse(url) {
        Ok(parsed) => parsed.host_str().map(|h| h.to_string()),
        Err(_) => None,
    }
}

/// The host of a URL, trimmed; `None` when there is none or it is blank.
pub open spec fn url_host_spec(url: Seq<char>) -> Option<Seq<char>> {
    match url_host(url) {
        Some(h) => if trim_ws(h).len() == 0 { None } else { Some(trim_ws(h)) },
        None => None,
    }
}

pub fn extract_url_host(url: &str) -> (r: Option<String>)
    ensures
        opt_text(r) == url_host_spec(url@),
{
    match host_of(url) {
        Some(h) => {
            let all = chars_of(h.as_str());
            let t = trim_chars(all.as_slice(), TrimClass::WhiteSpace);
            if t.len() == 0 { None } else { Some(string_from_chars(t.as_slice())) }
        },
        None => None,
    }
}

/// The host a download is filed under.
pub fn extract_host(url: &str) -> (r: String)
    ensures
        r@ == match url_host_spec(url@) {
            Some(h) => h,
            None => UNKNOWN_HOST@,
        },
{
    match extract_url_host(url) {
        Some(h) => h,
        None => UNKNOWN_HOST.to_owned(),
    }
}

/// The text after the last `.` of a name (the whole name without one), lower-cased.
pub open spec fn name_extension_lower(name: Seq<char>) -> Seq<char> {
    lower_chars(match last_index(name, '.') {
        Some(i) => name.skip(i + 1),
        None => name,
    })
}

pub open spec fn category_spec(e: Seq<char>) -> DownloadCategory {
    if e == "zip"@ || e == "rar"@ || e == "7z"@ || e == "tar"@ || e == "gz"@ || e == "bz2"@ || e == "xz"@ {
        DownloadCategory::Compressed
    } else if e == "exe"@ || e == "msi"@ || e == "dmg"@ || e == "pkg"@ || e == "deb"@ || e == "rpm"@ || e == "apk"@ {
        DownloadCategory::Programs
    } else if e == "mp4"@ || e == "mkv"@ || e == "mov"@ || e == "avi"@ || e == "webm"@ || e == "m4v"@ || e == "flv"@ || e == "wmv"@ {
        DownloadCategory::Videos
    } else if e == "mp3"@ || e == "flac"@ || e == "wav"@ || e == "ogg"@ || e == "m4a"@ || e == "aac"@ || e == "opus"@ {
        DownloadCategory::Music
    } else if e == "jpg"@ || e == "jpeg"@ || e == "png"@ || e == "gif"@ || e == "bmp"@ || e == "webp"@ || e == "svg"@
        || e == "avif"@ || e == "tif"@ || e == "tiff"@ || e == "ico"@ || e == "heic"@ || e == "heif"@ {
        DownloadCategory::Pictures
    } else {
        DownloadCategory::Documents
    }
}

/// The category a name's extension files it under.
pub fn classify_category(name: &str) -> (r: DownloadCategory)
    ensures
        r == category_spec(name_extension_lower(name@)),
{
    let all = chars_of(name);
    let n = all.len();
    let ext: Vec<char> = match rfind_char(all.as_slice(), '.') {
        Some(i) => slice_chars(all.as_slice(), i + 1, n),
        None => all,
    };
    assert(ext@ =~= match last_index(name@, '.') { Some(i) => name@.skip(i + 1), None => name@ });
    let e = ext.as_slice();
    if lower_equals(e, "zip") || lower_equals(e, "rar") || lower_equals(e, "7z") || lower_equals(e, "tar")
        || lower_equals(e, "gz") || lower_equals(e, "bz2") || lower_equals(e, "xz") {
        DownloadCategory::Compressed
    } else if lower_equals(e, "exe") || lower_equals(e, "msi") || lower_equals(e, "dmg") || lower_equals(e, "pkg")
        || lower_equals(e, "deb") || lower_equals(e, "rpm") || lower_equals(e, "apk") {
        DownloadCategory::Programs
    } else if lower_equals(e, "mp4") || lower_equals(e, "mkv") || lower_equals(e, "mov") || lower_equals(e, "avi")
        || lower_equals(e, "webm") || lower_equals(e, "m4v") || lower_equals(e, "flv") || lower_equals(e, "wmv") {
        DownloadCategory::Videos
    } else if lower_equals(e, "mp3") || lower_equals(e, "flac") || lower_equals(e, "wav") || lower_equals(e, "ogg")
        || lower_equals(e, "m4a") || lower_equals(e, "aac") || lower_equals(e, "opus") {
        DownloadCategory::Music
    } else if lower_equals(e, "jpg") || lower_equals(e, "jpeg") || lower_equals(e, "png") || lower_equals(e, "gif")
        || lower_equals(e, "bmp") || lower_equals(e, "webp") || lower_equals(e, "svg") || lower_equals(e, "avif")
        || lower_equals(e, "tif") || lower_equals(e, "tiff") || lower_equals(e, "ico") || lower_equals(e, "heic")
        || lower_equals(e, "heif") {
        DownloadCategory::Pictures
    } else {
        DownloadCategory::Documents
    }
}

/// A bare file name: not empty, not `.` or `..`, and free of the characters that make a
/// path rooted, prefixed or nested on any platform (`/`, `\\`, `:`).
pub open spec fn plain_file_name(name: Seq<char>) -> bool {
    &&& name.len() > 0
    &&& name != seq!['.']
    &&& name != seq!['.', '.']
    &&& forall|i: int| 0 <= i < name.len() ==> #[trigger] name[i] != '/' && name[i] != '\\' && name[i] != ':'
}

/// A base directory whose text `std::path::PathBuf::push` keeps as it is: one without a
/// `?`, so without a Windows verbatim prefix (`\\?\`), under which pushing normalizes the
/// path and drops its `.` and `..` components.
pub open spec fn plain_base(base: Seq<char>) -> bool {
    forall|i: int| 0 <= i < base.len() ==> #[trigger] base[i] != '?'
}

/// Whether `s` starts with `base` and ends with `name`.
pub open spec fn joined_under(s: Seq<char>, base: Seq<char>, name: Seq<char>) -> bool {
    &&& s.len() >= base.len() + name.len()
    &&& s.subrange(0, base.len() as int) == base
    &&& s.subrange(s.len() - name.len(), s.len() as int) == name
}

/// `std::path::PathBuf::push` of `name` onto `save_path` (the path built from the text and
/// read back as text around the one call). What std documents of `push` for a relative,
/// plain `name` onto a base without a verbatim prefix is stated: the name is appended to the
/// base, after a separator where one is needed. Which separator, what a rooted or prefixed
/// `name` does (it replaces the base), and how a verbatim base is normalized, are the
/// platform's and are not stated.
#[verifier::external_body]
pub(crate) fn join_target_path(save_path: &str, name: &str) -> (r: String)
    ensures
        plain_file_name(name@) && plain_base(save_path@) ==> joined_under(r@, save_path@, name@),
{
    let mut path = std::path::PathBuf::from(save_path);
    path.push(name);
    path.to_string_lossy().to_string()
}

} // verus!
