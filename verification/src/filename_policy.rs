//! Turning untrusted names (from headers, URLs and pages) into safe file names.

use vstd::prelude::*;
use crate::chars::{
    before_first, chars_equal, concat_chars, contains_char, last_index, lemma_last_index_bounds, lower_chars,
    lower_equals, prefix_before, rfind_char, slice_chars, string_from_chars, string_from_utf8, trim_by, trim_chars,
    trim_ws, TrimClass,
};
use crate::model::opt_text;
use crate::text::chars_of;

verus! {

pub const MAX_FILENAME_CHARS: usize = 240;

/// The value of an ASCII hex digit.
pub open spec fn hex_value(b: u8) -> Option<u8> {
    if 48 <= b <= 57 {
        Some((b - 48) as u8)
    } else if 97 <= b <= 102 {
        Some((b - 87) as u8)
    } else if 65 <= b <= 70 {
        Some((b - 55) as u8)
    } else {
        None
    }
}

pub fn decode_hex_digit(value: u8) -> (r: Option<u8>)
    ensures
        r == hex_value(value),
{
    if 48 <= value && value <= 57 {
        Some(value - 48)
    } else if 97 <= value && value <= 102 {
        Some(value - 87)
    } else if 65 <= value && value <= 70 {
        Some(value - 55)
    } else {
        None
    }
}

/// Percent-decoding of `b[i..]`: each `%` must be followed by two hex digits.
pub open spec fn percent_decode_from(b: Seq<u8>, i: int) -> Option<Seq<u8>>
    decreases b.len() - i,
{
    if i < 0 || i >= b.len() {
        Some(Seq::empty())
    } else if b[i] == 37 {
        if i + 2 >= b.len() {
            None
        } else {
            match (hex_value(b[i + 1]), hex_value(b[i + 2])) {
                (Some(h), Some(l)) => match percent_decode_from(b, i + 3) {
                    Some(rest) => Some(seq![(h * 16 + l) as u8] + rest),
                    None => None,
                },
                _ => None,
            }
        }
    } else {
        match percent_decode_from(b, i + 1) {
            Some(rest) => Some(seq![b[i]] + rest),
            None => None,
        }
    }
}

/// The text a percent-encoded text stands for, when it is well formed and decodes to UTF-8.
pub open spec fn decode_percent_spec(s: Seq<char>) -> Option<Seq<char>> {
    match percent_decode_from(vstd::utf8::encode_utf8(s), 0) {
        Some(bytes) => if vstd::utf8::valid_utf8(bytes) { Some(vstd::utf8::decode_utf8(bytes)) } else { None },
        None => None,
    }
}

pub fn decode_percent_encoded(value: &str) -> (r: Option<String>)
    ensures
        opt_text(r) == decode_percent_spec(value@),
{
    let bytes = value.as_bytes();
    let mut decoded: Vec<u8> = Vec::new();
    let mut index: usize = 0;
    while index < bytes.len()
        invariant
            index <= bytes@.len(),
            bytes@ == vstd::utf8::encode_utf8(value@),
            percent_decode_from(bytes@, 0) == match percent_decode_from(bytes@, index as int) {
                Some(rest) => Some(decoded@ + rest),
                None => None,
            },
        decreases bytes@.len() - index,
    {
        if bytes[index] == 37 {
            if bytes.len() - index <= 2 {
                return None;
            }
            let high = match decode_hex_digit(bytes[index + 1]) {
                Some(h) => h,
                None => { return None; },
            };
            let low = match decode_hex_digit(bytes[index + 2]) {
                Some(l) => l,
                None => { return None; },
            };
            let byte = high * 16 + low;
            proof {
                let next = percent_decode_from(bytes@, index + 3);
                if next is Some {
                    assert(decoded@.push(byte) + next.unwrap() =~= decoded@ + (seq![byte] + next.unwrap()));
                }
            }
            decoded.push(byte);
            index = index + 3;
        } else {
            proof {
                let next = percent_decode_from(bytes@, index + 1);
                if next is Some {
                    assert(decoded@.push(bytes@[index as int]) + next.unwrap() =~= decoded@ + (seq![bytes@[index as int]] + next.unwrap()));
                }
            }
            decoded.push(bytes[index]);
            index = index + 1;
        }
    }
    assert(decoded@ + Seq::<u8>::empty() =~= decoded@);
    string_from_utf8(decoded)
}

/// Characters that cannot stand in a file name on common file systems.
pub open spec fn forbidden_char(c: char) -> bool {
    c == '<' || c == '>' || c == ':' || c == '"' || c == '/' || c == '\\' || c == '|' || c == '?' || c == '*'
}

/// Unicode control characters (general category Cc), as `char::is_control` tests.
pub open spec fn control_char(c: char) -> bool {
    let u = c as u32;
    u <= 0x1F || (0x7F <= u <= 0x9F)
}

/// Zero-width and bidirectional formatting characters, which are dropped.
pub open spec fn invisible_char(c: char) -> bool {
    let u = c as u32;
    (0x200B <= u <= 0x200F) || (0x202A <= u <= 0x202E) || (0x2060 <= u <= 0x2064) || u == 0xFEFF
}

/// Forbidden and control characters replaced by `_`, invisible ones dropped.
pub open spec fn sanitize_chars(s: Seq<char>) -> Seq<char>
    decreases s.len(),
{
    if s.len() == 0 {
        s
    } else {
        let rest = sanitize_chars(s.drop_last());
        let c = s.last();
        if forbidden_char(c) || control_char(c) {
            rest.push('_')
        } else if invisible_char(c) {
            rest
        } else {
            rest.push(c)
        }
    }
}

/// Runs of spaces collapsed to one space.
pub open spec fn collapse_spaces_spec(s: Seq<char>) -> Seq<char>
    decreases s.len(),
{
    if s.len() == 0 {
        s
    } else {
        let rest = collapse_spaces_spec(s.drop_last());
        if s.last() == ' ' && s.len() >= 2 && s[s.len() - 2] == ' ' { rest } else { rest.push(s.last()) }
    }
}

fn map_name_chars(s: &[char]) -> (r: Vec<char>)
    ensures
        r@ == sanitize_chars(s@),
{
    let mut out: Vec<char> = Vec::new();
    let mut i: usize = 0;
    while i < s.len()
        invariant
            i <= s@.len(),
            out@ == sanitize_chars(s@.take(i as int)),
        decreases s@.len() - i,
    {
        let c = s[i];
        assert(s@.take(i + 1).drop_last() =~= s@.take(i as int));
        let u = c as u32;
        if c == '<' || c == '>' || c == ':' || c == '"' || c == '/' || c == '\\' || c == '|' || c == '?' || c == '*'
            || u <= 0x1F || (0x7F <= u && u <= 0x9F) {
            out.push('_');
        } else if (0x200B <= u && u <= 0x200F) || (0x202A <= u && u <= 0x202E) || (0x2060 <= u && u <= 0x2064) || u == 0xFEFF {
        } else {
            out.push(c);
        }
        i = i + 1;
    }
    assert(s@.take(s@.len() as int) =~= s@);
    out
}

fn collapse_spaces(s: &[char]) -> (r: Vec<char>)
    ensures
        r@ == collapse_spaces_spec(s@),
{
    let mut out: Vec<char> = Vec::new();
    let mut prev_space = false;
    let mut i: usize = 0;
    while i < s.len()
        invariant
            i <= s@.len(),
            out@ == collapse_spaces_spec(s@.take(i as int)),
            prev_space == (i > 0 && s@[i - 1] == ' '),
        decreases s@.len() - i,
    {
        let c = s[i];
        assert(s@.take(i + 1).drop_last() =~= s@.take(i as int));
        if c == ' ' {
            if !prev_space {
                out.push(c);
            }
            prev_space = true;
        } else {
            prev_space = false;
            out.push(c);
        }
        i = i + 1;
    }
    assert(s@.take(s@.len() as int) =~= s@);
    out
}

pub open spec fn is_path_sep(c: char) -> bool {
    c == '/' || c == '\\'
}

/// Scanning `t[..n]` from the right for the last segment between separators whose trimmed
/// text is not empty; `end` is where the segment under the scan ends.
pub open spec fn segment_scan(t: Seq<char>, n: int, end: int) -> Option<(int, int)>
    decreases n,
{
    if n <= 0 {
        if trim_ws(t.subrange(0, end)).len() > 0 { Some((0, end)) } else { None }
    } else if is_path_sep(t[n - 1]) {
        if trim_ws(t.subrange(n, end)).len() > 0 { Some((n, end)) } else { segment_scan(t, n - 1, n - 1) }
    } else {
        segment_scan(t, n - 1, end)
    }
}

fn last_nonblank_segment(t: &[char]) -> (r: Option<(usize, usize)>)
    ensures
        match r {
            Some((a, b)) => segment_scan(t@, t@.len() as int, t@.len() as int) == Some((a as int, b as int)) && a <= b <= t@.len(),
            None => segment_scan(t@, t@.len() as int, t@.len() as int) is None,
        },
{
    let mut n: usize = t.len();
    let mut end: usize = t.len();
    while n > 0
        invariant
            n <= end <= t@.len(),
            segment_scan(t@, t@.len() as int, t@.len() as int) == segment_scan(t@, n as int, end as int),
        decreases n,
    {
        if t[n - 1] == '/' || t[n - 1] == '\\' {
            let seg = slice_chars(t, n, end);
            let trimmed = trim_chars(seg.as_slice(), TrimClass::WhiteSpace);
            if trimmed.len() > 0 {
                return Some((n, end));
            }
            n = n - 1;
            end = n;
        } else {
            n = n - 1;
        }
    }
    let seg = slice_chars(t, 0, end);
    let trimmed = trim_chars(seg.as_slice(), TrimClass::WhiteSpace);
    if trimmed.len() > 0 { Some((0, end)) } else { None }
}

/// Reserved device names of Windows, in lower case.
pub open spec fn reserved_stem(stem: Seq<char>) -> bool {
    let l = lower_chars(stem);
    l == "con"@ || l == "prn"@ || l == "aux"@ || l == "nul"@ || l == "com1"@ || l == "com2"@ || l == "com3"@
        || l == "com4"@ || l == "com5"@ || l == "com6"@ || l == "com7"@ || l == "com8"@ || l == "com9"@
        || l == "lpt1"@ || l == "lpt2"@ || l == "lpt3"@ || l == "lpt4"@ || l == "lpt5"@ || l == "lpt6"@
        || l == "lpt7"@ || l == "lpt8"@ || l == "lpt9"@
}

/// A name whose stem is a reserved device name gets a leading `_`.
pub open spec fn guard_reserved_spec(s: Seq<char>) -> Seq<char> {
    if reserved_stem(before_first(s, '.')) { seq!['_'] + s } else { s }
}

fn is_reserved_stem(stem: &[char]) -> (r: bool)
    ensures
        r == reserved_stem(stem@),
{
    lower_equals(stem, "con") || lower_equals(stem, "prn") || lower_equals(stem, "aux") || lower_equals(stem, "nul")
        || lower_equals(stem, "com1") || lower_equals(stem, "com2") || lower_equals(stem, "com3")
        || lower_equals(stem, "com4") || lower_equals(stem, "com5") || lower_equals(stem, "com6")
        || lower_equals(stem, "com7") || lower_equals(stem, "com8") || lower_equals(stem, "com9")
        || lower_equals(stem, "lpt1") || lower_equals(stem, "lpt2") || lower_equals(stem, "lpt3")
        || lower_equals(stem, "lpt4") || lower_equals(stem, "lpt5") || lower_equals(stem, "lpt6")
        || lower_equals(stem, "lpt7") || lower_equals(stem, "lpt8") || lower_equals(stem, "lpt9")
}

pub fn guard_windows_reserved(s: &[char]) -> (r: Vec<char>)
    ensures
        r@ == guard_reserved_spec(s@),
{
    let stem = prefix_before(s, '.');
    if is_reserved_stem(stem.as_slice()) {
        let under = vec!['_'];
        concat_chars(under.as_slice(), s)
    } else {
        slice_chars(s, 0, s.len())
    }
}

/// A name cut to at most `max` characters, keeping its extension when it has one.
pub open spec fn enforce_length_spec(s: Seq<char>, max: int) -> Seq<char> {
    if s.len() <= max {
        s
    } else {
        match last_index(s, '.') {
            Some(p) => {
                let stem = s.take(p);
                let ext = s.subrange(p + 1, s.len() as int);
                let budget = if max - (ext.len() + 1) > 0 { max - (ext.len() + 1) } else { 0 };
                stem.take(if budget < stem.len() { budget } else { stem.len() as int }) + seq!['.'] + ext
            },
            None => s.take(max),
        }
    }
}

pub fn enforce_filename_length(s: &[char], max_chars: usize) -> (r: Vec<char>)
    ensures
        r@ == enforce_length_spec(s@, max_chars as int),
{
    if s.len() <= max_chars {
        return slice_chars(s, 0, s.len());
    }
    match rfind_char(s, '.') {
        Some(p) => {
            proof { lemma_last_index_bounds(s@, '.', s@.len() as int); }
            let ext_len = s.len() - (p + 1);
            let budget: usize = if max_chars > ext_len + 1 { max_chars - (ext_len + 1) } else { 0 };
            let keep: usize = if budget < p { budget } else { p };
            let head = slice_chars(s, 0, keep);
            let tail = slice_chars(s, p, s.len());
            let r = concat_chars(head.as_slice(), tail.as_slice());
            assert(r@ =~= s@.take(p as int).take(keep as int) + seq!['.'] + s@.subrange(p + 1, s@.len() as int));
            r
        },
        None => slice_chars(s, 0, max_chars),
    }
}

/// The file name a raw name stands for: percent-decoded when it decodes, the last non-blank
/// path segment, forbidden characters replaced, invisible ones dropped, spaces collapsed,
/// spaces and dots trimmed, reserved device names guarded, and the length bounded; `None`
/// when nothing is left.
pub open spec fn sanitize_leaf_spec(value: Seq<char>) -> Option<Seq<char>> {
    let decoded = if value.contains('%') { decode_percent_spec(value) } else { None };
    let src = match decoded { Some(d) => d, None => value };
    let t = trim_ws(src);
    let leaf = trim_ws(match segment_scan(t, t.len() as int, t.len() as int) {
        Some((a, b)) => t.subrange(a, b),
        None => src,
    });
    if leaf.len() == 0 {
        None
    } else {
        let s1 = trim_by(collapse_spaces_spec(sanitize_chars(leaf)), TrimClass::SpaceOrDot);
        if s1.len() == 0 {
            None
        } else {
            let s2 = enforce_length_spec(guard_reserved_spec(s1), MAX_FILENAME_CHARS as int);
            if s2.len() == 0 { None } else { Some(s2) }
        }
    }
}

pub fn sanitize_filename_leaf(value: &str) -> (r: Option<String>)
    ensures
        opt_text(r) == sanitize_leaf_spec(value@),
{
    let value_chars = chars_of(value);
    let decoded = if contains_char(value_chars.as_slice(), '%') { decode_percent_encoded(value) } else { None };
    let src: Vec<char> = match &decoded {
        Some(d) => chars_of(d.as_str()),
        None => value_chars,
    };
    let t = trim_chars(src.as_slice(), TrimClass::WhiteSpace);
    let segment: Vec<char> = match last_nonblank_segment(t.as_slice()) {
        Some((a, b)) => slice_chars(t.as_slice(), a, b),
        None => slice_chars(src.as_slice(), 0, src.len()),
    };
    proof {
        assert(src@.subrange(0, src@.len() as int) =~= src@);
    }
    let leaf = trim_chars(segment.as_slice(), TrimClass::WhiteSpace);
    if leaf.len() == 0 {
        return None;
    }
    let mapped = map_name_chars(leaf.as_slice());
    let collapsed = collapse_spaces(mapped.as_slice());
    let s1 = trim_chars(collapsed.as_slice(), TrimClass::SpaceOrDot);
    if s1.len() == 0 {
        return None;
    }
    let guarded = guard_windows_reserved(s1.as_slice());
    let s2 = enforce_filename_length(guarded.as_slice(), MAX_FILENAME_CHARS);
    if s2.len() == 0 {
        return None;
    }
    Some(string_from_chars(s2.as_slice()))
}

/// A displayable file name from a hint: its sanitized form, else its percent-decoded form,
/// else the hint itself.
pub open spec fn normalize_hint_spec(value: Seq<char>) -> Seq<char> {
    match sanitize_leaf_spec(value) {
        Some(s) => s,
        None => match decode_percent_spec(value) {
            Some(d) => d,
            None => value,
        },
    }
}

pub fn normalize_filename_hint(value: &str) -> (r: String)
    ensures
        r@ == normalize_hint_spec(value@),
{
    match sanitize_filename_leaf(value) {
        Some(s) => s,
        None => match decode_percent_encoded(value) {
            Some(d) => d,
            None => value.to_owned(),
        },
    }
}

} // verus!
