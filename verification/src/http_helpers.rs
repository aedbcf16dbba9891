//! Request shapes and response headers: which requests can be split into byte ranges, form
//! fields, and `Content-Range` values.

use vstd::prelude::*;
use crate::chars::{find_char, first_index, lemma_first_index_bounds, slice_chars, trim_chars, trim_ws, TrimClass};
use crate::model::{DownloadRequestField, DownloadRequestMethod};
use crate::text::chars_of;

verus! {

/// Only a plain GET without form fields can be replayed as byte-range requests.
pub open spec fn segmented_shape_spec(method: DownloadRequestMethod, field_count: int) -> bool {
    method == DownloadRequestMethod::Get && field_count == 0
}

pub fn request_context_supports_segmented_transfer(method: &DownloadRequestMethod, fields: &[DownloadRequestField]) -> (r: bool)
    ensures
        r == segmented_shape_spec(*method, fields@.len() as int),
{
    *method == DownloadRequestMethod::Get && fields.len() == 0
}

/// The fields with a name, their names trimmed.
pub open spec fn sanitized_fields_spec(fields: Seq<(Seq<char>, Seq<char>)>) -> Seq<(Seq<char>, Seq<char>)>
    decreases fields.len(),
{
    if fields.len() == 0 {
        fields
    } else {
        let prev = sanitized_fields_spec(fields.drop_last());
        let name = trim_ws(fields.last().0);
        if name.len() == 0 { prev } else { prev.push((name, fields.last().1)) }
    }
}

pub open spec fn fields_view(fields: Seq<DownloadRequestField>) -> Seq<(Seq<char>, Seq<char>)> {
    fields.map_values(|f: DownloadRequestField| (f.name@, f.value@))
}

pub fn sanitize_request_fields(fields: Vec<DownloadRequestField>) -> (r: Vec<DownloadRequestField>)
    ensures
        fields_view(r@) == sanitized_fields_spec(fields_view(fields@)),
{
    let ghost fv = fields_view(fields@);
    let mut out: Vec<DownloadRequestField> = Vec::new();
    let mut i: usize = 0;
    while i < fields.len()
        invariant
            i <= fields@.len(),
            fv == fields_view(fields@),
            fields_view(out@) == sanitized_fields_spec(fv.take(i as int)),
        decreases fields@.len() - i,
    {
        assert(fv.take(i + 1).drop_last() =~= fv.take(i as int));
        assert(fv.take(i + 1).last() == (fields@[i as int].name@, fields@[i as int].value@));
        let all = chars_of(fields[i].name.as_str());
        let name = trim_chars(all.as_slice(), TrimClass::WhiteSpace);
        if name.len() > 0 {
            let field = DownloadRequestField {
                name: crate::chars::string_from_chars(name.as_slice()),
                value: fields[i].value.clone(),
            };
            let ghost before = out@;
            out.push(field);
            assert(fields_view(out@) =~= fields_view(before).push((field.name@, field.value@)));
        }
        i = i + 1;
    }
    assert(fv.take(fv.len() as int) =~= fv);
    out
}

/// The value of a decimal digit character.
pub open spec fn digit_value(c: char) -> int {
    (c as u32) - 48
}

pub open spec fn is_digit(c: char) -> bool {
    '0' <= c <= '9'
}

/// The number written by the digits `s[..n]`.
pub open spec fn digits_value(s: Seq<char>, n: int) -> int
    decreases n,
{
    if n <= 0 { 0 } else { digits_value(s, n - 1) * 10 + digit_value(s[n - 1]) }
}

/// `u64::from_str`: an optional `+` and at least one decimal digit, at most `u64::MAX`.
pub open spec fn unsigned_digits(s: Seq<char>) -> Seq<char> {
    if s.len() > 0 && s[0] == '+' { s.drop_first() } else { s }
}

pub open spec fn parse_u64_spec(s: Seq<char>) -> Option<u64> {
    let digits = unsigned_digits(s);
    if digits.len() == 0 || !(forall|i: int| 0 <= i < digits.len() ==> is_digit(#[trigger] digits[i])) {
        None
    } else if digits_value(digits, digits.len() as int) > u64::MAX {
        None
    } else {
        Some(digits_value(digits, digits.len() as int) as u64)
    }
}

proof fn lemma_digits_value_monotone(s: Seq<char>, a: int, b: int)
    requires
        0 <= a <= b <= s.len(),
        forall|i: int| 0 <= i < s.len() ==> is_digit(#[trigger] s[i]),
    ensures
        0 <= digits_value(s, a) <= digits_value(s, b),
    decreases b - a,
{
    if a < b {
        lemma_digits_value_monotone(s, a, b - 1);
        assert(digits_value(s, b) == digits_value(s, b - 1) * 10 + digit_value(s[b - 1]));
    } else {
        lemma_digits_value_nonneg(s, a);
    }
}

proof fn lemma_digits_value_nonneg(s: Seq<char>, n: int)
    requires
        0 <= n <= s.len(),
        forall|i: int| 0 <= i < s.len() ==> is_digit(#[trigger] s[i]),
    ensures
        digits_value(s, n) >= 0,
    decreases n,
{
    if n > 0 {
        lemma_digits_value_nonneg(s, n - 1);
    }
}

pub fn parse_u64(s: &[char]) -> (r: Option<u64>)
    ensures
        r == parse_u64_spec(s@),
{
    let start: usize = if s.len() > 0 && s[0] == '+' { 1 } else { 0 };
    let ghost digits = unsigned_digits(s@);
    assert(digits =~= s@.subrange(start as int, s@.len() as int));
    if start == s.len() {
        return None;
    }
    let mut i: usize = start;
    while i < s.len()
        invariant
            start <= i <= s@.len(),
            digits =~= s@.subrange(start as int, s@.len() as int),
            digits == unsigned_digits(s@),
            forall|k: int| start <= k < i ==> is_digit(#[trigger] s@[k]),
        decreases s@.len() - i,
    {
        if !('0' <= s[i] && s[i] <= '9') {
            let k: Ghost<int> = Ghost(i - start);
            assert(digits[k@] == s@[i as int]);
            assert(!is_digit(digits[k@]));
            assert(!(forall|t: int| 0 <= t < digits.len() ==> is_digit(#[trigger] digits[t])));
            return None;
        }
        i = i + 1;
    }
    assert(forall|k: int| 0 <= k < digits.len() ==> is_digit(#[trigger] digits[k])) by {
        assert forall|k: int| 0 <= k < digits.len() implies is_digit(#[trigger] digits[k]) by {
            assert(digits[k] == s@[start + k]);
        }
    }
    let mut value: u64 = 0;
    let mut j: usize = start;
    while j < s.len()
        invariant
            start <= j <= s@.len(),
            digits =~= s@.subrange(start as int, s@.len() as int),
            digits == unsigned_digits(s@),
            digits.len() > 0,
            forall|k: int| 0 <= k < digits.len() ==> is_digit(#[trigger] digits[k]),
            value == digits_value(digits, j - start),
        decreases s@.len() - j,
    {
        assert(digits[j - start] == s@[j as int]);
        assert(is_digit(s@[j as int]));
        let d = (s[j] as u32 - 48) as u64;
        proof { lemma_digits_value_monotone(digits, j - start + 1, digits.len() as int); }
        if value > (u64::MAX - d) / 10 {
            assert(digits_value(digits, j - start + 1) > u64::MAX) by (nonlinear_arith)
                requires
                    value > (u64::MAX - d) / 10,
                    digits_value(digits, j - start + 1) == value * 10 + d,
                    d <= 9;
            return None;
        }
        assert(value * 10 + d <= u64::MAX) by (nonlinear_arith)
            requires value <= (u64::MAX - d) / 10, d <= 9;
        value = value * 10 + d;
        j = j + 1;
    }
    Some(value)
}

/// The `start-end/total` of a `Content-Range` value (an optional `bytes ` prefix; `*` for an
/// unknown total).
pub open spec fn content_range_spec(value: Option<Seq<char>>) -> Option<(u64, u64, Option<u64>)> {
    match value {
        None => None,
        Some(v) => {
            let raw = trim_ws(v);
            let range = if raw.len() >= 6 && raw.take(6) == "bytes "@ { raw.skip(6) } else { raw };
            match first_index(range, '/') {
                None => None,
                Some(slash) => {
                    let bounds = range.take(slash);
                    let total_text = trim_ws(range.skip(slash + 1));
                    match first_index(bounds, '-') {
                        None => None,
                        Some(dash) => {
                            let total = if total_text == "*"@ { Some(None) } else {
                                match parse_u64_spec(total_text) { Some(t) => Some(Some(t)), None => None }
                            };
                            match (total, parse_u64_spec(trim_ws(bounds.take(dash))), parse_u64_spec(trim_ws(bounds.skip(dash + 1)))) {
                                (Some(t), Some(a), Some(b)) => Some((a, b, t)),
                                _ => None,
                            }
                        },
                    }
                },
            }
        },
    }
}

pub fn parse_content_range_bounds(value: Option<&str>) -> (r: Option<(u64, u64, Option<u64>)>)
    ensures
        r == content_range_spec(crate::filename::opt_str_text(value)),
{
    proof { reveal_strlit("bytes "); reveal_strlit("*"); }
    let v = match value {
        Some(v) => v,
        None => { return None; },
    };
    let all = chars_of(v);
    let raw = trim_chars(all.as_slice(), TrimClass::WhiteSpace);
    let prefix = chars_of("bytes ");
    let has_prefix = raw.len() >= 6 && crate::chars::chars_equal(slice_chars(raw.as_slice(), 0, 6).as_slice(), prefix.as_slice());
    proof {
        if raw@.len() >= 6 {
            assert(raw@.subrange(0, 6) =~= raw@.take(6));
        }
    }
    let range = if has_prefix { slice_chars(raw.as_slice(), 6, raw.len()) } else { slice_chars(raw.as_slice(), 0, raw.len()) };
    proof {
        if has_prefix { assert(range@ =~= raw@.skip(6)); } else { assert(range@ =~= raw@); }
    }
    let slash = match find_char(range.as_slice(), '/') {
        Some(i) => i,
        None => { return None; },
    };
    proof { lemma_first_index_bounds(range@, '/', 0); }
    let bounds = slice_chars(range.as_slice(), 0, slash);
    let total_raw = slice_chars(range.as_slice(), slash + 1, range.len());
    assert(bounds@ =~= range@.take(slash as int));
    assert(total_raw@ =~= range@.skip(slash + 1));
    let total_text = trim_chars(total_raw.as_slice(), TrimClass::WhiteSpace);
    let dash = match find_char(bounds.as_slice(), '-') {
        Some(i) => i,
        None => { return None; },
    };
    proof { lemma_first_index_bounds(bounds@, '-', 0); }
    let star = chars_of("*");
    let total: Option<u64> = if crate::chars::chars_equal(total_text.as_slice(), star.as_slice()) {
        None
    } else {
        match parse_u64(total_text.as_slice()) {
            Some(t) => Some(t),
            None => { return None; },
        }
    };
    let start_raw = slice_chars(bounds.as_slice(), 0, dash);
    let end_raw = slice_chars(bounds.as_slice(), dash + 1, bounds.len());
    assert(start_raw@ =~= bounds@.take(dash as int));
    assert(end_raw@ =~= bounds@.skip(dash + 1));
    let start_t = trim_chars(start_raw.as_slice(), TrimClass::WhiteSpace);
    let end_t = trim_chars(end_raw.as_slice(), TrimClass::WhiteSpace);
    let start = match parse_u64(start_t.as_slice()) {
        Some(a) => a,
        None => { return None; },
    };
    let end = match parse_u64(end_t.as_slice()) {
        Some(b) => b,
        None => { return None; },
    };
    Some((start, end, total))
}

} // verus!
