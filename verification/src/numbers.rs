//! Decimal integers read from text as `str::parse::<i64>` and `str::parse::<usize>` read them.

use vstd::prelude::*;

verus! {

pub open spec fn is_digit(c: char) -> bool {
    '0' <= c && c <= '9'
}

pub open spec fn all_digits(s: Seq<char>) -> bool {
    forall|i: int| 0 <= i < s.len() ==> is_digit(#[trigger] s[i])
}

/// The value of a run of decimal digits.
pub open spec fn digits_value(s: Seq<char>) -> int
    decreases s.len(),
{
    if s.len() == 0 { 0 } else { digits_value(s.drop_last()) * 10 + (s.last() as int - 48) }
}

/// A signed decimal integer: an optional `+` or `-`, then one or more digits, its value in
/// range of `i64`.
pub open spec fn parse_i64_spec(s: Seq<char>) -> Option<i64> {
    let neg = s.len() > 0 && s[0] == '-';
    let ds = if s.len() > 0 && (s[0] == '-' || s[0] == '+') { s.drop_first() } else { s };
    if ds.len() == 0 || !all_digits(ds) {
        None
    } else {
        let v = if neg { -digits_value(ds) } else { digits_value(ds) };
        if i64::MIN <= v <= i64::MAX { Some(v as i64) } else { None }
    }
}

/// An unsigned decimal integer: an optional `+`, then one or more digits, its value in
/// range of `usize`.
pub open spec fn parse_usize_spec(s: Seq<char>) -> Option<usize> {
    let ds = if s.len() > 0 && s[0] == '+' { s.drop_first() } else { s };
    if ds.len() == 0 || !all_digits(ds) {
        None
    } else {
        let v = digits_value(ds);
        if v <= usize::MAX { Some(v as usize) } else { None }
    }
}

proof fn lemma_digits_grow(s: Seq<char>, k: int)
    requires
        0 <= k <= s.len(),
        all_digits(s),
    ensures
        0 <= digits_value(s.take(k)) <= digits_value(s),
    decreases s.len() - k,
{
    if k < s.len() {
        lemma_digits_grow(s, k + 1);
        let t = s.take(k + 1);
        assert(t.drop_last() =~= s.take(k));
        assert(is_digit(s[k]));
        assert(digits_value(s.take(k + 1)) == digits_value(s.take(k)) * 10 + (s[k] as int - 48));
    } else {
        assert(s.take(k) =~= s);
        lemma_digits_nonneg(s);
    }
}

proof fn lemma_digits_nonneg(s: Seq<char>)
    requires
        all_digits(s),
    ensures
        digits_value(s) >= 0,
    decreases s.len(),
{
    if s.len() > 0 {
        assert(is_digit(s[s.len() - 1]));
        lemma_digits_nonneg(s.drop_last());
    }
}

/// Reads the digits `ds` as long as the value stays at most `bound`.
fn digits_up_to(ds: &[char], bound: u128) -> (r: Option<u128>)
    requires
        bound <= 18446744073709551616,
    ensures
        match r {
            Some(v) => all_digits(ds@) && v == digits_value(ds@) && v <= bound,
            None => !all_digits(ds@) || digits_value(ds@) > bound,
        },
{
    let mut acc: u128 = 0;
    let mut i: usize = 0;
    while i < ds.len()
        invariant
            i <= ds@.len(),
            bound <= 18446744073709551616,
            all_digits(ds@.take(i as int)),
            acc == digits_value(ds@.take(i as int)),
            acc <= bound,
        decreases ds@.len() - i,
    {
        let c = ds[i];
        proof {
            let t = ds@.take(i + 1);
            assert(t.drop_last() =~= ds@.take(i as int));
            assert(t.last() == c);
        }
        if !('0' <= c && c <= '9') {
            proof {
                if all_digits(ds@) { assert(is_digit(ds@[i as int])); }
            }
            return None;
        }
        let d = (c as u32 - 48) as u128;
        let next = acc * 10 + d;
        if next > bound {
            proof {
                if all_digits(ds@) {
                    lemma_digits_grow(ds@, i + 1);
                }
            }
            return None;
        }
        acc = next;
        i = i + 1;
        proof {
            assert forall|j: int| 0 <= j < i implies is_digit(#[trigger] ds@.take(i as int)[j]) by {
                if j < i - 1 { assert(ds@.take(i as int)[j] == ds@.take(i - 1)[j]); }
            }
        }
    }
    assert(ds@.take(ds@.len() as int) =~= ds@);
    Some(acc)
}

/// `str::parse::<i64>`.
pub fn parse_i64(s: &str) -> (r: Option<i64>)
    ensures
        r == parse_i64_spec(s@),
{
    let cs = crate::text::chars_of(s);
    let neg = cs.len() > 0 && cs[0] == '-';
    let signed = cs.len() > 0 && (cs[0] == '-' || cs[0] == '+');
    let ds: Vec<char> = if signed { crate::chars::slice_chars(cs.as_slice(), 1, cs.len()) } else { cs };
    proof {
        if signed { assert(ds@ =~= s@.drop_first()); } else { assert(ds@ =~= s@); }
    }
    if ds.len() == 0 {
        return None;
    }
    let bound: u128 = if neg { 9223372036854775808 } else { 9223372036854775807 };
    match digits_up_to(ds.as_slice(), bound) {
        Some(v) => {
            if neg {
                if v == 9223372036854775808 { Some(i64::MIN) } else { Some(-(v as i64)) }
            } else {
                Some(v as i64)
            }
        },
        None => None,
    }
}

/// `str::parse::<usize>`.
pub fn parse_usize(s: &str) -> (r: Option<usize>)
    ensures
        r == parse_usize_spec(s@),
{
    let cs = crate::text::chars_of(s);
    let signed = cs.len() > 0 && cs[0] == '+';
    let ds: Vec<char> = if signed { crate::chars::slice_chars(cs.as_slice(), 1, cs.len()) } else { cs };
    proof {
        if signed { assert(ds@ =~= s@.drop_first()); } else { assert(ds@ =~= s@); }
    }
    if ds.len() == 0 {
        return None;
    }
    match digits_up_to(ds.as_slice(), usize::MAX as u128) {
        Some(v) => Some(v as usize),
        None => None,
    }
}

} // verus!
