//! Byte-level text helpers: equality, ASCII case folding and substring search.

use vstd::prelude::*;
use vstd::string::StringSliceAdditionalSpecFns;

verus! {

/// The byte `b` with ASCII upper-case letters folded to lower case.
pub open spec fn lower_byte(b: u8) -> u8 {
    if 65 <= b <= 90 { (b + 32) as u8 } else { b }
}

/// A byte sequence with ASCII letters folded to lower case.
pub open spec fn lower_seq(s: Seq<u8>) -> Seq<u8> {
    Seq::new(s.len(), |i: int| lower_byte(s[i]))
}

/// `needle` occurs in `haystack` at `start`, ignoring ASCII case.
pub open spec fn occurs_ci_at(haystack: Seq<u8>, needle: Seq<u8>, start: int) -> bool {
    &&& 0 <= start
    &&& start + needle.len() <= haystack.len()
    &&& lower_seq(haystack.subrange(start, start + needle.len())) == lower_seq(needle)
}

/// `needle` occurs anywhere in `haystack`, ignoring ASCII case.
pub open spec fn contains_ci(haystack: Seq<u8>, needle: Seq<u8>) -> bool {
    exists|start: int| occurs_ci_at(haystack, needle, start)
}

/// `haystack` begins with `prefix`, ignoring ASCII case.
pub open spec fn starts_with_ci(haystack: Seq<u8>, prefix: Seq<u8>) -> bool {
    occurs_ci_at(haystack, prefix, 0)
}

pub fn to_lower_byte(b: u8) -> (r: u8)
    ensures
        r == lower_byte(b),
{
    if 65 <= b && b <= 90 { b + 32 } else { b }
}

/// Whether two byte slices are equal.
pub fn bytes_equal(a: &[u8], b: &[u8]) -> (r: bool)
    ensures
        r == (a@ == b@),
{
    if a.len() != b.len() {
        return false;
    }
    let mut i: usize = 0;
    while i < a.len()
        invariant
            a@.len() == b@.len(),
            i <= a@.len(),
            forall|j: int| 0 <= j < i ==> a@[j] == b@[j],
        decreases a@.len() - i,
    {
        if a[i] != b[i] {
            return false;
        }
        i = i + 1;
    }
    assert(a@ =~= b@);
    true
}

/// Whether two byte slices are equal ignoring ASCII case.
pub fn bytes_equal_ci(a: &[u8], b: &[u8]) -> (r: bool)
    ensures
        r == (lower_seq(a@) == lower_seq(b@)),
{
    if a.len() != b.len() {
        proof {
            if lower_seq(a@) == lower_seq(b@) {
                assert(lower_seq(a@).len() == a@.len());
            }
        }
        return false;
    }
    let mut i: usize = 0;
    while i < a.len()
        invariant
            a@.len() == b@.len(),
            i <= a@.len(),
            forall|j: int| 0 <= j < i ==> lower_byte(a@[j]) == lower_byte(b@[j]),
        decreases a@.len() - i,
    {
        if to_lower_byte(a[i]) != to_lower_byte(b[i]) {
            proof {
                if lower_seq(a@) == lower_seq(b@) {
                    assert(lower_seq(a@)[i as int] == lower_seq(b@)[i as int]);
                }
            }
            return false;
        }
        i = i + 1;
    }
    assert(lower_seq(a@) =~= lower_seq(b@));
    true
}

/// Equal byte encodings mean equal strings.
pub proof fn lemma_bytes_determine_str(a: Seq<char>, b: Seq<char>)
    requires
        vstd::utf8::encode_utf8(a) == vstd::utf8::encode_utf8(b),
    ensures
        a == b,
{
    vstd::utf8::encode_utf8_decode_utf8(a);
    vstd::utf8::encode_utf8_decode_utf8(b);
}

/// Whether two strings are equal.
pub fn str_equal(a: &str, b: &str) -> (r: bool)
    ensures
        r == (a@ == b@),
{
    let r = bytes_equal(a.as_bytes(), b.as_bytes());
    proof {
        if r {
            lemma_bytes_determine_str(a@, b@);
        }
    }
    r
}

/// Whether `needle` occurs in `haystack` at `start`, ignoring ASCII case.
pub fn matches_ci_at(haystack: &[u8], needle: &[u8], start: usize) -> (r: bool)
    requires
        start + needle@.len() <= haystack@.len(),
    ensures
        r == occurs_ci_at(haystack@, needle@, start as int),
{
    let mut i: usize = 0;
    let hl = haystack.len();
    while i < needle.len()
        invariant
            hl == haystack@.len(),
            start + needle@.len() <= haystack@.len(),
            i <= needle@.len(),
            forall|j: int| 0 <= j < i ==> lower_byte(haystack@[start + j]) == lower_byte(needle@[j]),
        decreases needle@.len() - i,
    {
        assert(start + i < haystack@.len());
        if to_lower_byte(haystack[start + i]) != to_lower_byte(needle[i]) {
            proof {
                if occurs_ci_at(haystack@, needle@, start as int) {
                    let sub = haystack@.subrange(start as int, start + needle@.len());
                    assert(lower_seq(sub)[i as int] == lower_seq(needle@)[i as int]);
                }
            }
            return false;
        }
        i = i + 1;
    }
    assert(lower_seq(haystack@.subrange(start as int, start + needle@.len())) =~= lower_seq(needle@));
    true
}

/// Whether `needle` occurs in `haystack`, ignoring ASCII case.
pub fn find_ci(haystack: &[u8], needle: &[u8]) -> (r: bool)
    ensures
        r == contains_ci(haystack@, needle@),
{
    if needle.len() > haystack.len() {
        return false;
    }
    let last = haystack.len() - needle.len();
    let mut start: usize = 0;
    loop
        invariant
            last + needle@.len() == haystack@.len(),
            start <= last,
            forall|j: int| 0 <= j < start ==> !occurs_ci_at(haystack@, needle@, j),
        decreases last - start,
    {
        if matches_ci_at(haystack, needle, start) {
            return true;
        }
        if start == last {
            return false;
        }
        start = start + 1;
    }
}

/// Whether `haystack` begins with `prefix`, ignoring ASCII case.
pub fn starts_with_ci_bytes(haystack: &[u8], prefix: &[u8]) -> (r: bool)
    ensures
        r == starts_with_ci(haystack@, prefix@),
{
    if prefix.len() > haystack.len() {
        return false;
    }
    matches_ci_at(haystack, prefix, 0)
}

/// Whether a string contains `needle`, ignoring ASCII case.
pub fn str_contains_ci(haystack: &str, needle: &str) -> (r: bool)
    ensures
        r == contains_ci(haystack.spec_bytes(), needle.spec_bytes()),
{
    find_ci(haystack.as_bytes(), needle.as_bytes())
}

/// Whether a string begins with `prefix`, ignoring ASCII case.
pub fn str_starts_with_ci(haystack: &str, prefix: &str) -> (r: bool)
    ensures
        r == starts_with_ci(haystack.spec_bytes(), prefix.spec_bytes()),
{
    starts_with_ci_bytes(haystack.as_bytes(), prefix.as_bytes())
}

/// Whether two strings are equal ignoring ASCII case.
pub fn str_eq_ci(a: &str, b: &str) -> (r: bool)
    ensures
        r == (lower_seq(a.spec_bytes()) == lower_seq(b.spec_bytes())),
{
    bytes_equal_ci(a.as_bytes(), b.as_bytes())
}

/// ASCII whitespace as `u8::is_ascii_whitespace` counts it.
pub open spec fn is_ascii_space(b: u8) -> bool {
    b == 32 || b == 9 || b == 10 || b == 12 || b == 13
}

/// Index of the first byte that is not ASCII whitespace (the length if there is none).
pub open spec fn trim_start_index(s: Seq<u8>) -> int
    decreases s.len(),
{
    if s.len() == 0 || !is_ascii_space(s[0]) { 0 } else { 1 + trim_start_index(s.drop_first()) }
}

/// Index one past the last byte that is not ASCII whitespace (0 if there is none).
pub open spec fn trim_end_index(s: Seq<u8>) -> int
    decreases s.len(),
{
    if s.len() == 0 || !is_ascii_space(s.last()) { s.len() as int } else { trim_end_index(s.drop_last()) }
}

/// Whether a string is empty once ASCII whitespace around it is ignored.
pub open spec fn is_blank(s: Seq<u8>) -> bool {
    forall|i: int| 0 <= i < s.len() ==> is_ascii_space(s[i])
}

pub fn str_is_blank(s: &str) -> (r: bool)
    ensures
        r == is_blank(s.spec_bytes()),
{
    let b = s.as_bytes();
    assert(b@ == s.spec_bytes());
    let mut i: usize = 0;
    while i < b.len()
        invariant
            b@ == s.spec_bytes(),
            i <= b@.len(),
            forall|j: int| 0 <= j < i ==> is_ascii_space(b@[j]),
        decreases b@.len() - i,
    {
        let c = b[i];
        if !(c == 32 || c == 9 || c == 10 || c == 12 || c == 13) {
            assert(!is_ascii_space(b@[i as int]));
            assert(!is_blank(b@));
            return false;
        }
        i = i + 1;
    }
    true
}


/// The decimal digits of `v`, most significant first.
pub open spec fn decimal_spec(v: nat) -> Seq<char>
    decreases v,
{
    if v < 10 {
        seq![digit_char(v)]
    } else {
        decimal_spec(v / 10).push(digit_char(v % 10))
    }
}

pub open spec fn digit_char(d: nat) -> char {
    if d == 0 { '0' } else if d == 1 { '1' } else if d == 2 { '2' } else if d == 3 { '3' } else if d == 4 { '4' }
    else if d == 5 { '5' } else if d == 6 { '6' } else if d == 7 { '7' } else if d == 8 { '8' } else { '9' }
}

fn push_digit(s: &mut String, d: u64)
    requires
        d < 10,
    ensures
        final(s)@ == old(s)@.push(digit_char(d as nat)),
{
    let lit = if d == 0 { "0" } else if d == 1 { "1" } else if d == 2 { "2" } else if d == 3 { "3" } else if d == 4 { "4" }
        else if d == 5 { "5" } else if d == 6 { "6" } else if d == 7 { "7" } else if d == 8 { "8" } else { "9" };
    proof {
        reveal_strlit("0"); reveal_strlit("1"); reveal_strlit("2"); reveal_strlit("3"); reveal_strlit("4");
        reveal_strlit("5"); reveal_strlit("6"); reveal_strlit("7"); reveal_strlit("8"); reveal_strlit("9");
    }
    s.append(lit);
    assert(final(s)@ =~= old(s)@.push(digit_char(d as nat))) by {
        assert(lit@ =~= seq![digit_char(d as nat)]);
    }
}

fn append_decimal(s: &mut String, v: u64)
    ensures
        final(s)@ == old(s)@ + decimal_spec(v as nat),
    decreases v,
{
    if v < 10 {
        push_digit(s, v);
        assert(old(s)@.push(digit_char(v as nat)) =~= old(s)@ + decimal_spec(v as nat));
    } else {
        append_decimal(s, v / 10);
        push_digit(s, v % 10);
        assert(old(s)@ + decimal_spec((v / 10) as nat) + seq![digit_char((v % 10) as nat)] =~= old(s)@ + decimal_spec(v as nat));
    }
}

/// The decimal text of `v`.
pub fn decimal_string(v: u64) -> (r: String)
    ensures
        r@ == decimal_spec(v as nat),
{
    let mut s = String::new();
    append_decimal(&mut s, v);
    assert(Seq::<char>::empty() + decimal_spec(v as nat) =~= decimal_spec(v as nat));
    s
}

/// Appends `v` in decimal to `s`.
pub fn push_decimal(s: &mut String, v: u64)
    ensures
        final(s)@ == old(s)@ + decimal_spec(v as nat),
{
    append_decimal(s, v);
}

/// The characters of `s`, in order.
pub fn chars_of(s: &str) -> (r: Vec<char>)
    ensures
        r@ == s@,
{
    let mut out: Vec<char> = Vec::new();
    broadcast use vstd::string::axiom_spec_iter;
    for c in it: s.chars()
        invariant
            out@ == it.seq().take(it.index() as int),
    {
        out.push(c);
    }
    assert(out@ =~= s@);
    out
}

} // verus!
