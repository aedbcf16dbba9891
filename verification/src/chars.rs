//! Character-level text operations: Unicode whitespace, trimming, ASCII case folding and
//! searching, over sequences of `char`.

use vstd::prelude::*;

verus! {

/// The Unicode `White_Space` property, which `char::is_whitespace` and `str::trim` use.
pub open spec fn is_white_space(c: char) -> bool {
    let u = c as u32;
    (0x9 <= u <= 0xD) || u == 0x20 || u == 0x85 || u == 0xA0 || u == 0x1680 || (0x2000 <= u <= 0x200A)
        || u == 0x2028 || u == 0x2029 || u == 0x202F || u == 0x205F || u == 0x3000
}

/// Which characters a trim removes.
#[derive(Clone, Copy, Debug, PartialEq, Eq, Structural)]
pub enum TrimClass {
    WhiteSpace,
    SpaceOrDot,
    Dot,
    QuoteOrSpace,
    Slash,
}

pub open spec fn trimmed_char(c: char, class: TrimClass) -> bool {
    match class {
        TrimClass::WhiteSpace => is_white_space(c),
        TrimClass::SpaceOrDot => c == ' ' || c == '.',
        TrimClass::Dot => c == '.',
        TrimClass::QuoteOrSpace => c == '"' || c == '\'' || c == ' ',
        TrimClass::Slash => c == '/',
    }
}

pub fn is_trimmed_char(c: char, class: TrimClass) -> (r: bool)
    ensures
        r == trimmed_char(c, class),
{
    match class {
        TrimClass::WhiteSpace => {
            let u = c as u32;
            (0x9 <= u && u <= 0xD) || u == 0x20 || u == 0x85 || u == 0xA0 || u == 0x1680 || (0x2000 <= u && u <= 0x200A)
                || u == 0x2028 || u == 0x2029 || u == 0x202F || u == 0x205F || u == 0x3000
        },
        TrimClass::SpaceOrDot => c == ' ' || c == '.',
        TrimClass::Dot => c == '.',
        TrimClass::QuoteOrSpace => c == '"' || c == '\'' || c == ' ',
        TrimClass::Slash => c == '/',
    }
}

/// `s` without its leading characters of the class.
pub open spec fn trim_start_by(s: Seq<char>, class: TrimClass) -> Seq<char>
    decreases s.len(),
{
    if s.len() > 0 && trimmed_char(s[0], class) { trim_start_by(s.drop_first(), class) } else { s }
}

/// `s` without its trailing characters of the class.
pub open spec fn trim_end_by(s: Seq<char>, class: TrimClass) -> Seq<char>
    decreases s.len(),
{
    if s.len() > 0 && trimmed_char(s.last(), class) { trim_end_by(s.drop_last(), class) } else { s }
}

/// `s` without leading and trailing characters of the class.
pub open spec fn trim_by(s: Seq<char>, class: TrimClass) -> Seq<char> {
    trim_end_by(trim_start_by(s, class), class)
}

/// `str::trim`.
pub open spec fn trim_ws(s: Seq<char>) -> Seq<char> {
    trim_by(s, TrimClass::WhiteSpace)
}

/// Bounds `[a, b)` of `s` without leading and trailing characters of the class.
pub fn trim_bounds(s: &[char], class: TrimClass) -> (r: (usize, usize))
    ensures
        r.0 <= r.1 <= s@.len(),
        s@.subrange(r.0 as int, r.1 as int) == trim_by(s@, class),
        trim_start_by(s@, class) == s@.subrange(r.0 as int, s@.len() as int),
{
    let mut a: usize = 0;
    assert(s@.subrange(0, s@.len() as int) =~= s@);
    while a < s.len() && is_trimmed_char(s[a], class)
        invariant
            a <= s@.len(),
            trim_start_by(s@, class) == trim_start_by(s@.subrange(a as int, s@.len() as int), class),
        decreases s@.len() - a,
    {
        assert(s@.subrange(a as int, s@.len() as int).drop_first() =~= s@.subrange(a + 1, s@.len() as int));
        a = a + 1;
    }
    proof {
        let rest = s@.subrange(a as int, s@.len() as int);
        if rest.len() > 0 {
            assert(rest[0] == s@[a as int]);
        }
    }
    let mut b: usize = s.len();
    while b > a && is_trimmed_char(s[b - 1], class)
        invariant
            a <= b <= s@.len(),
            trim_by(s@, class) == trim_end_by(s@.subrange(a as int, b as int), class),
        decreases b,
    {
        assert(s@.subrange(a as int, b as int).drop_last() =~= s@.subrange(a as int, b - 1));
        b = b - 1;
    }
    proof {
        let mid = s@.subrange(a as int, b as int);
        if mid.len() > 0 {
            assert(mid.last() == s@[b - 1]);
        }
    }
    (a, b)
}

/// The characters of `s` in `[a, b)`.
pub fn slice_chars(s: &[char], a: usize, b: usize) -> (r: Vec<char>)
    requires
        a <= b <= s@.len(),
    ensures
        r@ == s@.subrange(a as int, b as int),
{
    let mut out: Vec<char> = Vec::new();
    let mut i = a;
    while i < b
        invariant
            a <= i <= b <= s@.len(),
            out@ == s@.subrange(a as int, i as int),
        decreases b - i,
    {
        out.push(s[i]);
        assert(out@ =~= s@.subrange(a as int, i + 1));
        i = i + 1;
    }
    out
}

/// `s` trimmed of the class at both ends.
pub fn trim_chars(s: &[char], class: TrimClass) -> (r: Vec<char>)
    ensures
        r@ == trim_by(s@, class),
{
    let (a, b) = trim_bounds(s, class);
    slice_chars(s, a, b)
}

pub open spec fn lower_char(c: char) -> char {
    if 'A' <= c <= 'Z' { ((c as u32) + 32) as char } else { c }
}

/// `to_ascii_lowercase`.
pub open spec fn lower_chars(s: Seq<char>) -> Seq<char> {
    s.map_values(|c: char| lower_char(c))
}

pub fn to_lower_char(c: char) -> (r: char)
    ensures
        r == lower_char(c),
{
    if 'A' <= c && c <= 'Z' {
        let u = (c as u32) + 32;
        assert(0x61 <= u <= 0x7a);
        char_from_ascii(u)
    } else {
        c
    }
}

/// The character of an ASCII code point.
fn char_from_ascii(u: u32) -> (r: char)
    requires
        u < 128,
    ensures
        r == u as char,
{
    let b = u as u8;
    b as char
}

pub fn lower_ascii(s: &[char]) -> (r: Vec<char>)
    ensures
        r@ == lower_chars(s@),
{
    let mut out: Vec<char> = Vec::new();
    let mut i: usize = 0;
    while i < s.len()
        invariant
            i <= s@.len(),
            out@ == lower_chars(s@.subrange(0, i as int)),
        decreases s@.len() - i,
    {
        out.push(to_lower_char(s[i]));
        assert(lower_chars(s@.subrange(0, i + 1)) =~= lower_chars(s@.subrange(0, i as int)).push(lower_char(s@[i as int])));
        i = i + 1;
    }
    assert(s@.subrange(0, s@.len() as int) =~= s@);
    out
}

/// Whether two sequences of characters are equal.
pub fn chars_equal(a: &[char], b: &[char]) -> (r: bool)
    ensures
        r == (a@ == b@),
{
    if a.len() != b.len() {
        return false;
    }
    let mut i: usize = 0;
    while i < a.len()
        invariant
            a@.len() == b@.len(),
            i <= a@.len(),
            forall|j: int| 0 <= j < i ==> a@[j] == b@[j],
        decreases a@.len() - i,
    {
        if a[i] != b[i] {
            return false;
        }
        i = i + 1;
    }
    assert(a@ =~= b@);
    true
}

/// Whether `a`, ASCII case folded, is the text `lit` (given in lower case).
pub fn lower_equals(a: &[char], lit: &str) -> (r: bool)
    ensures
        r == (lower_chars(a@) == lit@),
{
    let l = lower_ascii(a);
    let other = crate::text::chars_of(lit);
    chars_equal(l.as_slice(), other.as_slice())
}

/// Index of the first `c` in `s` at or after `i`.
pub open spec fn first_index_from(s: Seq<char>, c: char, i: int) -> Option<int>
    decreases s.len() - i,
{
    if i < 0 || i >= s.len() {
        None
    } else if s[i] == c {
        Some(i)
    } else {
        first_index_from(s, c, i + 1)
    }
}

pub open spec fn first_index(s: Seq<char>, c: char) -> Option<int> {
    first_index_from(s, c, 0)
}

pub proof fn lemma_first_index_bounds(s: Seq<char>, c: char, i: int)
    requires
        0 <= i,
    ensures
        first_index_from(s, c, i) matches Some(j) ==> i <= j < s.len() && s[j] == c
            && forall|k: int| i <= k < j ==> s[k] != c,
        first_index_from(s, c, i) is None ==> forall|k: int| i <= k < s.len() ==> s[k] != c,
    decreases s.len() - i,
{
    if i < s.len() && s[i] != c {
        lemma_first_index_bounds(s, c, i + 1);
    }
}

pub fn find_char(s: &[char], c: char) -> (r: Option<usize>)
    ensures
        match r {
            Some(i) => first_index(s@, c) == Some(i as int),
            None => first_index(s@, c) is None,
        },
{
    let mut i: usize = 0;
    while i < s.len()
        invariant
            i <= s@.len(),
            first_index(s@, c) == first_index_from(s@, c, i as int),
        decreases s@.len() - i,
    {
        if s[i] == c {
            return Some(i);
        }
        i = i + 1;
    }
    None
}

/// Index of the last `c` in `s[..n]`.
pub open spec fn last_index_before(s: Seq<char>, c: char, n: int) -> Option<int>
    decreases n,
{
    if n <= 0 || n > s.len() {
        None
    } else if s[n - 1] == c {
        Some(n - 1)
    } else {
        last_index_before(s, c, n - 1)
    }
}

pub open spec fn last_index(s: Seq<char>, c: char) -> Option<int> {
    last_index_before(s, c, s.len() as int)
}

pub proof fn lemma_last_index_bounds(s: Seq<char>, c: char, n: int)
    requires
        n <= s.len(),
    ensures
        last_index_before(s, c, n) matches Some(j) ==> 0 <= j < n && s[j] == c,
    decreases n,
{
    if 0 < n && s[n - 1] != c {
        lemma_last_index_bounds(s, c, n - 1);
    }
}

pub fn rfind_char(s: &[char], c: char) -> (r: Option<usize>)
    ensures
        match r {
            Some(i) => last_index(s@, c) == Some(i as int) && i < s@.len(),
            None => last_index(s@, c) is None,
        },
{
    let mut n: usize = s.len();
    while n > 0
        invariant
            n <= s@.len(),
            last_index(s@, c) == last_index_before(s@, c, n as int),
        decreases n,
    {
        if s[n - 1] == c {
            return Some(n - 1);
        }
        n = n - 1;
    }
    None
}

/// The text before the first `c` (all of it when there is none): `split(c).next()`.
pub open spec fn before_first(s: Seq<char>, c: char) -> Seq<char> {
    match first_index(s, c) {
        Some(i) => s.take(i),
        None => s,
    }
}

pub fn prefix_before(s: &[char], c: char) -> (r: Vec<char>)
    ensures
        r@ == before_first(s@, c),
{
    match find_char(s, c) {
        Some(i) => {
            proof { lemma_first_index_bounds(s@, c, 0); }
            let v = slice_chars(s, 0, i);
            assert(v@ =~= s@.take(i as int));
            v
        },
        None => slice_chars(s, 0, s.len()),
    }
}

/// Whether `c` occurs in `s`.
pub fn contains_char(s: &[char], c: char) -> (r: bool)
    ensures
        r == s@.contains(c),
{
    let found = find_char(s, c);
    proof {
        lemma_first_index_bounds(s@, c, 0);
        if found is None {
            assert forall|k: int| 0 <= k < s@.len() implies s@[k] != c by {}
        }
    }
    found.is_some()
}

/// Concatenation of two character vectors.
pub fn concat_chars(a: &[char], b: &[char]) -> (r: Vec<char>)
    ensures
        r@ == a@ + b@,
{
    let mut out = slice_chars(a, 0, a.len());
    assert(out@ =~= a@);
    let mut i: usize = 0;
    while i < b.len()
        invariant
            i <= b@.len(),
            out@ == a@ + b@.subrange(0, i as int),
        decreases b@.len() - i,
    {
        out.push(b[i]);
        assert(a@ + b@.subrange(0, i + 1) =~= (a@ + b@.subrange(0, i as int)).push(b@[i as int]));
        i = i + 1;
    }
    assert(b@.subrange(0, b@.len() as int) =~= b@);
    out
}

/// Whether `sub` occurs in `s` at position `i`.
pub open spec fn occurs_at(s: Seq<char>, sub: Seq<char>, i: int) -> bool {
    0 <= i && i + sub.len() <= s.len() && s.subrange(i, i + sub.len()) == sub
}

/// Position of the first occurrence of `sub` in `s` at or after `i`.
pub open spec fn find_sub_from(s: Seq<char>, sub: Seq<char>, i: int) -> Option<int>
    decreases s.len() + 1 - i,
{
    if i < 0 || i + sub.len() > s.len() {
        None
    } else if occurs_at(s, sub, i) {
        Some(i)
    } else {
        find_sub_from(s, sub, i + 1)
    }
}

pub proof fn lemma_find_sub_bounds(s: Seq<char>, sub: Seq<char>, i: int)
    requires
        0 <= i,
    ensures
        find_sub_from(s, sub, i) matches Some(j) ==> i <= j && j + sub.len() <= s.len() && occurs_at(s, sub, j),
    decreases s.len() + 1 - i,
{
    if i + sub.len() <= s.len() && !occurs_at(s, sub, i) {
        lemma_find_sub_bounds(s, sub, i + 1);
    }
}

fn matches_at(s: &[char], sub: &[char], i: usize) -> (r: bool)
    requires
        i <= s@.len(),
    ensures
        r == occurs_at(s@, sub@, i as int),
{
    if sub.len() > s.len() - i {
        return false;
    }
    let end = i + sub.len();
    let mut k: usize = 0;
    while k < sub.len()
        invariant
            k <= sub@.len(),
            end == i + sub@.len(),
            end <= s@.len(),
            forall|j: int| 0 <= j < k ==> s@[i + j] == sub@[j],
        decreases sub@.len() - k,
    {
        if s[i + k] != sub[k] {
            assert(s@.subrange(i as int, i + sub@.len())[k as int] != sub@[k as int]);
            return false;
        }
        k = k + 1;
    }
    assert(s@.subrange(i as int, i + sub@.len()) =~= sub@);
    true
}

pub fn find_sub(s: &[char], sub: &[char], from: usize) -> (r: Option<usize>)
    requires
        from <= s@.len(),
    ensures
        match r {
            Some(i) => find_sub_from(s@, sub@, from as int) == Some(i as int),
            None => find_sub_from(s@, sub@, from as int) is None,
        },
{
    let mut i = from;
    while sub.len() <= s.len() - i
        invariant
            from <= i <= s@.len(),
            find_sub_from(s@, sub@, from as int) == find_sub_from(s@, sub@, i as int),
        decreases s@.len() - i,
    {
        if matches_at(s, sub, i) {
            return Some(i);
        }
        if i == s.len() {
            assert(s@.subrange(i as int, i as int) =~= sub@);
            return None;
        }
        i = i + 1;
    }
    None
}

/// Whether `sub` occurs in `s`.
pub open spec fn contains_sub(s: Seq<char>, sub: Seq<char>) -> bool {
    find_sub_from(s, sub, 0) is Some
}

pub fn contains_text(s: &[char], sub: &str) -> (r: bool)
    ensures
        r == contains_sub(s@, sub@),
{
    let needle = crate::text::chars_of(sub);
    find_sub(s, needle.as_slice(), 0).is_some()
}

/// `str::replace`: every non-overlapping occurrence of `from`, left to right, replaced by `to`.
pub open spec fn replace_all(s: Seq<char>, from: Seq<char>, to: Seq<char>) -> Seq<char>
    decreases s.len(),
{
    if from.len() == 0 || s.len() == 0 {
        s
    } else if occurs_at(s, from, 0) {
        to + replace_all(s.skip(from.len() as int), from, to)
    } else {
        seq![s[0]] + replace_all(s.skip(1), from, to)
    }
}

pub fn replace_text(s: &[char], from: &str, to: &str) -> (r: Vec<char>)
    requires
        from@.len() > 0,
    ensures
        r@ == replace_all(s@, from@, to@),
{
    let f = crate::text::chars_of(from);
    let t = crate::text::chars_of(to);
    let mut out: Vec<char> = Vec::new();
    let mut i: usize = 0;
    assert(s@.skip(0) =~= s@);
    while i < s.len()
        invariant
            i <= s@.len(),
            f@ == from@,
            t@ == to@,
            f@.len() > 0,
            replace_all(s@, from@, to@) == out@ + replace_all(s@.skip(i as int), from@, to@),
        decreases s@.len() - i,
    {
        let ghost rest = s@.skip(i as int);
        if matches_at(s, f.as_slice(), i) {
            assert(rest.subrange(0, f@.len() as int) =~= s@.subrange(i as int, i + f@.len()));
            assert(rest.skip(f@.len() as int) =~= s@.skip(i + f@.len()));
            let ghost before = out@;
            let mut k: usize = 0;
            while k < t.len()
                invariant
                    k <= t@.len(),
                    out@ == before + t@.take(k as int),
                decreases t@.len() - k,
            {
                out.push(t[k]);
                assert(before + t@.take(k + 1) =~= (before + t@.take(k as int)).push(t@[k as int]));
                k = k + 1;
            }
            assert(t@.take(t@.len() as int) =~= t@);
            assert(out@ + replace_all(s@.skip(i + f@.len()), from@, to@) =~= before + (to@ + replace_all(rest.skip(f@.len() as int), from@, to@)));
            i = i + f.len();
        } else {
            proof {
                if rest.len() >= f@.len() {
                    assert(rest.subrange(0, f@.len() as int) =~= s@.subrange(i as int, i + f@.len()));
                }
            }
            assert(rest.skip(1) =~= s@.skip(i + 1));
            assert(rest[0] == s@[i as int]);
            let ghost before = out@;
            out.push(s[i]);
            assert(out@ + replace_all(s@.skip(i + 1), from@, to@) =~= before + (seq![rest[0]] + replace_all(rest.skip(1), from@, to@)));
            i = i + 1;
        }
    }
    assert(s@.skip(i as int).len() == 0);
    assert(out@ + replace_all(s@.skip(i as int), from@, to@) =~= out@);
    out
}

/// `str::split` on a non-empty separator text.
pub open spec fn split_on(s: Seq<char>, sep: Seq<char>) -> Seq<Seq<char>>
    decreases s.len(),
{
    if sep.len() == 0 {
        seq![s]
    } else {
        match find_sub_from(s, sep, 0) {
            Some(i) => if i + sep.len() <= s.len() && i >= 0 {
                seq![s.take(i)] + split_on(s.skip(i + sep.len()), sep)
            } else {
                seq![s]
            },
            None => seq![s],
        }
    }
}

/// The texts of a list of character vectors.
pub open spec fn vecs_view(v: Seq<Vec<char>>) -> Seq<Seq<char>> {
    v.map_values(|x: Vec<char>| x@)
}

pub fn split_text(s: &[char], sep: &[char]) -> (r: Vec<Vec<char>>)
    requires
        sep@.len() > 0,
    ensures
        vecs_view(r@) == split_on(s@, sep@),
{
    let mut parts: Vec<Vec<char>> = Vec::new();
    let mut pos: usize = 0;
    assert(s@.skip(0) =~= s@);
    loop
        invariant
            pos <= s@.len(),
            sep@.len() > 0,
            split_on(s@, sep@) == vecs_view(parts@) + split_on(s@.skip(pos as int), sep@),
        decreases s@.len() - pos,
    {
        let ghost rest = s@.skip(pos as int);
        match find_sub(s, sep, pos) {
            Some(i) => {
                proof {
                    lemma_find_sub_bounds(s@, sep@, pos as int);
                    lemma_find_sub_shift(s@, sep@, pos as int);
                }
                let part = slice_chars(s, pos, i);
                let ghost before = parts@;
                parts.push(part);
                proof {
                    assert(rest.take(i - pos) =~= part@);
                    assert(rest.skip(i - pos + sep@.len()) =~= s@.skip(i + sep@.len()));
                    assert(vecs_view(parts@) =~= vecs_view(before).push(part@));
                    assert(vecs_view(parts@) + split_on(s@.skip(i + sep@.len()), sep@)
                        =~= vecs_view(before) + (seq![part@] + split_on(rest.skip(i - pos + sep@.len()), sep@)));
                }
                let n = s.len();
                assert(i + sep@.len() <= n);
                pos = i + sep.len();
            },
            None => {
                proof { lemma_find_sub_shift(s@, sep@, pos as int); }
                let part = slice_chars(s, pos, s.len());
                let ghost before = parts@;
                parts.push(part);
                proof {
                    assert(part@ =~= rest);
                    assert(vecs_view(parts@) =~= vecs_view(before).push(part@));
                    assert(vecs_view(parts@) =~= vecs_view(before) + seq![rest]);
                }
                return parts;
            },
        }
    }
}

/// Searching from `pos` in `s` is searching from 0 in the rest of `s`, shifted by `pos`.
pub proof fn lemma_find_sub_shift(s: Seq<char>, sub: Seq<char>, pos: int)
    requires
        0 <= pos <= s.len(),
    ensures
        match find_sub_from(s, sub, pos) {
            Some(i) => find_sub_from(s.skip(pos), sub, 0) == Some(i - pos),
            None => find_sub_from(s.skip(pos), sub, 0) is None,
        },
{
    lemma_find_sub_shift_from(s, sub, pos, pos);
}

proof fn lemma_find_sub_shift_from(s: Seq<char>, sub: Seq<char>, pos: int, i: int)
    requires
        0 <= pos <= i,
        pos <= s.len(),
    ensures
        match find_sub_from(s, sub, i) {
            Some(j) => find_sub_from(s.skip(pos), sub, i - pos) == Some(j - pos),
            None => find_sub_from(s.skip(pos), sub, i - pos) is None,
        },
    decreases s.len() + 1 - i,
{
    let t = s.skip(pos);
    if i + sub.len() <= s.len() {
        assert(t.subrange(i - pos, i - pos + sub.len()) =~= s.subrange(i, i + sub.len()));
        if !occurs_at(s, sub, i) {
            lemma_find_sub_shift_from(s, sub, pos, i + 1);
        }
    }
}

/// `String`'s `FromIterator<char>` (`collect`): the string of exactly these characters.
#[verifier::external_body]
pub fn string_from_chars(chars: &[char]) -> (r: String)
    ensures
        r@ == chars@,
{
    chars.iter().collect()
}

/// `String::from_utf8`: a string exactly when the bytes are valid UTF-8, holding the
/// characters they encode.
#[verifier::external_body]
pub fn string_from_utf8(bytes: Vec<u8>) -> (r: Option<String>)
    ensures
        r is Some <==> vstd::utf8::valid_utf8(bytes@),
        r matches Some(s) ==> s@ == vstd::utf8::decode_utf8(bytes@),
{
    String::from_utf8(bytes).ok()
}

} // verus!
