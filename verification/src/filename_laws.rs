//! What file-name resolution keeps: a plain file name survives sanitizing unchanged, and a
//! Content-Disposition `filename` parameter gives its name without the quotes around it.

use vstd::prelude::*;
use crate::chars::{before_first, first_index_from, is_white_space, lower_chars, trim_by, trim_end_by, trim_start_by, trim_ws, TrimClass};
use crate::filename::{basic_filename_spec, disposition_name_spec, disposition_scan, split_params_spec, split_state, unescape_state};
use crate::filename_policy::{
    collapse_spaces_spec, control_char, enforce_length_spec, forbidden_char, guard_reserved_spec, invisible_char,
    reserved_stem, sanitize_chars, sanitize_leaf_spec, segment_scan,
};

verus! {

/// A plain file name: one to 240 characters, none of them forbidden in file names, a control,
/// invisible, `%` or `;`; no two spaces in a row; no whitespace or dot at either end; and not
/// a reserved device name.
pub open spec fn plain_file_name(n: Seq<char>) -> bool {
    &&& 1 <= n.len() <= 240
    &&& forall|i: int| 0 <= i < n.len() ==> {
        let c = #[trigger] n[i];
        !forbidden_char(c) && !control_char(c) && !invisible_char(c) && c != '%' && c != ';'
    }
    &&& forall|i: int| 0 <= i < n.len() - 1 ==> !(#[trigger] n[i] == ' ' && n[i + 1] == ' ')
    &&& !is_white_space(n[0]) && !is_white_space(n.last())
    &&& n[0] != '.' && n.last() != '.'
    &&& !reserved_stem(before_first(n, '.'))
}

/// Trimming leaves a text alone whose first and last characters are not trimmed.
pub proof fn lemma_trim_keeps(s: Seq<char>, class: TrimClass)
    requires
        s.len() > 0,
        !crate::chars::trimmed_char(s[0], class),
        !crate::chars::trimmed_char(s.last(), class),
    ensures
        trim_by(s, class) == s,
{
    assert(trim_start_by(s, class) == s);
    assert(trim_end_by(s, class) == s);
}

proof fn lemma_sanitize_chars_keeps(s: Seq<char>)
    requires
        forall|i: int| 0 <= i < s.len() ==> !forbidden_char(#[trigger] s[i]) && !control_char(s[i]) && !invisible_char(s[i]),
    ensures
        sanitize_chars(s) == s,
    decreases s.len(),
{
    if s.len() > 0 {
        let d = s.drop_last();
        assert forall|i: int| 0 <= i < d.len() implies !forbidden_char(#[trigger] d[i]) && !control_char(d[i]) && !invisible_char(d[i]) by {
            assert(d[i] == s[i]);
        }
        lemma_sanitize_chars_keeps(d);
        assert(s[s.len() - 1] == s.last());
        assert(d.push(s.last()) =~= s);
    }
}

proof fn lemma_collapse_keeps(s: Seq<char>)
    requires
        forall|i: int| 0 <= i < s.len() - 1 ==> !(#[trigger] s[i] == ' ' && s[i + 1] == ' '),
    ensures
        collapse_spaces_spec(s) == s,
    decreases s.len(),
{
    if s.len() > 0 {
        let d = s.drop_last();
        assert forall|i: int| 0 <= i < d.len() - 1 implies !(#[trigger] d[i] == ' ' && d[i + 1] == ' ') by {
            assert(d[i] == s[i] && d[i + 1] == s[i + 1]);
        }
        lemma_collapse_keeps(d);
        if s.len() >= 2 {
            assert(!(s[s.len() - 2] == ' ' && s[s.len() - 1] == ' '));
        }
        assert(s[s.len() - 1] == s.last());
        assert(d.push(s.last()) =~= s);
    }
}

proof fn lemma_segment_scan_whole(t: Seq<char>, n: int)
    requires
        0 <= n <= t.len(),
        forall|i: int| 0 <= i < t.len() ==> !crate::filename_policy::is_path_sep(#[trigger] t[i]),
        trim_ws(t).len() > 0,
    ensures
        segment_scan(t, n, t.len() as int) == Some((0int, t.len() as int)),
    decreases n,
{
    assert(t.subrange(0, t.len() as int) =~= t);
    if n > 0 {
        lemma_segment_scan_whole(t, n - 1);
    }
}

/// A plain file name is its own sanitized form.
pub proof fn lemma_plain_name_sanitizes_to_itself(n: Seq<char>)
    requires
        plain_file_name(n),
    ensures
        sanitize_leaf_spec(n) == Some(n),
{
    assert(!n.contains('%')) by {
        if n.contains('%') {
            let i = choose|i: int| 0 <= i < n.len() && n[i] == '%';
            assert(n[i] != '%');
        }
    }
    assert(n[n.len() - 1] == n.last());
    lemma_trim_keeps(n, TrimClass::WhiteSpace);
    assert(trim_ws(n) == n);
    assert forall|i: int| 0 <= i < n.len() implies !crate::filename_policy::is_path_sep(#[trigger] n[i]) by {
        assert(!forbidden_char(n[i]));
    }
    lemma_segment_scan_whole(n, n.len() as int);
    assert(n.subrange(0, n.len() as int) =~= n);
    lemma_sanitize_chars_keeps(n);
    lemma_collapse_keeps(n);
    lemma_trim_keeps(n, TrimClass::SpaceOrDot);
    assert(guard_reserved_spec(n) == n);
    assert(enforce_length_spec(n, crate::filename_policy::MAX_FILENAME_CHARS as int) == n);
}

proof fn lemma_split_run(s: Seq<char>, a: int, b: int)
    requires
        0 <= a <= b <= s.len(),
        !split_state(s, a).3,
        forall|i: int| a <= i < b ==> #[trigger] s[i] != '"' && s[i] != '\\' && s[i] != ';',
    ensures
        split_state(s, b) == split_state(s, a),
    decreases b - a,
{
    if b > a {
        lemma_split_run(s, a, b - 1);
    }
}

proof fn lemma_no_index(s: Seq<char>, c: char, i: int)
    requires
        0 <= i,
        forall|j: int| i <= j < s.len() ==> #[trigger] s[j] != c,
    ensures
        first_index_from(s, c, i) is None,
    decreases s.len() - i,
{
    if i < s.len() {
        lemma_no_index(s, c, i + 1);
    }
}

proof fn lemma_index_at(s: Seq<char>, c: char, i: int, k: int)
    requires
        0 <= i <= k < s.len(),
        s[k] == c,
        forall|j: int| i <= j < k ==> #[trigger] s[j] != c,
    ensures
        first_index_from(s, c, i) == Some(k),
    decreases k - i,
{
    if i < k {
        lemma_index_at(s, c, i + 1, k);
    }
}

proof fn lemma_unescape_plain(v: Seq<char>, k: int)
    requires
        0 <= k <= v.len(),
        forall|i: int| 0 <= i < v.len() ==> #[trigger] v[i] != '\\',
    ensures
        unescape_state(v, k) == (v.take(k), false),
    decreases k,
{
    if k > 0 {
        lemma_unescape_plain(v, k - 1);
        assert(v.take(k - 1).push(v[k - 1]) =~= v.take(k));
    }
}

/// The `filename` parameter of a Content-Disposition value gives its file name without the
/// quotes around it: for a plain name `N`, `attachment; filename="N"` names the file `N`.
pub proof fn lemma_quoted_filename_parameter(n: Seq<char>)
    requires
        plain_file_name(n),
    ensures
        disposition_name_spec(Some("attachment; filename=\""@ + n + "\""@)) == Some(n),
{
    reveal_strlit("attachment; filename=\"");
    reveal_strlit("\"");
    reveal_strlit("attachment");
    reveal_strlit("filename");
    reveal_strlit("filename*");
    let p = "attachment; filename=\""@;
    let q = "\""@;
    let h = p + n + q;
    let len = h.len() as int;
    let l = n.len() as int;
    assert(p.len() == 22);
    assert(len == 23 + l);
    assert forall|i: int| 0 <= i < 22 implies #[trigger] h[i] == p[i] by {}
    assert forall|i: int| 0 <= i < l implies #[trigger] h[22 + i] == n[i] by {}
    assert(h[len - 1] == '"');
    assert(h.last() == '"');
    lemma_trim_keeps(h, TrimClass::WhiteSpace);
    assert(trim_ws(h) == h);

    // Splitting into `attachment` and `filename="N"`.
    assert(split_state(h, 0) == (Seq::<Seq<char>>::empty(), 0int, false, false));
    lemma_split_run(h, 0, 10);
    let part0 = trim_ws(h.subrange(0, 10));
    assert(h[10] == ';');
    assert(split_state(h, 11) == (seq![part0], 11int, false, false));
    lemma_split_run(h, 11, 21);
    assert(h[21] == '"');
    assert(split_state(h, 22) == (seq![part0], 11int, true, false));
    assert forall|i: int| 22 <= i < 22 + l implies #[trigger] h[i] != '"' && h[i] != '\\' && h[i] != ';' by {
        assert(h[i] == n[i - 22]);
        assert(!forbidden_char(n[i - 22]));
    }
    lemma_split_run(h, 22, 22 + l);
    assert(split_state(h, len) == (seq![part0], 11int, false, false));
    let part1 = trim_ws(h.subrange(11, len));
    assert(split_params_spec(h) == seq![part0, part1]);

    // The first part has no `=`.
    assert(h.subrange(0, 10) =~= "attachment"@);
    lemma_trim_keeps(h.subrange(0, 10), TrimClass::WhiteSpace);
    lemma_no_index(part0, '=', 0);

    // The second part is `filename="N"`.
    let sub = h.subrange(11, len);
    let f = h.subrange(12, len);
    assert(sub[0] == ' ');
    assert(sub.drop_first() =~= f);
    assert(f[0] == 'f');
    assert(f.last() == '"');
    assert(trim_start_by(sub, TrimClass::WhiteSpace) == trim_start_by(f, TrimClass::WhiteSpace));
    assert(trim_start_by(f, TrimClass::WhiteSpace) == f);
    assert(trim_end_by(f, TrimClass::WhiteSpace) == f);
    assert(part1 == f);
    assert(f.take(8) =~= "filename"@);
    assert(f[8] == '=');
    lemma_index_at(f, '=', 0, 8);
    lemma_trim_keeps(f.take(8), TrimClass::WhiteSpace);
    assert(lower_chars(f.take(8)) =~= "filename"@);
    let v = f.subrange(9, f.len() as int);
    assert(v.len() == l + 2);
    assert(v[0] == '"' && v.last() == '"');
    lemma_trim_keeps(v, TrimClass::WhiteSpace);
    assert(v.subrange(1, v.len() - 1) =~= n);
    assert forall|i: int| 0 <= i < n.len() implies #[trigger] n[i] != '\\' by {
        assert(!forbidden_char(n[i]));
    }
    lemma_unescape_plain(n, l);
    assert(n.take(l) =~= n);
    assert(!n.contains('%')) by {
        if n.contains('%') {
            let i = choose|i: int| 0 <= i < n.len() && n[i] == '%';
            assert(n[i] != '%');
        }
    }
    assert(basic_filename_spec(v) == n);

    // Scanning the parameters, then sanitizing.
    let parts = seq![part0, part1];
    assert(parts[0] == part0 && parts[1] == part1);
    assert(crate::chars::first_index(part0, '=') is None);
    assert(disposition_scan(parts, 0) == (None::<Seq<char>>, None::<Seq<char>>));
    assert(disposition_scan(parts, 1) == (None::<Seq<char>>, None::<Seq<char>>));
    assert("filename"@ != "filename*"@) by {
        assert("filename"@.len() != "filename*"@.len());
    }
    assert(disposition_scan(parts, 2) == (None::<Seq<char>>, Some(n)));
    lemma_plain_name_sanitizes_to_itself(n);
}

} // verus!
