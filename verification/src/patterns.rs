//! Regular-expression searches of the `regex` crate, as plain values.

use vstd::prelude::*;

verus! {

/// For every successive non-overlapping match of `pattern` in `text`, the text of capture
/// group `group`, none where the group did not take part in the match; empty when `pattern`
/// does not compile.
pub uninterp spec fn regex_match_groups(pattern: Seq<char>, text: Seq<char>, group: nat) -> Seq<Option<Seq<char>>>;

/// The texts present in `s`, in order.
pub open spec fn present(s: Seq<Option<Seq<char>>>) -> Seq<Seq<char>>
    decreases s.len(),
{
    if s.len() == 0 {
        Seq::empty()
    } else {
        let p = present(s.drop_last());
        match s.last() {
            Some(v) => p.push(v),
            None => p,
        }
    }
}

/// The text of capture group `group` of every successive non-overlapping match of `pattern`
/// in `text`, skipping matches where the group did not take part.
pub open spec fn regex_group_captures(pattern: Seq<char>, text: Seq<char>, group: nat) -> Seq<Seq<char>> {
    present(regex_match_groups(pattern, text, group))
}

pub open spec fn texts_of(v: Vec<String>) -> Seq<Seq<char>> {
    v@.map_values(|s: String| s@)
}

pub open spec fn opt_texts_of(v: Vec<Option<String>>) -> Seq<Option<Seq<char>>> {
    v@.map_values(|s: Option<String>| crate::model::opt_text(s))
}

/// `regex::Regex::new(pattern)` then `captures_iter(text)`, reading group `group` of each match.
#[verifier::external_body]
fn match_groups(pattern: &str, text: &str, group: usize) -> (r: Vec<Option<String>>)
    ensures
        opt_texts_of(r) == regex_match_groups(pattern@, text@, group as nat),
{
    match regex::Regex::new(pattern) {
        Ok(re) => re.captures_iter(text).map(|c| c.get(group).map(|m| m.as_str().to_string())).collect(),
        Err(_) => Vec::new(),
    }
}

/// The text of group `group` of every match of `pattern` in `text` where the group took part.
pub fn group_captures(pattern: &str, text: &str, group: usize) -> (r: Vec<String>)
    ensures
        texts_of(r) == regex_group_captures(pattern@, text@, group as nat),
{
    let all = match_groups(pattern, text, group);
    let ghost m = opt_texts_of(all);
    let mut out: Vec<String> = Vec::new();
    let mut i: usize = 0;
    assert(m.take(0) =~= Seq::<Option<Seq<char>>>::empty());
    assert(texts_of(out) =~= Seq::<Seq<char>>::empty());
    while i < all.len()
        invariant
            i <= all@.len(),
            m == opt_texts_of(all),
            texts_of(out) == present(m.take(i as int)),
        decreases all@.len() - i,
    {
        assert(m.take(i + 1).drop_last() =~= m.take(i as int));
        assert(m.take(i + 1).last() == m[i as int]);
        match &all[i] {
            Some(v) => {
                let ghost before = texts_of(out);
                out.push(v.clone());
                assert(texts_of(out) =~= before.push(v@));
            },
            None => {},
        }
        i = i + 1;
    }
    assert(m.take(all@.len() as int) =~= m);
    out
}

} // verus!
