//! The bookkeeping of the per-origin HTTP client pool: when each origin's client was last
//! used, which idle ones are evicted, and which oldest ones go when the pool grows too large.

use vstd::prelude::*;
use crate::download_ops::{lemma_text_less_asym, lemma_text_less_total, lemma_text_less_trans, text_less};

verus! {

pub const HTTP_POOL_MAX_ORIGINS: usize = 128;
pub const HTTP_POOL_IDLE_EVICTION_MILLIS: u64 = 600000;
pub const HTTP_POOL_CLEANUP_INTERVAL_MILLIS: u64 = 60000;

/// An origin with a pooled client, and when it was last used.
#[derive(Clone, Debug)]
pub struct PooledClient {
    pub origin: String,
    pub last_access_at_millis: u64,
}

pub open spec fn origins_distinct(es: Seq<PooledClient>) -> bool {
    forall|a: int, b: int| 0 <= a < es.len() && 0 <= b < es.len() && a != b ==> es[a].origin@ != es[b].origin@
}

pub open spec fn is_protected(e: PooledClient, protected: Option<Seq<char>>) -> bool {
    protected == Some(e.origin@)
}

/// The origins kept by the idle eviction at `now`: the protected one, and those used after
/// the cut-off ten minutes before `now`.
pub open spec fn kept_fresh(es: Seq<PooledClient>, now: u64, protected: Option<Seq<char>>) -> Seq<PooledClient>
    decreases es.len(),
{
    if es.len() == 0 {
        es
    } else {
        let rest = kept_fresh(es.drop_last(), now, protected);
        let e = es.last();
        if !is_protected(e, protected) && e.last_access_at_millis <= crate::arith::sat_sub(now as int, HTTP_POOL_IDLE_EVICTION_MILLIS as int) {
            rest
        } else {
            rest.push(e)
        }
    }
}

/// `v` is the least recently used unprotected origin; among equally old ones, the first in
/// origin order.
pub open spec fn is_eviction_victim(es: Seq<PooledClient>, v: int, protected: Option<Seq<char>>) -> bool {
    &&& 0 <= v < es.len()
    &&& !is_protected(es[v], protected)
    &&& forall|k: int| 0 <= k < es.len() && k != v && !is_protected(#[trigger] es[k], protected) ==>
        es[v].last_access_at_millis < es[k].last_access_at_millis
        || (es[v].last_access_at_millis == es[k].last_access_at_millis && text_less(es[v].origin@, es[k].origin@))
}

/// The pool once the least recently used unprotected origins are evicted down to the cap
/// (or until only the protected one is left to evict).
pub open spec fn capped_pool(es: Seq<PooledClient>, protected: Option<Seq<char>>) -> Seq<PooledClient>
    decreases es.len(),
{
    if es.len() <= HTTP_POOL_MAX_ORIGINS {
        es
    } else if exists|v: int| is_eviction_victim(es, v, protected) {
        let v = choose|v: int| is_eviction_victim(es, v, protected);
        capped_pool(es.remove(v), protected)
    } else {
        es
    }
}

/// The pool after a cleanup at `now`.
pub open spec fn cleaned_pool(es: Seq<PooledClient>, now: u64, protected: Option<Seq<char>>) -> Seq<PooledClient> {
    capped_pool(kept_fresh(es, now, protected), protected)
}

proof fn lemma_victim_unique(es: Seq<PooledClient>, a: int, b: int, protected: Option<Seq<char>>)
    requires
        is_eviction_victim(es, a, protected),
        is_eviction_victim(es, b, protected),
    ensures
        a == b,
{
    if a != b {
        lemma_text_less_asym(es[a].origin@, es[b].origin@);
        assert(!is_protected(es[b], protected));
        assert(!is_protected(es[a], protected));
    }
}

proof fn lemma_remove_keeps_distinct(es: Seq<PooledClient>, v: int)
    requires
        origins_distinct(es),
        0 <= v < es.len(),
    ensures
        origins_distinct(es.remove(v)),
{
    let r = es.remove(v);
    assert forall|a: int, b: int| 0 <= a < r.len() && 0 <= b < r.len() && a != b implies r[a].origin@ != r[b].origin@ by {
        let a0 = if a < v { a } else { a + 1 };
        let b0 = if b < v { b } else { b + 1 };
        assert(r[a] == es[a0] && r[b] == es[b0]);
    }
}

proof fn lemma_kept_fresh_distinct(es: Seq<PooledClient>, now: u64, protected: Option<Seq<char>>)
    requires
        origins_distinct(es),
    ensures
        origins_distinct(kept_fresh(es, now, protected)),
        forall|k: int| 0 <= k < kept_fresh(es, now, protected).len() ==> es.contains(#[trigger] kept_fresh(es, now, protected)[k]),
    decreases es.len(),
{
    if es.len() > 0 {
        let d = es.drop_last();
        assert(origins_distinct(d)) by {
            assert forall|a: int, b: int| 0 <= a < d.len() && 0 <= b < d.len() && a != b implies d[a].origin@ != d[b].origin@ by {
                assert(d[a] == es[a] && d[b] == es[b]);
            }
        }
        lemma_kept_fresh_distinct(d, now, protected);
        let rest = kept_fresh(d, now, protected);
        assert forall|k: int| 0 <= k < rest.len() implies es.contains(#[trigger] rest[k]) by {
            let j = choose|j: int| 0 <= j < d.len() && d[j] == rest[k];
            assert(es[j] == rest[k]);
        }
        let e = es.last();
        if !(!is_protected(e, protected) && e.last_access_at_millis <= crate::arith::sat_sub(now as int, HTTP_POOL_IDLE_EVICTION_MILLIS as int)) {
            let f = rest.push(e);
            assert(es[es.len() - 1] == e);
            assert forall|k: int| 0 <= k < f.len() implies es.contains(#[trigger] f[k]) by {
                if k < rest.len() { assert(f[k] == rest[k]); } else { assert(f[k] == es[es.len() - 1]); }
            }
            assert forall|a: int, b: int| 0 <= a < f.len() && 0 <= b < f.len() && a != b implies f[a].origin@ != f[b].origin@ by {
                if a < rest.len() && b < rest.len() {
                    assert(f[a] == rest[a] && f[b] == rest[b]);
                } else if a < rest.len() {
                    let j = choose|j: int| 0 <= j < d.len() && d[j] == rest[a];
                    assert(es[j] == f[a] && f[b] == es[es.len() - 1]);
                } else {
                    let j = choose|j: int| 0 <= j < d.len() && d[j] == rest[b];
                    assert(es[j] == f[b] && f[a] == es[es.len() - 1]);
                }
            }
        }
    }
}

fn protected_match(origin: &str, protected: Option<&str>) -> (r: bool)
    ensures
        r == (crate::capture_bridge::opt_label(protected) == Some(origin@)),
{
    match protected {
        Some(p) => crate::text::str_equal(p, origin),
        None => false,
    }
}

fn evict_idle(entries: &mut Vec<PooledClient>, now: u64, protected: Option<&str>)
    ensures
        final(entries)@ == kept_fresh(old(entries)@, now, crate::capture_bridge::opt_label(protected)),
{
    let ghost es0 = entries@;
    let ghost p = crate::capture_bridge::opt_label(protected);
    let stale_before: u64 = if now >= HTTP_POOL_IDLE_EVICTION_MILLIS { now - HTTP_POOL_IDLE_EVICTION_MILLIS } else { 0 };
    let mut i: usize = 0;
    let ghost mut k: int = 0;
    assert(es0.take(0) =~= Seq::<PooledClient>::empty());
    assert(es0.skip(0) =~= es0);
    assert(entries@.take(0) =~= Seq::<PooledClient>::empty());
    while i < entries.len()
        invariant
            0 <= k <= es0.len(),
            i <= entries@.len(),
            entries@.len() - i == es0.len() - k,
            p == crate::capture_bridge::opt_label(protected),
            stale_before == crate::arith::sat_sub(now as int, HTTP_POOL_IDLE_EVICTION_MILLIS as int),
            entries@.take(i as int) == kept_fresh(es0.take(k), now, p),
            entries@.skip(i as int) == es0.skip(k),
        decreases es0.len() - k,
    {
        let ghost before = entries@;
        assert(entries@[i as int] == es0[k]) by {
            assert(entries@.skip(i as int)[0] == es0.skip(k)[0]);
        }
        assert(es0.take(k + 1).drop_last() =~= es0.take(k));
        assert(es0.take(k + 1).last() == es0[k]);
        let evict = !protected_match(entries[i].origin.as_str(), protected) && entries[i].last_access_at_millis <= stale_before;
        if evict {
            let _ = entries.remove(i);
            proof {
                assert(entries@.take(i as int) =~= before.take(i as int));
                assert forall|j: int| 0 <= j < entries@.skip(i as int).len() implies #[trigger] entries@.skip(i as int)[j] == es0.skip(k + 1)[j] by {
                    assert(before.skip(i as int)[j + 1] == es0.skip(k)[j + 1]);
                }
                assert(entries@.skip(i as int) =~= es0.skip(k + 1));
                k = k + 1;
            }
        } else {
            proof {
                assert(entries@.take(i + 1) =~= before.take(i as int).push(es0[k]));
                assert forall|j: int| 0 <= j < entries@.skip(i + 1).len() implies #[trigger] entries@.skip(i + 1)[j] == es0.skip(k + 1)[j] by {
                    assert(before.skip(i as int)[j + 1] == es0.skip(k)[j + 1]);
                }
                assert(entries@.skip(i + 1) =~= es0.skip(k + 1));
                k = k + 1;
            }
            i = i + 1;
        }
    }
    proof {
        assert(es0.take(k) =~= es0);
        assert(entries@.take(i as int) =~= entries@);
    }
}

fn eviction_victim(es: &Vec<PooledClient>, protected: Option<&str>) -> (r: Option<usize>)
    requires
        origins_distinct(es@),
    ensures
        match r {
            Some(v) => is_eviction_victim(es@, v as int, crate::capture_bridge::opt_label(protected)),
            None => !exists|v: int| is_eviction_victim(es@, v, crate::capture_bridge::opt_label(protected)),
        },
{
    let ghost p = crate::capture_bridge::opt_label(protected);
    let mut best: Option<usize> = None;
    let mut i: usize = 0;
    while i < es.len()
        invariant
            i <= es@.len(),
            origins_distinct(es@),
            p == crate::capture_bridge::opt_label(protected),
            match best {
                Some(m) => m < i && !is_protected(es@[m as int], p) && forall|k: int| 0 <= k < i && k != m && !is_protected(#[trigger] es@[k], p) ==>
                    es@[m as int].last_access_at_millis < es@[k].last_access_at_millis
                    || (es@[m as int].last_access_at_millis == es@[k].last_access_at_millis && text_less(es@[m as int].origin@, es@[k].origin@)),
                None => forall|k: int| 0 <= k < i ==> is_protected(#[trigger] es@[k], p),
            },
        decreases es@.len() - i,
    {
        if !protected_match(es[i].origin.as_str(), protected) {
            match best {
                None => {
                    best = Some(i);
                },
                Some(m) => {
                    let a = crate::text::chars_of(es[i].origin.as_str());
                    let b = crate::text::chars_of(es[m].origin.as_str());
                    let older = es[i].last_access_at_millis < es[m].last_access_at_millis
                        || (es[i].last_access_at_millis == es[m].last_access_at_millis && crate::download_ops::text_less_exec(a.as_slice(), b.as_slice()));
                    if older {
                        proof {
                            assert forall|k: int| 0 <= k < i + 1 && k != i && !is_protected(#[trigger] es@[k], p) implies
                                es@[i as int].last_access_at_millis < es@[k].last_access_at_millis
                                || (es@[i as int].last_access_at_millis == es@[k].last_access_at_millis && text_less(es@[i as int].origin@, es@[k].origin@)) by {
                                if k != m && es@[i as int].last_access_at_millis == es@[k].last_access_at_millis {
                                    lemma_text_less_trans(es@[i as int].origin@, es@[m as int].origin@, es@[k].origin@);
                                }
                            }
                        }
                        best = Some(i);
                    } else {
                        proof {
                            lemma_text_less_total(es@[i as int].origin@, es@[m as int].origin@);
                        }
                    }
                },
            }
        }
        i = i + 1;
    }
    best
}

/// Evicts idle origins at `now`, then the least recently used ones while more than the cap
/// remain; the `protected` origin stays in any case.
pub fn cleanup_clients(entries: &mut Vec<PooledClient>, now_millis: u64, protected: Option<&str>)
    requires
        origins_distinct(old(entries)@),
    ensures
        origins_distinct(final(entries)@),
        final(entries)@ == cleaned_pool(old(entries)@, now_millis, crate::capture_bridge::opt_label(protected)),
{
    let ghost p = crate::capture_bridge::opt_label(protected);
    proof { lemma_kept_fresh_distinct(entries@, now_millis, p); }
    evict_idle(entries, now_millis, protected);
    while entries.len() > HTTP_POOL_MAX_ORIGINS
        invariant
            origins_distinct(entries@),
            p == crate::capture_bridge::opt_label(protected),
            capped_pool(entries@, p) == cleaned_pool(old(entries)@, now_millis, p),
        decreases entries@.len(),
    {
        match eviction_victim(entries, protected) {
            Some(v) => {
                proof {
                    let c = choose|c: int| is_eviction_victim(entries@, c, p);
                    lemma_victim_unique(entries@, v as int, c, p);
                    lemma_remove_keeps_distinct(entries@, v as int);
                }
                let _ = entries.remove(v);
            },
            None => {
                return;
            },
        }
    }
}

proof fn lemma_kept_has_protected(es: Seq<PooledClient>, now: u64, p: Option<Seq<char>>, i: int)
    requires
        0 <= i < es.len(),
        is_protected(es[i], p),
    ensures
        kept_fresh(es, now, p).contains(es[i]),
    decreases es.len(),
{
    let rest = kept_fresh(es.drop_last(), now, p);
    if i == es.len() - 1 {
        assert(kept_fresh(es, now, p) == rest.push(es.last()));
        assert(kept_fresh(es, now, p)[rest.len() as int] == es[i]);
    } else {
        lemma_kept_has_protected(es.drop_last(), now, p, i);
        assert(es.drop_last()[i] == es[i]);
        let j = choose|j: int| 0 <= j < rest.len() && rest[j] == es[i];
        let f = kept_fresh(es, now, p);
        if f == rest.push(es.last()) {
            assert(f[j] == es[i]);
        }
    }
}

proof fn lemma_capped_has_protected(es: Seq<PooledClient>, p: Option<Seq<char>>, e: PooledClient)
    requires
        es.contains(e),
        is_protected(e, p),
    ensures
        capped_pool(es, p).contains(e),
    decreases es.len(),
{
    if es.len() > HTTP_POOL_MAX_ORIGINS && exists|v: int| is_eviction_victim(es, v, p) {
        let v = choose|v: int| is_eviction_victim(es, v, p);
        let j = choose|j: int| 0 <= j < es.len() && es[j] == e;
        assert(j != v);
        let r = es.remove(v);
        if j < v { assert(r[j] == e); } else { assert(r[j - 1] == e); }
        lemma_capped_has_protected(r, p, e);
    }
}

proof fn lemma_protected_survives(es: Seq<PooledClient>, now: u64, origin: Seq<char>, i: int)
    requires
        0 <= i < es.len(),
        es[i].origin@ == origin,
    ensures
        cleaned_pool(es, now, Some(origin)).contains(es[i]),
{
    lemma_kept_has_protected(es, now, Some(origin), i);
    lemma_capped_has_protected(kept_fresh(es, now, Some(origin)), Some(origin), es[i]);
}

proof fn lemma_capped_subset(es: Seq<PooledClient>, p: Option<Seq<char>>, a: int)
    requires
        0 <= a < capped_pool(es, p).len(),
    ensures
        es.contains(capped_pool(es, p)[a]),
    decreases es.len(),
{
    if es.len() > HTTP_POOL_MAX_ORIGINS && exists|v: int| is_eviction_victim(es, v, p) {
        let v = choose|v: int| is_eviction_victim(es, v, p);
        let r = es.remove(v);
        lemma_capped_subset(r, p, a);
        let j = choose|j: int| 0 <= j < r.len() && r[j] == capped_pool(es, p)[a];
        if j < v { assert(es[j] == r[j]); } else { assert(es[j + 1] == r[j]); }
    }
}

proof fn lemma_cleaned_subset(es: Seq<PooledClient>, now: u64, p: Option<Seq<char>>, a: int)
    requires
        origins_distinct(es),
        0 <= a < cleaned_pool(es, now, p).len(),
    ensures
        es.contains(cleaned_pool(es, now, p)[a]),
{
    lemma_kept_fresh_distinct(es, now, p);
    lemma_capped_subset(kept_fresh(es, now, p), p, a);
}

fn find_origin(es: &Vec<PooledClient>, origin: &str) -> (r: Option<usize>)
    ensures
        match r {
            Some(i) => i < es@.len() && es@[i as int].origin@ == origin@,
            None => forall|k: int| 0 <= k < es@.len() ==> #[trigger] es@[k].origin@ != origin@,
        },
{
    let mut i: usize = 0;
    while i < es.len()
        invariant
            i <= es@.len(),
            forall|k: int| 0 <= k < i ==> #[trigger] es@[k].origin@ != origin@,
        decreases es@.len() - i,
    {
        if crate::text::str_equal(es[i].origin.as_str(), origin) {
            return Some(i);
        }
        i = i + 1;
    }
    None
}

/// The pool: its origins and when the next periodic cleanup is due.
#[derive(Clone, Debug)]
pub struct HttpPool {
    pub clients: Vec<PooledClient>,
    pub next_cleanup_at_millis: u64,
}

impl HttpPool {
    pub open spec fn wf(&self) -> bool {
        origins_distinct(self.clients@)
    }

    /// An empty pool whose first cleanup is due a minute after `now_millis`.
    pub fn new_at(now_millis: u64) -> (r: Self)
        ensures
            r.wf(),
            r.clients@.len() == 0,
            r.next_cleanup_at_millis == crate::arith::sat_add(now_millis as int, HTTP_POOL_CLEANUP_INTERVAL_MILLIS as int),
    {
        HttpPool { clients: Vec::new(), next_cleanup_at_millis: crate::arith::u64_sat_add(now_millis, HTTP_POOL_CLEANUP_INTERVAL_MILLIS) }
    }

    /// A lease of the client for `origin` at `now_millis`: an origin already pooled is
    /// touched, and a due periodic cleanup runs sparing it; a new origin is cleaned around
    /// and added. Tells whether the pooled client was reused.
    pub fn lease_at(&mut self, origin: &str, now_millis: u64) -> (reused: bool)
        requires
            old(self).wf(),
        ensures
            final(self).wf(),
            reused == exists|k: int| 0 <= k < old(self).clients@.len() && #[trigger] old(self).clients@[k].origin@ == origin@,
            exists|k: int| 0 <= k < final(self).clients@.len() && #[trigger] final(self).clients@[k].origin@ == origin@
                && final(self).clients@[k].last_access_at_millis == now_millis,
    {
        if let Some(i) = find_origin(&self.clients, origin) {
            self.clients[i].last_access_at_millis = now_millis;
            assert(self.wf()) by {
                assert forall|a: int, b: int| 0 <= a < self.clients@.len() && 0 <= b < self.clients@.len() && a != b
                    implies self.clients@[a].origin@ != self.clients@[b].origin@ by {
                    assert(self.clients@[a].origin == old(self).clients@[a].origin);
                    assert(self.clients@[b].origin == old(self).clients@[b].origin);
                }
            }
            let ghost before = self.clients@;
            assert(before[i as int].origin@ == origin@ && before[i as int].last_access_at_millis == now_millis);
            if now_millis >= self.next_cleanup_at_millis {
                self.next_cleanup_at_millis = crate::arith::u64_sat_add(now_millis, HTTP_POOL_CLEANUP_INTERVAL_MILLIS);
                cleanup_clients(&mut self.clients, now_millis, Some(origin));
                proof {
                    lemma_protected_survives(before, now_millis, origin@, i as int);
                    let k = choose|k: int| 0 <= k < self.clients@.len() && self.clients@[k] == before[i as int];
                    assert(self.clients@[k].origin@ == origin@);
                }
            }
            return true;
        }
        cleanup_clients(&mut self.clients, now_millis, Some(origin));
        self.next_cleanup_at_millis = crate::arith::u64_sat_add(now_millis, HTTP_POOL_CLEANUP_INTERVAL_MILLIS);
        let ghost before = self.clients@;
        self.clients.push(PooledClient { origin: origin.to_owned(), last_access_at_millis: now_millis });
        proof {
            assert(self.wf()) by {
                assert forall|a: int, b: int| 0 <= a < self.clients@.len() && 0 <= b < self.clients@.len() && a != b
                    implies self.clients@[a].origin@ != self.clients@[b].origin@ by {
                    if a < before.len() && b < before.len() {
                        assert(self.clients@[a] == before[a] && self.clients@[b] == before[b]);
                    } else if a < before.len() {
                        lemma_cleaned_subset(old(self).clients@, now_millis, Some(origin@), a);
                    } else {
                        lemma_cleaned_subset(old(self).clients@, now_millis, Some(origin@), b);
                    }
                }
            }
        }
        let ghost mid = self.clients@;
        cleanup_clients(&mut self.clients, now_millis, Some(origin));
        proof { lemma_protected_survives(mid, now_millis, origin@, mid.len() - 1); }
        false
    }
}

} // verus!
