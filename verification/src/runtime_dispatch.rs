//! Which queued downloads start, and how the connections of a host are shared among its
//! running downloads.

use vstd::prelude::*;
use crate::download::{DownloadRecord, DownloadStatus};
use crate::download_ops::text_less;
use crate::model::{EngineSettings, HostProfile};
use crate::model::{opt_text, LockReason};
use crate::registry::{profile_of, HostProfileEntry, RegistrySnapshot};

verus! {

/// The queue position a download is dispatched by: unset positions go last.
pub open spec fn queue_key(d: DownloadRecord) -> u32 {
    if d.queue_position == 0 { u32::MAX } else { d.queue_position }
}

/// The dispatch order: manual starts first, then by queue position, time added and id.
pub open spec fn dispatch_before(a: DownloadRecord, b: DownloadRecord) -> bool {
    let ma: int = if a.manual_start_requested { 0 } else { 1 };
    let mb: int = if b.manual_start_requested { 0 } else { 1 };
    ma < mb || (ma == mb && (queue_key(a) < queue_key(b) || (queue_key(a) == queue_key(b)
        && (a.date_added < b.date_added || (a.date_added == b.date_added && text_less(a.id@, b.id@))))))
}

fn dispatch_before_exec(a: &DownloadRecord, b: &DownloadRecord) -> (r: bool)
    ensures
        r == dispatch_before(*a, *b),
{
    let ma: u8 = if a.manual_start_requested { 0 } else { 1 };
    let mb: u8 = if b.manual_start_requested { 0 } else { 1 };
    if ma != mb {
        return ma < mb;
    }
    let qa = if a.queue_position == 0 { u32::MAX } else { a.queue_position };
    let qb = if b.queue_position == 0 { u32::MAX } else { b.queue_position };
    if qa != qb {
        return qa < qb;
    }
    if a.date_added != b.date_added {
        return a.date_added < b.date_added;
    }
    let x = crate::text::chars_of(a.id.as_str());
    let y = crate::text::chars_of(b.id.as_str());
    crate::download_ops::text_less_exec(x.as_slice(), y.as_slice())
}

/// Position in `cands[..n]` of the first candidate that no other dispatches before.
pub open spec fn first_min_pos(ds: Seq<DownloadRecord>, cands: Seq<int>, n: int) -> int
    decreases n,
{
    if n <= 1 {
        0
    } else {
        let m = first_min_pos(ds, cands, n - 1);
        if dispatch_before(ds[cands[n - 1]], ds[cands[m]]) { n - 1 } else { m }
    }
}

pub proof fn lemma_first_min_pos_bounds(ds: Seq<DownloadRecord>, cands: Seq<int>, n: int)
    requires
        1 <= n,
    ensures
        0 <= first_min_pos(ds, cands, n) < n,
    decreases n,
{
    if n > 1 {
        lemma_first_min_pos_bounds(ds, cands, n - 1);
    }
}

/// The candidates in dispatch order, ties kept in their given order.
pub open spec fn dispatch_order(ds: Seq<DownloadRecord>, cands: Seq<int>) -> Seq<int>
    decreases cands.len(),
{
    if cands.len() == 0 {
        Seq::empty()
    } else {
        let p = first_min_pos(ds, cands, cands.len() as int);
        proof { lemma_first_min_pos_bounds(ds, cands, cands.len() as int); }
        seq![cands[p]] + dispatch_order(ds, cands.remove(p))
    }
}

fn first_min_index(ds: &Vec<DownloadRecord>, cands: &Vec<usize>) -> (r: usize)
    requires
        cands@.len() >= 1,
        forall|k: int| 0 <= k < cands@.len() ==> cands@[k] < ds@.len(),
    ensures
        r == first_min_pos(ds@, cands@.map_values(|c: usize| c as int), cands@.len() as int),
        r < cands@.len(),
{
    let ghost cs = cands@.map_values(|c: usize| c as int);
    let mut m: usize = 0;
    let mut i: usize = 1;
    while i < cands.len()
        invariant
            1 <= i <= cands@.len(),
            m < i,
            cs == cands@.map_values(|c: usize| c as int),
            forall|k: int| 0 <= k < cands@.len() ==> cands@[k] < ds@.len(),
            m == first_min_pos(ds@, cs, i as int),
        decreases cands@.len() - i,
    {
        if dispatch_before_exec(&ds[cands[i]], &ds[cands[m]]) {
            m = i;
        }
        i = i + 1;
    }
    m
}

/// The candidate indices in dispatch order.
pub fn order_for_dispatch(ds: &Vec<DownloadRecord>, cands: Vec<usize>) -> (r: Vec<usize>)
    requires
        forall|k: int| 0 <= k < cands@.len() ==> cands@[k] < ds@.len(),
    ensures
        r@.map_values(|c: usize| c as int) == dispatch_order(ds@, cands@.map_values(|c: usize| c as int)),
        forall|k: int| 0 <= k < r@.len() ==> r@[k] < ds@.len(),
{
    let ghost initial = cands@.map_values(|c: usize| c as int);
    let mut remaining = cands;
    let mut out: Vec<usize> = Vec::new();
    while remaining.len() > 0
        invariant
            forall|k: int| 0 <= k < remaining@.len() ==> remaining@[k] < ds@.len(),
            forall|k: int| 0 <= k < out@.len() ==> out@[k] < ds@.len(),
            out@.map_values(|c: usize| c as int) + dispatch_order(ds@, remaining@.map_values(|c: usize| c as int))
                == dispatch_order(ds@, initial),
        decreases remaining@.len(),
    {
        let ghost rem = remaining@.map_values(|c: usize| c as int);
        let p = first_min_index(ds, &remaining);
        let ghost before_out = out@.map_values(|c: usize| c as int);
        let c = remaining.remove(p);
        out.push(c);
        proof {
            assert(remaining@.map_values(|c: usize| c as int) =~= rem.remove(p as int));
            assert(out@.map_values(|c: usize| c as int) =~= before_out.push(c as int));
            assert(dispatch_order(ds@, rem) == seq![rem[p as int]] + dispatch_order(ds@, rem.remove(p as int)));
            assert(before_out.push(c as int) + dispatch_order(ds@, rem.remove(p as int))
                =~= before_out + (seq![rem[p as int]] + dispatch_order(ds@, rem.remove(p as int))));
        }
    }
    assert(dispatch_order(ds@, remaining@.map_values(|c: usize| c as int)) =~= Seq::empty());
    assert(out@.map_values(|c: usize| c as int) =~= dispatch_order(ds@, initial));
    out
}

/// One round-robin pass over the downloads from position `j`: each one below its desired
/// connections gets one more while connections remain; `granted` tells whether any was given.
pub open spec fn rr_pass(assigned: Seq<int>, desired: Seq<int>, remaining: int, granted: bool, j: int) -> (Seq<int>, int, bool)
    decreases assigned.len() - j,
{
    if j < 0 || j >= assigned.len() {
        (assigned, remaining, granted)
    } else if assigned[j] >= desired[j] {
        rr_pass(assigned, desired, remaining, granted, j + 1)
    } else if remaining - 1 <= 0 {
        (assigned.update(j, assigned[j] + 1), remaining - 1, true)
    } else {
        rr_pass(assigned.update(j, assigned[j] + 1), desired, remaining - 1, true, j + 1)
    }
}

/// The sum of a sequence.
pub open spec fn sum_of(s: Seq<int>) -> int
    decreases s.len(),
{
    if s.len() == 0 { 0 } else { sum_of(s.drop_last()) + s.last() }
}

pub proof fn lemma_sum_update(s: Seq<int>, j: int, v: int)
    requires
        0 <= j < s.len(),
    ensures
        sum_of(s.update(j, v)) == sum_of(s) - s[j] + v,
    decreases s.len(),
{
    if j < s.len() - 1 {
        lemma_sum_update(s.drop_last(), j, v);
        assert(s.update(j, v).drop_last() =~= s.drop_last().update(j, v));
    } else {
        assert(s.update(j, v).drop_last() =~= s.drop_last());
    }
}

/// The most a download ends with: what it wants, or what it already had when that is more.
pub open spec fn grant_cap(assigned: int, desired: int) -> int {
    if assigned >= desired { assigned } else { desired }
}

pub proof fn lemma_rr_pass(assigned: Seq<int>, desired: Seq<int>, remaining: int, granted: bool, j: int)
    requires
        remaining > 0,
        0 <= j,
    ensures
        ({
            let (a, r, g) = rr_pass(assigned, desired, remaining, granted, j);
            &&& a.len() == assigned.len()
            &&& 0 <= r <= remaining
            &&& g == (granted || r < remaining)
            &&& r == remaining ==> a == assigned
            &&& forall|k: int| 0 <= k < assigned.len() ==> assigned[k] <= #[trigger] a[k] <= grant_cap(assigned[k], desired[k])
            &&& sum_of(a) - sum_of(assigned) == remaining - r
        }),
    decreases assigned.len() - j,
{
    if 0 <= j < assigned.len() {
        if assigned[j] >= desired[j] {
            lemma_rr_pass(assigned, desired, remaining, granted, j + 1);
        } else {
            let a2 = assigned.update(j, assigned[j] + 1);
            lemma_sum_update(assigned, j, assigned[j] + 1);
            if remaining - 1 > 0 {
                lemma_rr_pass(a2, desired, remaining - 1, true, j + 1);
                let (a, r, g) = rr_pass(a2, desired, remaining - 1, true, j + 1);
                assert forall|k: int| 0 <= k < assigned.len() implies assigned[k] <= #[trigger] a[k] <= grant_cap(assigned[k], desired[k]) by {
                    assert(a2[k] <= a[k] <= grant_cap(a2[k], desired[k]));
                }
            }
        }
    }
}

/// Round-robin grants until the connections run out or nobody wants more.
pub open spec fn rr_rounds(assigned: Seq<int>, desired: Seq<int>, remaining: int) -> Seq<int>
    decreases remaining,
{
    if remaining <= 0 {
        assigned
    } else {
        let (a2, r2, granted) = rr_pass(assigned, desired, remaining, false, 0);
        if !granted {
            assigned
        } else {
            proof { lemma_rr_pass(assigned, desired, remaining, false, 0); }
            rr_rounds(a2, desired, r2)
        }
    }
}

/// Round-robin sharing never takes a download below what it had nor above what it wants
/// (or had), and hands out no more than the connections that remained.
pub proof fn lemma_rr_rounds(assigned: Seq<int>, desired: Seq<int>, remaining: int)
    requires
        remaining >= 0,
    ensures
        rr_rounds(assigned, desired, remaining).len() == assigned.len(),
        forall|k: int| 0 <= k < assigned.len() ==> assigned[k] <= #[trigger] rr_rounds(assigned, desired, remaining)[k]
            <= grant_cap(assigned[k], desired[k]),
        sum_of(rr_rounds(assigned, desired, remaining)) <= sum_of(assigned) + remaining,
    decreases remaining,
{
    if remaining > 0 {
        let (a2, r2, granted) = rr_pass(assigned, desired, remaining, false, 0);
        lemma_rr_pass(assigned, desired, remaining, false, 0);
        if granted {
            lemma_rr_rounds(a2, desired, r2);
            let f = rr_rounds(a2, desired, r2);
            assert forall|k: int| 0 <= k < assigned.len() implies assigned[k] <= #[trigger] rr_rounds(assigned, desired, remaining)[k]
                <= grant_cap(assigned[k], desired[k]) by {
                assert(a2[k] <= f[k] <= grant_cap(a2[k], desired[k]));
            }
        }
    }
}

pub open spec fn ints(v: Seq<u32>) -> Seq<int> {
    v.map_values(|x: u32| x as int)
}

/// Positions held as `usize`, read as integers.
pub open spec fn positions(v: Seq<usize>) -> Seq<int> {
    v.map_values(|c: usize| c as int)
}

fn rr_pass_exec(assigned: &mut Vec<u32>, desired: &Vec<u32>, budget: u32) -> (r: (u32, bool))
    requires
        old(assigned)@.len() == desired@.len(),
        budget > 0,
        forall|k: int| 0 <= k < desired@.len() ==> old(assigned)@[k] <= desired@[k] || old(assigned)@[k] == 1,
    ensures
        ({
            let (a, rem, g) = rr_pass(ints(old(assigned)@), ints(desired@), budget as int, false, 0);
            &&& ints(final(assigned)@) == a
            &&& r.0 == rem
            &&& r.1 == g
        }),
        final(assigned)@.len() == old(assigned)@.len(),
        forall|k: int| 0 <= k < desired@.len() ==> final(assigned)@[k] <= desired@[k] || final(assigned)@[k] == 1,
{
    let ghost target = rr_pass(ints(assigned@), ints(desired@), budget as int, false, 0);
    assert(target == rr_pass(ints(old(assigned)@), ints(desired@), budget as int, false, 0));
    let mut remaining = budget;
    let mut granted = false;
    let mut j: usize = 0;
    while j < assigned.len() && remaining > 0
        invariant
            assigned@.len() == desired@.len(),
            j <= assigned@.len(),
            forall|k: int| 0 <= k < desired@.len() ==> assigned@[k] <= desired@[k] || assigned@[k] == 1,
            remaining > 0 ==> target == rr_pass(ints(assigned@), ints(desired@), remaining as int, granted, j as int),
            remaining == 0 ==> target == (ints(assigned@), 0int, true) && granted,
        decreases assigned@.len() - j,
    {
        if assigned[j] < desired[j] {
            let v = assigned[j] + 1;
            let ghost before = assigned@;
            assigned.set(j, v);
            assert(ints(assigned@) =~= ints(before).update(j as int, ints(before)[j as int] + 1));
            remaining = remaining - 1;
            granted = true;
        }
        j = j + 1;
    }
    (remaining, granted)
}

fn rr_rounds_exec(assigned: &mut Vec<u32>, desired: &Vec<u32>, budget: u32)
    requires
        old(assigned)@.len() == desired@.len(),
        forall|k: int| 0 <= k < desired@.len() ==> old(assigned)@[k] <= desired@[k] || old(assigned)@[k] == 1,
    ensures
        ints(final(assigned)@) == rr_rounds(ints(old(assigned)@), ints(desired@), budget as int),
        final(assigned)@.len() == old(assigned)@.len(),
{
    let ghost target = rr_rounds(ints(assigned@), ints(desired@), budget as int);
    let ghost start_len = assigned@.len();
    let mut remaining = budget;
    while remaining > 0
        invariant
            assigned@.len() == desired@.len(),
            assigned@.len() == start_len,
            start_len == old(assigned)@.len(),
            target == rr_rounds(ints(old(assigned)@), ints(desired@), budget as int),
            forall|k: int| 0 <= k < desired@.len() ==> assigned@[k] <= desired@[k] || assigned@[k] == 1,
            target == rr_rounds(ints(assigned@), ints(desired@), remaining as int),
        decreases remaining,
    {
        let ghost a0 = ints(assigned@);
        proof { lemma_rr_pass(a0, ints(desired@), remaining as int, false, 0); }
        let (r2, granted) = rr_pass_exec(assigned, desired, remaining);
        if !granted {
            assert(ints(assigned@) == a0);
            return;
        }
        remaining = r2;
    }
}

pub proof fn lemma_dispatch_order_perm(ds: Seq<DownloadRecord>, cands: Seq<int>)
    ensures
        dispatch_order(ds, cands).len() == cands.len(),
        forall|j: int| 0 <= j < cands.len() ==> cands.contains(#[trigger] dispatch_order(ds, cands)[j]),
        cands.no_duplicates() ==> dispatch_order(ds, cands).no_duplicates(),
        forall|x: int| cands.contains(x) ==> #[trigger] dispatch_order(ds, cands).contains(x),
    decreases cands.len(),
{
    if cands.len() > 0 {
        let p = first_min_pos(ds, cands, cands.len() as int);
        lemma_first_min_pos_bounds(ds, cands, cands.len() as int);
        let rest = cands.remove(p);
        lemma_dispatch_order_perm(ds, rest);
        let o = dispatch_order(ds, cands);
        let ro = dispatch_order(ds, rest);
        assert(o == seq![cands[p]] + ro);
        assert forall|j: int| 0 <= j < cands.len() implies cands.contains(#[trigger] o[j]) by {
            if j == 0 {
                assert(cands[p] == o[0]);
            } else {
                assert(o[j] == ro[j - 1]);
                assert(rest.contains(ro[j - 1]));
                let k = choose|k: int| 0 <= k < rest.len() && rest[k] == ro[j - 1];
                if k < p { assert(cands[k] == rest[k]); } else { assert(cands[k + 1] == rest[k]); }
            }
        }
        assert forall|x: int| cands.contains(x) implies #[trigger] o.contains(x) by {
            let k = choose|k: int| 0 <= k < cands.len() && cands[k] == x;
            if k == p {
                assert(o[0] == x);
            } else {
                let k2 = if k < p { k } else { k - 1 };
                assert(rest[k2] == x);
                assert(rest.contains(x));
                assert(ro.contains(x));
                let m = choose|m: int| 0 <= m < ro.len() && ro[m] == x;
                assert(o[m + 1] == x);
            }
        }
        if cands.no_duplicates() {
            assert(rest.no_duplicates()) by {
                assert forall|a: int, b: int| 0 <= a < rest.len() && 0 <= b < rest.len() && a != b implies rest[a] != rest[b] by {
                    let a2 = if a < p { a } else { a + 1 };
                    let b2 = if b < p { b } else { b + 1 };
                    assert(rest[a] == cands[a2]);
                    assert(rest[b] == cands[b2]);
                }
            }
            assert(!ro.contains(cands[p])) by {
                if ro.contains(cands[p]) {
                    let m = choose|m: int| 0 <= m < ro.len() && ro[m] == cands[p];
                    assert(cands.contains(ro[m]) || true);
                    assert(rest.contains(ro[m]));
                    let k = choose|k: int| 0 <= k < rest.len() && rest[k] == ro[m];
                    let k2 = if k < p { k } else { k + 1 };
                    assert(cands[k2] == cands[p]);
                }
            }
            assert forall|a: int, b: int| 0 <= a < o.len() && 0 <= b < o.len() && a != b implies o[a] != o[b] by {
                if a == 0 && b > 0 {
                    assert(o[b] == ro[b - 1]);
                } else if b == 0 && a > 0 {
                    assert(o[a] == ro[a - 1]);
                } else if a > 0 && b > 0 {
                    assert(o[a] == ro[a - 1] && o[b] == ro[b - 1]);
                }
            }
        }
    }
}

/// Connections a download may ask for: its maximum, at least one.
pub open spec fn cap_of(d: DownloadRecord) -> int {
    if d.max_connections > 1 { d.max_connections as int } else { 1 }
}

/// Connections a running download wants: its target within its maximum when it is
/// segmented and its request can be split, else one.
pub open spec fn desired_of(d: DownloadRecord) -> int {
    if !d.capabilities.segmented
        || !crate::http_helpers::segmented_shape_spec(d.compatibility.request_method, d.compatibility.request_form_fields@.len() as int) {
        1
    } else {
        crate::arith::min_int(crate::arith::max_int(d.target_connections as int, 1), cap_of(d))
    }
}

/// The connections asked for by the first `n` downloads of a group (at least 16).
pub open spec fn group_requested(ds: Seq<DownloadRecord>, group: Seq<int>, n: int) -> int
    decreases n,
{
    if n <= 0 { 16 } else { crate::arith::max_int(group_requested(ds, group, n - 1), cap_of(ds[group[n - 1]])) }
}

/// The connections a host may have, at least one.
pub open spec fn host_budget_spec(requested: int, settings: EngineSettings, profile: Option<HostProfile>, now: i64) -> int {
    crate::arith::max_int(crate::host_planner::connection_target_spec(crate::arith::max_int(requested, 1), settings, profile, None, now), 1)
}

/// The connections each download of a group gets, in dispatch order: one each, then the rest
/// of the host's budget handed out round-robin up to what each wants.
pub open spec fn group_assignment(ds: Seq<DownloadRecord>, order: Seq<int>, budget: int) -> Seq<int> {
    let n = order.len();
    let count = if n > u32::MAX { u32::MAX as int } else { n as int };
    rr_rounds(Seq::new(n, |j: int| 1int), Seq::new(n, |j: int| desired_of(ds[order[j]])), crate::arith::max_int(budget - count, 0))
}

/// A running download given `assigned` connections (within its maximum) and its segment plan.
pub open spec fn member_result(old_d: DownloadRecord, new_d: DownloadRecord, assigned: int, settings: EngineSettings) -> bool {
    let t = crate::arith::min_int(assigned, cap_of(old_d));
    let mid = DownloadRecord { target_connections: t as u32, ..old_d };
    &&& new_d.segments@ == crate::download_plan::ensured_segments(mid, settings)
    &&& new_d == (DownloadRecord {
        capabilities: crate::download::DownloadCapabilities { segmented: crate::download_plan::segmented_mode_spec(mid), ..mid.capabilities },
        segments: new_d.segments,
        ..mid
    })
}

/// How the downloads of one host share its connections.
pub open spec fn group_rebalanced(
    old_ds: Seq<DownloadRecord>,
    new_ds: Seq<DownloadRecord>,
    group: Seq<int>,
    settings: EngineSettings,
    profile: Option<HostProfile>,
    now: i64,
) -> bool {
    let order = dispatch_order(old_ds, group);
    let budget = host_budget_spec(group_requested(old_ds, group, group.len() as int), settings, profile, now);
    let assigned = group_assignment(old_ds, order, budget);
    &&& new_ds.len() == old_ds.len()
    &&& forall|j: int| 0 <= j < order.len() ==> member_result(old_ds[order[j]], #[trigger] new_ds[order[j]], assigned[j], settings)
    &&& forall|i: int| 0 <= i < old_ds.len() && !group.contains(i) ==> #[trigger] new_ds[i] == old_ds[i]
}

fn copy_indices(v: &Vec<usize>) -> (r: Vec<usize>)
    ensures
        r@ == v@,
{
    let mut out: Vec<usize> = Vec::new();
    let mut i: usize = 0;
    while i < v.len()
        invariant
            i <= v@.len(),
            out@ == v@.take(i as int),
        decreases v@.len() - i,
    {
        out.push(v[i]);
        assert(out@ =~= v@.take(i + 1));
        i = i + 1;
    }
    assert(v@.take(v@.len() as int) =~= v@);
    out
}

fn desired_exec(d: &DownloadRecord) -> (r: u32)
    ensures
        r == desired_of(*d),
        r >= 1,
{
    if !d.capabilities.segmented || !crate::download_plan::compatibility_request_context_supports_segmented_transfer(d) {
        return 1;
    }
    let t = if d.target_connections > 1 { d.target_connections } else { 1 };
    let c = if d.max_connections > 1 { d.max_connections } else { 1 };
    if t < c { t } else { c }
}

/// Shares a host's connections among its running downloads `group` (distinct positions).
pub fn rebalance_host_active_targets(
    downloads: &mut Vec<DownloadRecord>,
    settings: &EngineSettings,
    profile: Option<&HostProfile>,
    group: &Vec<usize>,
    now: i64,
)
    requires
        forall|k: int| 0 <= k < group@.len() ==> group@[k] < old(downloads)@.len(),
        group@.no_duplicates(),
    ensures
        group_rebalanced(old(downloads)@, final(downloads)@, group@.map_values(|c: usize| c as int), *settings,
            crate::host_planner::opt_profile(profile), now),
{
    let ghost ds0 = downloads@;
    let ghost g = group@.map_values(|c: usize| c as int);
    let n = group.len();
    let mut requested: u32 = 16;
    let mut k: usize = 0;
    while k < n
        invariant
            k <= n == group@.len(),
            downloads@ == ds0,
            g == group@.map_values(|c: usize| c as int),
            forall|q: int| 0 <= q < group@.len() ==> group@[q] < ds0.len(),
            requested == group_requested(ds0, g, k as int),
        decreases n - k,
    {
        let c = downloads[group[k]].max_connections;
        let c1 = if c > 1 { c } else { 1 };
        if c1 > requested {
            requested = c1;
        }
        k = k + 1;
    }
    let target = crate::host_planner::connection_target_at(if requested > 1 { requested } else { 1 }, settings, profile, None, now);
    let budget: u32 = if target > 1 { target } else { 1 };
    assert(budget == host_budget_spec(group_requested(ds0, g, g.len() as int), *settings, crate::host_planner::opt_profile(profile), now));
    proof {
        assert(g.no_duplicates()) by {
            assert forall|a: int, b: int| 0 <= a < g.len() && 0 <= b < g.len() && a != b implies g[a] != g[b] by {
                assert(group@[a] != group@[b]);
            }
        }
        lemma_dispatch_order_perm(ds0, g);
    }
    let order = order_for_dispatch(downloads, copy_indices(group));
    let ghost ord = dispatch_order(ds0, g);
    assert(order@.map_values(|c: usize| c as int) == ord);
    let mut assigned: Vec<u32> = Vec::new();
    let mut desired: Vec<u32> = Vec::new();
    let mut j: usize = 0;
    while j < n
        invariant
            j <= n == order@.len(),
            downloads@ == ds0,
            ord == order@.map_values(|c: usize| c as int),
            forall|q: int| 0 <= q < order@.len() ==> order@[q] < ds0.len(),
            assigned@.len() == j && desired@.len() == j,
            forall|q: int| 0 <= q < j ==> assigned@[q] == 1,
            forall|q: int| 0 <= q < j ==> desired@[q] == desired_of(ds0[ord[q]]),
        decreases n - j,
    {
        assigned.push(1);
        desired.push(desired_exec(&downloads[order[j]]));
        j = j + 1;
    }
    let count: u32 = if n > 4294967295usize { u32::MAX } else { n as u32 };
    let remaining: u32 = if budget > count { budget - count } else { 0 };
    proof {
        assert(ints(assigned@) =~= Seq::new(n as nat, |q: int| 1int));
        assert(ints(desired@) =~= Seq::new(n as nat, |q: int| desired_of(ds0[ord[q]])));
    }
    rr_rounds_exec(&mut assigned, &desired, remaining);
    let ghost asg = group_assignment(ds0, ord, budget as int);
    assert(ints(assigned@) == asg);
    proof { lemma_rr_rounds(Seq::new(n as nat, |q: int| 1int), Seq::new(n as nat, |q: int| desired_of(ds0[ord[q]])), remaining as int); }
    let mut j: usize = 0;
    while j < n
        invariant
            j <= n == order@.len() == assigned@.len(),
            ord == order@.map_values(|c: usize| c as int),
            ord.no_duplicates(),
            ord.len() == g.len(),
            forall|q: int| 0 <= q < g.len() ==> g.contains(#[trigger] ord[q]),
            forall|x: int| g.contains(x) ==> #[trigger] ord.contains(x),
            forall|q: int| 0 <= q < order@.len() ==> order@[q] < ds0.len(),
            ints(assigned@) == asg,
            forall|q: int| 0 <= q < n ==> 1 <= #[trigger] asg[q],
            downloads@.len() == ds0.len(),
            forall|q: int| 0 <= q < j ==> member_result(ds0[ord[q]], #[trigger] downloads@[ord[q]], asg[q], *settings),
            forall|i: int| 0 <= i < ds0.len() && !(exists|q: int| 0 <= q < j && ord[q] == i) ==> #[trigger] downloads@[i] == ds0[i],
        decreases n - j,
    {
        let idx = order[j];
        assert(ord[j as int] == idx as int);
        assert(!(exists|q: int| 0 <= q < j && ord[q] == idx as int));
        assert(downloads@[idx as int] == ds0[idx as int]);
        let cap = if downloads[idx].max_connections > 1 { downloads[idx].max_connections } else { 1 };
        let a = assigned[j];
        let t = if a < cap { a } else { cap };
        downloads[idx].target_connections = t;
        crate::download_plan::ensure_segment_plan(&mut downloads[idx], settings);
        assert(member_result(ds0[idx as int], downloads@[idx as int], asg[j as int], *settings));
        j = j + 1;
    }
    proof {
        assert forall|i: int| 0 <= i < ds0.len() && !g.contains(i) implies #[trigger] downloads@[i] == ds0[i] by {
            if exists|q: int| 0 <= q < n && ord[q] == i {
                let q = choose|q: int| 0 <= q < n && ord[q] == i;
                assert(g.contains(ord[q]));
            }
        }
    }
}

/// Running downloads among the first `n`.
pub open spec fn count_active(ds: Seq<DownloadRecord>, n: int) -> int
    decreases n,
{
    if n <= 0 { 0 } else { count_active(ds, n - 1) + if ds[n - 1].status == DownloadStatus::Downloading { 1int } else { 0int } }
}

/// Running downloads of host `h` among the first `n`.
pub open spec fn host_active(ds: Seq<DownloadRecord>, h: Seq<char>, n: int) -> int
    decreases n,
{
    if n <= 0 { 0 } else {
        host_active(ds, h, n - 1) + if ds[n - 1].status == DownloadStatus::Downloading && ds[n - 1].host@ == h { 1int } else { 0int }
    }
}

/// The most connections a running download of host `h` among the first `n` asks for.
pub open spec fn host_requested(ds: Seq<DownloadRecord>, h: Seq<char>, n: int) -> Option<int>
    decreases n,
{
    if n <= 0 {
        None
    } else {
        let rest = host_requested(ds, h, n - 1);
        if ds[n - 1].status == DownloadStatus::Downloading && ds[n - 1].host@ == h {
            match rest {
                Some(v) => Some(crate::arith::max_int(v, cap_of(ds[n - 1]))),
                None => Some(cap_of(ds[n - 1])),
            }
        } else {
            rest
        }
    }
}

/// The connections the host of download `c` may have once it starts.
pub open spec fn launch_cap(ds: Seq<DownloadRecord>, c: int, settings: EngineSettings, profiles: Seq<HostProfileEntry>, now: i64) -> int {
    let h = ds[c].host@;
    let base = match host_requested(ds, h, ds.len() as int) { Some(v) => v, None => 16 };
    host_budget_spec(crate::arith::max_int(base, cap_of(ds[c])), settings, profile_of(profiles, h), now)
}

/// A download may start when it is queued and the queue runs or it was started by hand.
pub open spec fn can_launch(d: DownloadRecord, queue_running: bool) -> bool {
    d.status == DownloadStatus::Queued && (queue_running || d.manual_start_requested)
}

/// The positions among the first `n` of downloads that may start.
pub open spec fn launch_candidates(ds: Seq<DownloadRecord>, queue_running: bool, n: int) -> Seq<int>
    decreases n,
{
    if n <= 0 { Seq::empty() } else {
        let rest = launch_candidates(ds, queue_running, n - 1);
        if can_launch(ds[n - 1], queue_running) { rest.push(n - 1) } else { rest }
    }
}

/// The positions among the first `n` of running downloads.
pub open spec fn active_positions(ds: Seq<DownloadRecord>, n: int) -> Seq<int>
    decreases n,
{
    if n <= 0 { Seq::empty() } else {
        let rest = active_positions(ds, n - 1);
        if ds[n - 1].status == DownloadStatus::Downloading { rest.push(n - 1) } else { rest }
    }
}

/// Starting downloads in `order`: nothing more once `limit` run; a download whose host
/// already runs as many as it may is passed over; any other starts.
pub open spec fn launch_run(
    ds: Seq<DownloadRecord>,
    order: Seq<int>,
    limit: int,
    settings: EngineSettings,
    profiles: Seq<HostProfileEntry>,
    now: i64,
) -> (Seq<DownloadRecord>, Seq<int>)
    decreases order.len(),
{
    if order.len() == 0 || count_active(ds, ds.len() as int) >= limit {
        (ds, Seq::empty())
    } else {
        let c = order[0];
        let rest = order.drop_first();
        if 0 <= c < ds.len() && host_active(ds, ds[c].host@, ds.len() as int) < launch_cap(ds, c, settings, profiles, now) {
            let ds2 = ds.update(c, DownloadRecord { status: DownloadStatus::Downloading, ..ds[c] });
            let (f, l) = launch_run(ds2, rest, limit, settings, profiles, now);
            (f, seq![c] + l)
        } else {
            launch_run(ds, rest, limit, settings, profiles, now)
        }
    }
}

proof fn lemma_count_active_update(ds: Seq<DownloadRecord>, c: int, d: DownloadRecord, n: int)
    requires
        0 <= c < ds.len(),
        0 <= n <= ds.len(),
    ensures
        count_active(ds.update(c, d), n) <= count_active(ds, n) + 1,
        count_active(ds, n) >= 0,
    decreases n,
{
    if n > 0 {
        lemma_count_active_update(ds, c, d, n - 1);
        if n - 1 != c {
            assert(ds.update(c, d)[n - 1] == ds[n - 1]);
            if c < n - 1 {
                assert(count_active(ds.update(c, d), n) <= count_active(ds, n) + 1);
            } else {
                lemma_count_active_same_prefix(ds, c, d, n);
            }
        } else {
            lemma_count_active_same_prefix(ds, c, d, n - 1);
        }
    }
}

proof fn lemma_count_active_same_prefix(ds: Seq<DownloadRecord>, c: int, d: DownloadRecord, n: int)
    requires
        0 <= c < ds.len(),
        0 <= n <= c,
    ensures
        count_active(ds.update(c, d), n) == count_active(ds, n),
    decreases n,
{
    if n > 0 {
        lemma_count_active_same_prefix(ds, c, d, n - 1);
        assert(ds.update(c, d)[n - 1] == ds[n - 1]);
    }
}

/// Starting queued downloads never takes the number running above the active limit, nor
/// above the number that ran before.
pub proof fn lemma_launch_respects_limit(
    ds: Seq<DownloadRecord>,
    order: Seq<int>,
    limit: int,
    settings: EngineSettings,
    profiles: Seq<HostProfileEntry>,
    now: i64,
)
    ensures
        ({
            let (f, l) = launch_run(ds, order, limit, settings, profiles, now);
            &&& f.len() == ds.len()
            &&& count_active(f, f.len() as int) <= crate::arith::max_int(count_active(ds, ds.len() as int), limit)
        }),
    decreases order.len(),
{
    if order.len() == 0 || count_active(ds, ds.len() as int) >= limit {
    } else {
        let c = order[0];
        let rest = order.drop_first();
        if 0 <= c < ds.len() && host_active(ds, ds[c].host@, ds.len() as int) < launch_cap(ds, c, settings, profiles, now) {
            let d2 = DownloadRecord { status: DownloadStatus::Downloading, ..ds[c] };
            let ds2 = ds.update(c, d2);
            lemma_count_active_update(ds, c, d2, ds.len() as int);
            lemma_launch_respects_limit(ds2, rest, limit, settings, profiles, now);
        } else {
            lemma_launch_respects_limit(ds, rest, limit, settings, profiles, now);
        }
    }
}

/// The profile of a host in a profile list.
pub fn profile_in<'a>(entries: &'a Vec<HostProfileEntry>, host: &str) -> (r: Option<&'a HostProfile>)
    ensures
        crate::host_planner::opt_profile(r) == profile_of(entries@, host@),
{
    proof { crate::registry::lemma_host_pos(entries@, host@); }
    let mut i: usize = 0;
    while i < entries.len()
        invariant
            i <= entries@.len(),
            forall|j: int| 0 <= j < i ==> entries@[j].host@ != host@,
            crate::registry::host_pos(entries@, host@) matches Some(p) ==> 0 <= p < entries@.len()
                && entries@[p].host@ == host@ && forall|j: int| 0 <= j < p ==> entries@[j].host@ != host@,
            crate::registry::host_pos(entries@, host@) is None ==> forall|j: int| 0 <= j < entries@.len() ==> entries@[j].host@ != host@,
        decreases entries@.len() - i,
    {
        if crate::text::str_equal(entries[i].host.as_str(), host) {
            return Some(&entries[i].profile);
        }
        i = i + 1;
    }
    None
}

fn count_active_exec(ds: &Vec<DownloadRecord>) -> (r: usize)
    ensures
        r == count_active(ds@, ds@.len() as int),
{
    let mut n: usize = 0;
    let mut i: usize = 0;
    while i < ds.len()
        invariant
            i <= ds@.len(),
            n == count_active(ds@, i as int),
            n <= i,
        decreases ds@.len() - i,
    {
        if ds[i].status == DownloadStatus::Downloading {
            n = n + 1;
        }
        i = i + 1;
    }
    n
}

fn host_load(ds: &Vec<DownloadRecord>, host: &str) -> (r: (usize, Option<u32>))
    ensures
        r.0 == host_active(ds@, host@, ds@.len() as int),
        match r.1 {
            Some(v) => host_requested(ds@, host@, ds@.len() as int) == Some(v as int),
            None => host_requested(ds@, host@, ds@.len() as int) is None,
        },
{
    let mut n: usize = 0;
    let mut req: Option<u32> = None;
    let mut i: usize = 0;
    while i < ds.len()
        invariant
            i <= ds@.len(),
            n == host_active(ds@, host@, i as int),
            n <= i,
            match req {
                Some(v) => host_requested(ds@, host@, i as int) == Some(v as int),
                None => host_requested(ds@, host@, i as int) is None,
            },
        decreases ds@.len() - i,
    {
        if ds[i].status == DownloadStatus::Downloading && crate::text::str_equal(ds[i].host.as_str(), host) {
            n = n + 1;
            let c = if ds[i].max_connections > 1 { ds[i].max_connections } else { 1 };
            req = match req {
                Some(v) => Some(if c > v { c } else { v }),
                None => Some(c),
            };
        }
        i = i + 1;
    }
    (n, req)
}

/// Starts queued downloads in dispatch order while the limits allow; returns the positions
/// started, in order.
pub fn launch_queued(
    downloads: &mut Vec<DownloadRecord>,
    order: &Vec<usize>,
    limit: usize,
    settings: &EngineSettings,
    profiles: &Vec<HostProfileEntry>,
    now: i64,
) -> (launched: Vec<usize>)
    requires
        forall|k: int| 0 <= k < order@.len() ==> order@[k] < old(downloads)@.len(),
    ensures
        (final(downloads)@, launched@.map_values(|c: usize| c as int))
            == launch_run(old(downloads)@, order@.map_values(|c: usize| c as int), limit as int, *settings, profiles@, now),
{
    let ghost ord = order@.map_values(|c: usize| c as int);
    let ghost target = launch_run(downloads@, ord, limit as int, *settings, profiles@, now);
    let mut launched: Vec<usize> = Vec::new();
    let mut k: usize = 0;
    assert(ord.skip(0) =~= ord);
    while k < order.len()
        invariant
            k <= order@.len(),
            ord == order@.map_values(|c: usize| c as int),
            downloads@.len() == old(downloads)@.len(),
            forall|q: int| 0 <= q < order@.len() ==> order@[q] < downloads@.len(),
            target == launch_run(old(downloads)@, ord, limit as int, *settings, profiles@, now),
            target == ({
                let (f, l) = launch_run(downloads@, ord.skip(k as int), limit as int, *settings, profiles@, now);
                (f, launched@.map_values(|c: usize| c as int) + l)
            }),
        decreases order@.len() - k,
    {
        let ghost rest = ord.skip(k as int);
        assert(rest.drop_first() =~= ord.skip(k + 1));
        assert(rest[0] == order@[k as int] as int);
        let active = count_active_exec(downloads);
        if active >= limit {
            assert(launch_run(downloads@, rest, limit as int, *settings, profiles@, now) == (downloads@, Seq::<int>::empty()));
            assert(launched@.map_values(|c: usize| c as int) + Seq::<int>::empty() =~= launched@.map_values(|c: usize| c as int));
            return launched;
        }
        let c = order[k];
        let host = downloads[c].host.clone();
        let (running, requested) = host_load(downloads, host.as_str());
        let cap = if downloads[c].max_connections > 1 { downloads[c].max_connections } else { 1 };
        let base: u32 = match requested { Some(v) => v, None => 16 };
        let asked = if base > cap { base } else { cap };
        let profile = profile_in(profiles, host.as_str());
        let target_conn = crate::host_planner::connection_target_at(if asked > 1 { asked } else { 1 }, settings, profile, None, now);
        let host_cap: u32 = if target_conn > 1 { target_conn } else { 1 };
        assert(host_cap == launch_cap(downloads@, c as int, *settings, profiles@, now));
        if (running as u64) < (host_cap as u64) {
            let ghost before = downloads@;
            downloads[c].status = DownloadStatus::Downloading;
            assert(downloads@ =~= before.update(c as int, DownloadRecord { status: DownloadStatus::Downloading, ..before[c as int] }));
            let ghost lbefore = launched@.map_values(|x: usize| x as int);
            launched.push(c);
            assert(launched@.map_values(|x: usize| x as int) =~= lbefore.push(c as int));
            proof {
                let (f, l) = launch_run(downloads@, ord.skip(k + 1), limit as int, *settings, profiles@, now);
                assert(lbefore + (seq![c as int] + l) =~= lbefore.push(c as int) + l);
            }
        }
        k = k + 1;
    }
    proof {
        assert(ord.skip(k as int) =~= Seq::<int>::empty());
        assert(launched@.map_values(|c: usize| c as int) + Seq::<int>::empty() =~= launched@.map_values(|c: usize| c as int));
    }
    launched
}

pub proof fn lemma_launch_run(
    ds: Seq<DownloadRecord>,
    order: Seq<int>,
    limit: int,
    settings: EngineSettings,
    profiles: Seq<HostProfileEntry>,
    now: i64,
)
    requires
        order.no_duplicates(),
        forall|k: int| 0 <= k < order.len() ==> 0 <= #[trigger] order[k] < ds.len() && ds[order[k]].status != DownloadStatus::Downloading,
    ensures
        ({
            let (f, l) = launch_run(ds, order, limit, settings, profiles, now);
            &&& f.len() == ds.len()
            &&& l.no_duplicates()
            &&& forall|k: int| 0 <= k < l.len() ==> order.contains(#[trigger] l[k])
            &&& forall|i: int| 0 <= i < ds.len() ==> #[trigger] f[i] == (if l.contains(i) {
                DownloadRecord { status: DownloadStatus::Downloading, ..ds[i] }
            } else {
                ds[i]
            })
        }),
    decreases order.len(),
{
    if order.len() == 0 || count_active(ds, ds.len() as int) >= limit {
    } else {
        let c = order[0];
        let rest = order.drop_first();
        assert(rest.no_duplicates()) by {
            assert forall|a: int, b: int| 0 <= a < rest.len() && 0 <= b < rest.len() && a != b implies rest[a] != rest[b] by {
                assert(rest[a] == order[a + 1] && rest[b] == order[b + 1]);
            }
        }
        assert forall|k: int| 0 <= k < rest.len() implies rest[k] != c by {
            assert(rest[k] == order[k + 1]);
        }
        if 0 <= c < ds.len() && host_active(ds, ds[c].host@, ds.len() as int) < launch_cap(ds, c, settings, profiles, now) {
            let ds2 = ds.update(c, DownloadRecord { status: DownloadStatus::Downloading, ..ds[c] });
            assert forall|k: int| 0 <= k < rest.len() implies 0 <= #[trigger] rest[k] < ds2.len()
                && ds2[rest[k]].status != DownloadStatus::Downloading by {
                assert(rest[k] == order[k + 1]);
            }
            lemma_launch_run(ds2, rest, limit, settings, profiles, now);
            let (f, l) = launch_run(ds2, rest, limit, settings, profiles, now);
            let l2 = seq![c] + l;
            assert(!l.contains(c)) by {
                if l.contains(c) {
                    let k = choose|k: int| 0 <= k < l.len() && l[k] == c;
                    assert(rest.contains(l[k]));
                }
            }
            assert forall|k: int| 0 <= k < l2.len() implies order.contains(#[trigger] l2[k]) by {
                if k == 0 {
                    assert(order[0] == c);
                } else {
                    assert(l2[k] == l[k - 1]);
                    assert(rest.contains(l[k - 1]));
                    let m = choose|m: int| 0 <= m < rest.len() && rest[m] == l[k - 1];
                    assert(order[m + 1] == l[k - 1]);
                }
            }
            assert(l2.no_duplicates()) by {
                assert forall|a: int, b: int| 0 <= a < l2.len() && 0 <= b < l2.len() && a != b implies l2[a] != l2[b] by {
                    if a == 0 {
                        assert(l2[b] == l[b - 1]);
                    } else if b == 0 {
                        assert(l2[a] == l[a - 1]);
                    } else {
                        assert(l2[a] == l[a - 1] && l2[b] == l[b - 1]);
                    }
                }
            }
            assert forall|i: int| 0 <= i < ds.len() implies #[trigger] f[i] == (if l2.contains(i) {
                DownloadRecord { status: DownloadStatus::Downloading, ..ds[i] }
            } else {
                ds[i]
            }) by {
                if i == c {
                    assert(l2[0] == c);
                } else {
                    if l2.contains(i) {
                        let k = choose|k: int| 0 <= k < l2.len() && l2[k] == i;
                        assert(l[k - 1] == i);
                        assert(l.contains(i));
                    }
                    if l.contains(i) {
                        let k = choose|k: int| 0 <= k < l.len() && l[k] == i;
                        assert(l2[k + 1] == i);
                    }
                }
            }
        } else {
            assert forall|k: int| 0 <= k < rest.len() implies 0 <= #[trigger] rest[k] < ds.len()
                && ds[rest[k]].status != DownloadStatus::Downloading by {
                assert(rest[k] == order[k + 1]);
            }
            lemma_launch_run(ds, rest, limit, settings, profiles, now);
            let (f, l) = launch_run(ds, rest, limit, settings, profiles, now);
            assert forall|k: int| 0 <= k < l.len() implies order.contains(#[trigger] l[k]) by {
                assert(rest.contains(l[k]));
                let m = choose|m: int| 0 <= m < rest.len() && rest[m] == l[k];
                assert(order[m + 1] == l[k]);
            }
        }
    }
}

/// The running downloads of host `h` among `active`, in that order.
pub open spec fn host_group(active: Seq<int>, ds: Seq<DownloadRecord>, h: Seq<char>) -> Seq<int>
    decreases active.len(),
{
    if active.len() == 0 { Seq::empty() } else {
        let rest = host_group(active.drop_last(), ds, h);
        if ds[active.last()].host@ == h { rest.push(active.last()) } else { rest }
    }
}

/// A running download after its host's connections were shared out.
pub open spec fn member_ok(
    ds2: Seq<DownloadRecord>,
    ds3: Seq<DownloadRecord>,
    active: Seq<int>,
    i: int,
    settings: EngineSettings,
    profiles: Seq<HostProfileEntry>,
    now: i64,
) -> bool {
    let h = ds2[i].host@;
    let group = host_group(active, ds2, h);
    let order = dispatch_order(ds2, group);
    let budget = host_budget_spec(group_requested(ds2, group, group.len() as int), settings, profile_of(profiles, h), now);
    let assigned = group_assignment(ds2, order, budget);
    exists|j: int| 0 <= j < order.len() && order[j] == i && member_result(ds2[i], ds3[i], #[trigger] assigned[j], settings)
}

pub proof fn lemma_first_min_pos_congr(a: Seq<DownloadRecord>, b: Seq<DownloadRecord>, cands: Seq<int>, n: int)
    requires
        0 <= n <= cands.len(),
        forall|k: int| 0 <= k < cands.len() ==> a[#[trigger] cands[k]] == b[cands[k]],
    ensures
        first_min_pos(a, cands, n) == first_min_pos(b, cands, n),
    decreases n,
{
    if n > 1 {
        lemma_first_min_pos_congr(a, b, cands, n - 1);
        lemma_first_min_pos_bounds(a, cands, n - 1);
    }
}

pub proof fn lemma_dispatch_order_congr(a: Seq<DownloadRecord>, b: Seq<DownloadRecord>, cands: Seq<int>)
    requires
        forall|k: int| 0 <= k < cands.len() ==> a[#[trigger] cands[k]] == b[cands[k]],
    ensures
        dispatch_order(a, cands) == dispatch_order(b, cands),
    decreases cands.len(),
{
    if cands.len() > 0 {
        lemma_first_min_pos_congr(a, b, cands, cands.len() as int);
        let p = first_min_pos(a, cands, cands.len() as int);
        lemma_first_min_pos_bounds(a, cands, cands.len() as int);
        let rest = cands.remove(p);
        assert forall|k: int| 0 <= k < rest.len() implies a[#[trigger] rest[k]] == b[rest[k]] by {
            if k < p { assert(rest[k] == cands[k]); } else { assert(rest[k] == cands[k + 1]); }
        }
        lemma_dispatch_order_congr(a, b, rest);
    }
}

pub proof fn lemma_group_requested_congr(a: Seq<DownloadRecord>, b: Seq<DownloadRecord>, group: Seq<int>, n: int)
    requires
        0 <= n <= group.len(),
        forall|k: int| 0 <= k < group.len() ==> a[#[trigger] group[k]] == b[group[k]],
    ensures
        group_requested(a, group, n) == group_requested(b, group, n),
    decreases n,
{
    if n > 0 {
        lemma_group_requested_congr(a, b, group, n - 1);
    }
}

pub proof fn lemma_group_assignment_congr(a: Seq<DownloadRecord>, b: Seq<DownloadRecord>, order: Seq<int>, budget: int)
    requires
        forall|k: int| 0 <= k < order.len() ==> a[#[trigger] order[k]] == b[order[k]],
    ensures
        group_assignment(a, order, budget) == group_assignment(b, order, budget),
{
    let n = order.len();
    assert(Seq::new(n, |j: int| desired_of(a[order[j]])) =~= Seq::new(n, |j: int| desired_of(b[order[j]])));
}

pub proof fn lemma_host_group(active: Seq<int>, ds: Seq<DownloadRecord>, h: Seq<char>)
    ensures
        forall|x: int| #[trigger] host_group(active, ds, h).contains(x) <==> active.contains(x) && ds[x].host@ == h,
        active.no_duplicates() ==> host_group(active, ds, h).no_duplicates(),
        forall|k: int| 0 <= k < host_group(active, ds, h).len() ==> active.contains(#[trigger] host_group(active, ds, h)[k]),
    decreases active.len(),
{
    if active.len() > 0 {
        let rest = active.drop_last();
        lemma_host_group(rest, ds, h);
        let g = host_group(active, ds, h);
        let rg = host_group(rest, ds, h);
        assert forall|x: int| #[trigger] g.contains(x) <==> active.contains(x) && ds[x].host@ == h by {
            if active.contains(x) && ds[x].host@ == h {
                let k = choose|k: int| 0 <= k < active.len() && active[k] == x;
                if k < active.len() - 1 {
                    assert(rest[k] == x);
                    assert(rest.contains(x));
                    assert(rg.contains(x));
                    let m = choose|m: int| 0 <= m < rg.len() && rg[m] == x;
                    if ds[active.last()].host@ == h { assert(g[m] == x); } else { assert(g[m] == x); }
                } else {
                    assert(g.last() == x);
                }
            }
            if g.contains(x) {
                let m = choose|m: int| 0 <= m < g.len() && g[m] == x;
                if ds[active.last()].host@ == h && m == g.len() - 1 {
                    assert(active.last() == x);
                } else {
                    assert(rg[m] == x);
                    assert(rg.contains(x));
                    let k = choose|k: int| 0 <= k < rest.len() && rest[k] == x;
                    assert(active[k] == x);
                }
            }
        }
        assert forall|k: int| 0 <= k < g.len() implies active.contains(#[trigger] g[k]) by {
            assert(g.contains(g[k]));
        }
        if active.no_duplicates() {
            assert(rest.no_duplicates()) by {
                assert forall|a: int, b: int| 0 <= a < rest.len() && 0 <= b < rest.len() && a != b implies rest[a] != rest[b] by {
                    assert(rest[a] == active[a] && rest[b] == active[b]);
                }
            }
            if ds[active.last()].host@ == h {
                assert(!rg.contains(active.last())) by {
                    if rg.contains(active.last()) {
                        assert(rest.contains(active.last()));
                        let k = choose|k: int| 0 <= k < rest.len() && rest[k] == active.last();
                        assert(active[k] == active[active.len() - 1]);
                    }
                }
                assert(g.no_duplicates()) by {
                    assert forall|a: int, b: int| 0 <= a < g.len() && 0 <= b < g.len() && a != b implies g[a] != g[b] by {
                        if a == g.len() - 1 {
                            assert(rg.contains(g[b]) || b == g.len() - 1);
                            assert(g[b] == rg[b]);
                        } else if b == g.len() - 1 {
                            assert(g[a] == rg[a]);
                        } else {
                            assert(g[a] == rg[a] && g[b] == rg[b]);
                        }
                    }
                }
            }
        }
    }
}

pub proof fn lemma_host_group_congr(active: Seq<int>, a: Seq<DownloadRecord>, b: Seq<DownloadRecord>, h: Seq<char>)
    requires
        forall|k: int| 0 <= k < active.len() ==> a[#[trigger] active[k]].host == b[active[k]].host,
    ensures
        host_group(active, a, h) == host_group(active, b, h),
    decreases active.len(),
{
    if active.len() > 0 {
        let rest = active.drop_last();
        assert forall|k: int| 0 <= k < rest.len() implies a[#[trigger] rest[k]].host == b[rest[k]].host by {
            assert(rest[k] == active[k]);
        }
        lemma_host_group_congr(rest, a, b, h);
        assert(a[active[active.len() - 1]].host == b[active[active.len() - 1]].host);
    }
}

fn host_listed(hosts: &Vec<String>, host: &str) -> (r: bool)
    ensures
        r == hosts@.map_values(|x: String| x@).contains(host@),
{
    let ghost hv = hosts@.map_values(|x: String| x@);
    let mut i: usize = 0;
    while i < hosts.len()
        invariant
            i <= hosts@.len(),
            hv == hosts@.map_values(|x: String| x@),
            forall|j: int| 0 <= j < i ==> hv[j] != host@,
        decreases hosts@.len() - i,
    {
        if crate::text::str_equal(hosts[i].as_str(), host) {
            assert(hv[i as int] == host@);
            return true;
        }
        i = i + 1;
    }
    false
}

fn collect_host_group(downloads: &Vec<DownloadRecord>, active: &Vec<usize>, host: &str) -> (r: Vec<usize>)
    requires
        forall|k: int| 0 <= k < active@.len() ==> active@[k] < downloads@.len(),
    ensures
        r@.map_values(|c: usize| c as int) == host_group(active@.map_values(|c: usize| c as int), downloads@, host@),
        forall|k: int| 0 <= k < r@.len() ==> r@[k] < downloads@.len(),
{
    let ghost av = active@.map_values(|c: usize| c as int);
    let mut out: Vec<usize> = Vec::new();
    let mut k: usize = 0;
    while k < active.len()
        invariant
            k <= active@.len(),
            av == active@.map_values(|c: usize| c as int),
            forall|q: int| 0 <= q < active@.len() ==> active@[q] < downloads@.len(),
            forall|q: int| 0 <= q < out@.len() ==> out@[q] < downloads@.len(),
            out@.map_values(|c: usize| c as int) == host_group(av.take(k as int), downloads@, host@),
        decreases active@.len() - k,
    {
        assert(av.take(k + 1).drop_last() =~= av.take(k as int));
        assert(av.take(k + 1).last() == active@[k as int] as int);
        let ghost before = out@.map_values(|c: usize| c as int);
        if crate::text::str_equal(downloads[active[k]].host.as_str(), host) {
            out.push(active[k]);
            assert(out@.map_values(|c: usize| c as int) =~= before.push(active@[k as int] as int));
        }
        k = k + 1;
    }
    assert(av.take(av.len() as int) =~= av);
    out
}

/// A download after a sharing round: a running one got its share, any other is unchanged.
pub open spec fn shared_ok(
    ds2: Seq<DownloadRecord>,
    ds3: Seq<DownloadRecord>,
    active: Seq<int>,
    i: int,
    settings: EngineSettings,
    profiles: Seq<HostProfileEntry>,
    now: i64,
) -> bool {
    if active.contains(i) {
        member_ok(ds2, ds3, active, i, settings, profiles, now)
    } else {
        ds3[i] == ds2[i]
    }
}

/// Shares each host's connections among its running downloads `active` (distinct positions).
pub fn share_host_connections(
    downloads: &mut Vec<DownloadRecord>,
    active: &Vec<usize>,
    settings: &EngineSettings,
    profiles: &Vec<HostProfileEntry>,
    now: i64,
)
    requires
        forall|k: int| 0 <= k < active@.len() ==> active@[k] < old(downloads)@.len(),
        active@.no_duplicates(),
    ensures
        final(downloads)@.len() == old(downloads)@.len(),
        forall|i: int| 0 <= i < old(downloads)@.len() ==> #[trigger] shared_ok(old(downloads)@, final(downloads)@, positions(active@), i,
            *settings, profiles@, now),
{
    let ghost ds0 = downloads@;
    let ghost av = active@.map_values(|c: usize| c as int);
    proof {
        assert(av.no_duplicates()) by {
            assert forall|a: int, b: int| 0 <= a < av.len() && 0 <= b < av.len() && a != b implies av[a] != av[b] by {
                assert(active@[a] != active@[b]);
            }
        }
    }
    let mut processed: Vec<String> = Vec::new();
    let mut k: usize = 0;
    while k < active.len()
        invariant
            k <= active@.len(),
            av == active@.map_values(|c: usize| c as int),
            av.no_duplicates(),
            forall|q: int| 0 <= q < active@.len() ==> active@[q] < ds0.len(),
            downloads@.len() == ds0.len(),
            forall|i: int| 0 <= i < ds0.len() ==> #[trigger] downloads@[i].host == ds0[i].host,
            forall|i: int| 0 <= i < ds0.len() && av.contains(i) && processed@.map_values(|x: String| x@).contains(ds0[i].host@)
                ==> member_ok(ds0, downloads@, av, i, *settings, profiles@, now),
            forall|i: int| 0 <= i < ds0.len() && !(av.contains(i) && processed@.map_values(|x: String| x@).contains(ds0[i].host@))
                ==> #[trigger] downloads@[i] == ds0[i],
            forall|q: int| 0 <= q < k ==> processed@.map_values(|x: String| x@).contains(ds0[#[trigger] av[q]].host@),
        decreases active@.len() - k,
    {
        let a = active[k];
        let host = downloads[a].host.clone();
        assert(host@ == ds0[a as int].host@);
        let ghost pv = processed@.map_values(|x: String| x@);
        if !host_listed(&processed, host.as_str()) {
            let ghost cur = downloads@;
            let group = collect_host_group(downloads, active, host.as_str());
            let ghost gv = group@.map_values(|c: usize| c as int);
            proof {
                lemma_host_group_congr(av, cur, ds0, host@);
                lemma_host_group(av, ds0, host@);
                assert(gv == host_group(av, ds0, host@));
                assert forall|q: int| 0 <= q < gv.len() implies cur[#[trigger] gv[q]] == ds0[gv[q]] by {
                    assert(gv.contains(gv[q]));
                    assert(ds0[gv[q]].host@ == host@);
                }
                assert(group@.no_duplicates()) by {
                    assert forall|x: int, y: int| 0 <= x < group@.len() && 0 <= y < group@.len() && x != y implies group@[x] != group@[y] by {
                        assert(gv[x] != gv[y]);
                    }
                }
                lemma_dispatch_order_congr(cur, ds0, gv);
                lemma_group_requested_congr(cur, ds0, gv, gv.len() as int);
                lemma_dispatch_order_perm(ds0, gv);
            }
            let profile = profile_in(profiles, host.as_str());
            rebalance_host_active_targets(downloads, settings, profile, &group, now);
            proof {
                let order = dispatch_order(ds0, gv);
                assert forall|q: int| 0 <= q < order.len() implies cur[#[trigger] order[q]] == ds0[order[q]] by {
                    assert(gv.contains(order[q]));
                    let m = choose|m: int| 0 <= m < gv.len() && gv[m] == order[q];
                }
                let budget = host_budget_spec(group_requested(ds0, gv, gv.len() as int), *settings, profile_of(profiles@, host@), now);
                lemma_group_assignment_congr(cur, ds0, order, budget);
            }
            let ghost next = downloads@;
            processed.push(host);
            proof {
                let pv2 = processed@.map_values(|x: String| x@);
                assert(pv2 =~= pv.push(host@));
                let order = dispatch_order(ds0, gv);
                let budget = host_budget_spec(group_requested(ds0, gv, gv.len() as int), *settings, profile_of(profiles@, host@), now);
                let asg = group_assignment(ds0, order, budget);
                assert forall|i: int| 0 <= i < ds0.len() && av.contains(i) && pv2.contains(ds0[i].host@)
                    implies member_ok(ds0, next, av, i, *settings, profiles@, now) by {
                    if ds0[i].host@ == host@ {
                        assert(gv.contains(i));
                        assert(order.contains(i));
                        let j = choose|j: int| 0 <= j < order.len() && order[j] == i;
                        assert(member_result(cur[order[j]], next[order[j]], asg[j], *settings));
                        assert(member_result(ds0[i], next[i], asg[j], *settings));
                    } else {
                        assert(pv.contains(ds0[i].host@)) by {
                            let m = choose|m: int| 0 <= m < pv2.len() && pv2[m] == ds0[i].host@;
                            assert(m < pv.len());
                            assert(pv[m] == ds0[i].host@);
                        }
                        assert(!gv.contains(i));
                        assert(next[i] == cur[i]);
                        assert(member_ok(ds0, cur, av, i, *settings, profiles@, now));
                        let h = ds0[i].host@;
                        let g2 = host_group(av, ds0, h);
                        let o2 = dispatch_order(ds0, g2);
                        let b2 = host_budget_spec(group_requested(ds0, g2, g2.len() as int), *settings, profile_of(profiles@, h), now);
                        let a2 = group_assignment(ds0, o2, b2);
                        let j = choose|j: int| 0 <= j < o2.len() && o2[j] == i && member_result(ds0[i], cur[i], #[trigger] a2[j], *settings);
                        assert(member_result(ds0[i], next[i], a2[j], *settings));
                    }
                }
                assert forall|i: int| 0 <= i < ds0.len() && !(av.contains(i) && pv2.contains(ds0[i].host@))
                    implies #[trigger] next[i] == ds0[i] by {
                    assert(!(av.contains(i) && pv.contains(ds0[i].host@))) by {
                        if av.contains(i) && pv.contains(ds0[i].host@) {
                            let m = choose|m: int| 0 <= m < pv.len() && pv[m] == ds0[i].host@;
                            assert(pv2[m] == ds0[i].host@);
                        }
                    }
                    if gv.contains(i) {
                        assert(av.contains(i) && ds0[i].host@ == host@);
                        assert(pv2[pv.len() as int] == host@);
                    }
                }
                assert forall|q: int| 0 <= q < k + 1 implies pv2.contains(ds0[#[trigger] av[q]].host@) by {
                    if q == k {
                        assert(pv2[pv.len() as int] == host@);
                    } else {
                        let m = choose|m: int| 0 <= m < pv.len() && pv[m] == ds0[av[q]].host@;
                        assert(pv2[m] == ds0[av[q]].host@);
                    }
                }
            }
        }
        k = k + 1;
    }
    proof {
        let pv = processed@.map_values(|x: String| x@);
        assert forall|i: int| 0 <= i < ds0.len() && av.contains(i) implies pv.contains(ds0[i].host@) by {
            let q = choose|q: int| 0 <= q < av.len() && av[q] == i;
            assert(pv.contains(ds0[av[q]].host@));
        }
    }
}

/// A lock reason as values.
pub open spec fn lock_view(r: Option<crate::model::LockReason>) -> Option<(int, Seq<char>)> {
    match r {
        None => None,
        Some(crate::model::LockReason::ProbeFailures) => Some((0int, Seq::empty())),
        Some(crate::model::LockReason::CooldownActive) => Some((1int, Seq::empty())),
        Some(crate::model::LockReason::RampNoGain) => Some((2int, Seq::empty())),
        Some(crate::model::LockReason::Other(s)) => Some((3int, s@)),
    }
}

/// A host summary as values.
pub open spec fn summary_view(h: crate::model::HostDiagnosticsSummary) -> (bool, bool, Option<(int, Seq<char>)>, Option<i64>, Option<Seq<char>>, Option<bool>) {
    (h.hard_no_range, h.concurrency_locked, lock_view(h.lock_reason), h.cooldown_until, opt_text(h.negotiated_protocol), h.reuse_connections)
}

fn same_opt_text(a: &Option<String>, b: &Option<String>) -> (r: bool)
    ensures
        r == (opt_text(*a) == opt_text(*b)),
{
    match (a, b) {
        (Some(x), Some(y)) => crate::text::str_equal(x.as_str(), y.as_str()),
        (None, None) => true,
        _ => false,
    }
}

fn same_lock(a: &Option<crate::model::LockReason>, b: &Option<crate::model::LockReason>) -> (r: bool)
    ensures
        r == (lock_view(*a) == lock_view(*b)),
{
    match (a, b) {
        (None, None) => true,
        (Some(LockReason::ProbeFailures), Some(LockReason::ProbeFailures)) => true,
        (Some(LockReason::CooldownActive), Some(LockReason::CooldownActive)) => true,
        (Some(LockReason::RampNoGain), Some(LockReason::RampNoGain)) => true,
        (Some(LockReason::Other(x)), Some(LockReason::Other(y))) => crate::text::str_equal(x.as_str(), y.as_str()),
        _ => false,
    }
}

fn same_summary(a: &crate::model::HostDiagnosticsSummary, b: &crate::model::HostDiagnosticsSummary) -> (r: bool)
    ensures
        r == (summary_view(*a) == summary_view(*b)),
{
    a.hard_no_range == b.hard_no_range && a.concurrency_locked == b.concurrency_locked && same_lock(&a.lock_reason, &b.lock_reason)
        && a.cooldown_until == b.cooldown_until && same_opt_text(&a.negotiated_protocol, &b.negotiated_protocol)
        && a.reuse_connections == b.reuse_connections
}

/// Whether applying the host profile changed what a download shows of its host and plan.
pub open spec fn refresh_changed(a: DownloadRecord, b: DownloadRecord) -> bool {
    a.max_connections != b.max_connections || a.target_connections != b.target_connections
        || a.host_max_connections != b.host_max_connections || a.host_cooldown_until != b.host_cooldown_until
        || a.host_average_ttfb_ms != b.host_average_ttfb_ms
        || a.host_average_throughput_bytes_per_second != b.host_average_throughput_bytes_per_second
        || opt_text(a.host_protocol) != opt_text(b.host_protocol)
        || summary_view(a.host_diagnostics) != summary_view(b.host_diagnostics)
        || a.segments@.len() != b.segments@.len()
}

fn refresh_all(downloads: &mut Vec<DownloadRecord>, settings: &EngineSettings, profiles: &Vec<HostProfileEntry>, now: i64) -> (flags: Vec<bool>)
    ensures
        final(downloads)@.len() == old(downloads)@.len(),
        flags@.len() == old(downloads)@.len(),
        forall|i: int| 0 <= i < old(downloads)@.len() ==> crate::download_plan::host_profile_applied(old(downloads)@[i],
            #[trigger] final(downloads)@[i], *settings, profile_of(profiles@, old(downloads)@[i].host@), now),
        forall|i: int| 0 <= i < old(downloads)@.len() ==> #[trigger] flags@[i] == refresh_changed(old(downloads)@[i], final(downloads)@[i]),
{
    let ghost ds0 = downloads@;
    let mut flags: Vec<bool> = Vec::new();
    let mut i: usize = 0;
    while i < downloads.len()
        invariant
            i <= downloads@.len() == ds0.len(),
            flags@.len() == i,
            forall|k: int| i <= k < ds0.len() ==> #[trigger] downloads@[k] == ds0[k],
            forall|k: int| 0 <= k < i ==> crate::download_plan::host_profile_applied(ds0[k], #[trigger] downloads@[k], *settings,
                profile_of(profiles@, ds0[k].host@), now),
            forall|k: int| 0 <= k < i ==> #[trigger] flags@[k] == refresh_changed(ds0[k], downloads@[k]),
        decreases ds0.len() - i,
    {
        let host = downloads[i].host.clone();
        let before_max = downloads[i].max_connections;
        let before_target = downloads[i].target_connections;
        let before_host_max = downloads[i].host_max_connections;
        let before_cooldown = downloads[i].host_cooldown_until;
        let before_ttfb = downloads[i].host_average_ttfb_ms;
        let before_throughput = downloads[i].host_average_throughput_bytes_per_second;
        let before_protocol = crate::scopes::copy_opt_string(&downloads[i].host_protocol);
        let before_summary = crate::host_planner::copy_summary(&downloads[i].host_diagnostics);
        let before_segments = downloads[i].segments.len();
        let profile = profile_in(profiles, host.as_str());
        crate::download_plan::apply_download_host_profile_at(&mut downloads[i], settings, profile, now);
        let d = &downloads[i];
        let changed = before_max != d.max_connections || before_target != d.target_connections
            || before_host_max != d.host_max_connections || before_cooldown != d.host_cooldown_until
            || before_ttfb != d.host_average_ttfb_ms || before_throughput != d.host_average_throughput_bytes_per_second
            || !same_opt_text(&before_protocol, &d.host_protocol) || !same_summary(&before_summary, &d.host_diagnostics)
            || before_segments != d.segments.len();
        flags.push(changed);
        i = i + 1;
    }
    flags
}

fn collect_candidates(ds: &Vec<DownloadRecord>, queue_running: bool) -> (r: Vec<usize>)
    ensures
        r@.map_values(|c: usize| c as int) == launch_candidates(ds@, queue_running, ds@.len() as int),
        forall|k: int| 0 <= k < r@.len() ==> r@[k] < ds@.len(),
{
    let mut out: Vec<usize> = Vec::new();
    let mut i: usize = 0;
    while i < ds.len()
        invariant
            i <= ds@.len(),
            forall|k: int| 0 <= k < out@.len() ==> out@[k] < i,
            out@.map_values(|c: usize| c as int) == launch_candidates(ds@, queue_running, i as int),
        decreases ds@.len() - i,
    {
        let ghost before = out@.map_values(|c: usize| c as int);
        if ds[i].status == DownloadStatus::Queued && (queue_running || ds[i].manual_start_requested) {
            out.push(i);
            assert(out@.map_values(|c: usize| c as int) =~= before.push(i as int));
        }
        i = i + 1;
    }
    out
}

fn collect_active(ds: &Vec<DownloadRecord>) -> (r: Vec<usize>)
    ensures
        r@.map_values(|c: usize| c as int) == active_positions(ds@, ds@.len() as int),
        forall|k: int| 0 <= k < r@.len() ==> r@[k] < ds@.len(),
{
    let mut out: Vec<usize> = Vec::new();
    let mut i: usize = 0;
    while i < ds.len()
        invariant
            i <= ds@.len(),
            forall|k: int| 0 <= k < out@.len() ==> out@[k] < i,
            out@.map_values(|c: usize| c as int) == active_positions(ds@, i as int),
        decreases ds@.len() - i,
    {
        let ghost before = out@.map_values(|c: usize| c as int);
        if ds[i].status == DownloadStatus::Downloading {
            out.push(i);
            assert(out@.map_values(|c: usize| c as int) =~= before.push(i as int));
        }
        i = i + 1;
    }
    out
}

proof fn lemma_candidates_sorted(ds: Seq<DownloadRecord>, queue_running: bool, n: int)
    requires
        0 <= n <= ds.len(),
    ensures
        forall|a: int, b: int| 0 <= a < b < launch_candidates(ds, queue_running, n).len()
            ==> launch_candidates(ds, queue_running, n)[a] < launch_candidates(ds, queue_running, n)[b],
        forall|k: int| 0 <= k < launch_candidates(ds, queue_running, n).len() ==> 0 <= #[trigger] launch_candidates(ds, queue_running, n)[k] < n
            && can_launch(ds[launch_candidates(ds, queue_running, n)[k]], queue_running),
        forall|x: int| 0 <= x < n && can_launch(ds[x], queue_running) ==> #[trigger] launch_candidates(ds, queue_running, n).contains(x),
    decreases n,
{
    if n > 0 {
        lemma_candidates_sorted(ds, queue_running, n - 1);
        let c0 = launch_candidates(ds, queue_running, n - 1);
        if can_launch(ds[n - 1], queue_running) {
            let c = c0.push(n - 1);
            assert forall|x: int| 0 <= x < n && can_launch(ds[x], queue_running) implies #[trigger] c.contains(x) by {
                if x == n - 1 {
                    assert(c[c0.len() as int] == x);
                } else {
                    assert(c0.contains(x));
                    let k = choose|k: int| 0 <= k < c0.len() && c0[k] == x;
                    assert(c[k] == x);
                }
            }
        }
    }
}

proof fn lemma_active_sorted(ds: Seq<DownloadRecord>, n: int)
    requires
        0 <= n <= ds.len(),
    ensures
        forall|a: int, b: int| 0 <= a < b < active_positions(ds, n).len() ==> active_positions(ds, n)[a] < active_positions(ds, n)[b],
        forall|k: int| 0 <= k < active_positions(ds, n).len() ==> 0 <= #[trigger] active_positions(ds, n)[k] < n
            && ds[active_positions(ds, n)[k]].status == DownloadStatus::Downloading,
        forall|x: int| 0 <= x < n && ds[x].status == DownloadStatus::Downloading ==> #[trigger] active_positions(ds, n).contains(x),
    decreases n,
{
    if n > 0 {
        lemma_active_sorted(ds, n - 1);
        let a0 = active_positions(ds, n - 1);
        if ds[n - 1].status == DownloadStatus::Downloading {
            let a = a0.push(n - 1);
            assert forall|x: int| 0 <= x < n && ds[x].status == DownloadStatus::Downloading implies #[trigger] a.contains(x) by {
                if x == n - 1 {
                    assert(a[a0.len() as int] == x);
                } else {
                    assert(a0.contains(x));
                    let k = choose|k: int| 0 <= k < a0.len() && a0[k] == x;
                    assert(a[k] == x);
                }
            }
        }
    }
}

/// The queued downloads that may start, and the running ones, are listed once each, and
/// they are exactly those that qualify.
pub proof fn lemma_positions(ds: Seq<DownloadRecord>, queue_running: bool, n: int)
    requires
        0 <= n <= ds.len(),
    ensures
        launch_candidates(ds, queue_running, n).no_duplicates(),
        active_positions(ds, n).no_duplicates(),
        forall|x: int| #[trigger] launch_candidates(ds, queue_running, n).contains(x) <==> 0 <= x < n && can_launch(ds[x], queue_running),
        forall|x: int| #[trigger] active_positions(ds, n).contains(x) <==> 0 <= x < n && ds[x].status == DownloadStatus::Downloading,
{
    lemma_candidates_sorted(ds, queue_running, n);
    lemma_active_sorted(ds, n);
    let c = launch_candidates(ds, queue_running, n);
    let a = active_positions(ds, n);
    assert forall|p: int, q: int| 0 <= p < c.len() && 0 <= q < c.len() && p != q implies c[p] != c[q] by {
        if p < q { assert(c[p] < c[q]); } else { assert(c[q] < c[p]); }
    }
    assert forall|p: int, q: int| 0 <= p < a.len() && 0 <= q < a.len() && p != q implies a[p] != a[q] by {
        if p < q { assert(a[p] < a[q]); } else { assert(a[q] < a[p]); }
    }
    assert forall|x: int| #[trigger] c.contains(x) implies 0 <= x < n && can_launch(ds[x], queue_running) by {
        let k = choose|k: int| 0 <= k < c.len() && c[k] == x;
        assert(0 <= c[k] < n);
    }
    assert forall|x: int| #[trigger] a.contains(x) implies 0 <= x < n && ds[x].status == DownloadStatus::Downloading by {
        let k = choose|k: int| 0 <= k < a.len() && a[k] == x;
        assert(0 <= a[k] < n);
    }
}

/// What a dispatch round decided: the downloads whose state changed, and those to start.
#[derive(Clone, Debug)]
pub struct RuntimeDispatchPlan {
    pub changed_ids: Vec<String>,
    pub launch_ids: Vec<String>,
}

/// The positions a dispatch round marks changed, in order: those whose host view changed,
/// those started, and those whose connection target moved.
pub open spec fn changed_positions(
    old_ds: Seq<DownloadRecord>,
    ds1: Seq<DownloadRecord>,
    ds2: Seq<DownloadRecord>,
    ds3: Seq<DownloadRecord>,
    launched: Seq<int>,
    n: int,
) -> Seq<int>
    decreases n,
{
    if n <= 0 { Seq::empty() } else {
        let rest = changed_positions(old_ds, ds1, ds2, ds3, launched, n - 1);
        let i = n - 1;
        if refresh_changed(old_ds[i], ds1[i]) || launched.contains(i) || ds3[i].target_connections != ds2[i].target_connections {
            rest.push(i)
        } else {
            rest
        }
    }
}

/// A dispatch round at time `now`: every download is brought in line with its host profile;
/// queued downloads start in dispatch order while the active limit and their host's budget
/// allow; then each host's connections are shared among its running downloads.
pub open spec fn dispatch_spec(
    old_r: RegistrySnapshot,
    new_r: RegistrySnapshot,
    ds1: Seq<DownloadRecord>,
    r: RuntimeDispatchPlan,
    now: i64,
) -> bool {
    let old_ds = old_r.downloads@;
    let n = old_ds.len() as int;
    let settings = old_r.settings;
    let profiles = old_r.host_profiles@;
    let limit = if settings.max_active_downloads > 1 { settings.max_active_downloads as int } else { 1 };
    let order = dispatch_order(ds1, launch_candidates(ds1, old_r.queue_running, n));
    let (ds2, launched) = launch_run(ds1, order, limit, settings, profiles, now);
    let active = active_positions(ds1, n) + launched;
    let ds3 = new_r.downloads@;
    &&& ds1.len() == n
    &&& forall|i: int| 0 <= i < n ==> crate::download_plan::host_profile_applied(old_ds[i], #[trigger] ds1[i], settings,
        profile_of(profiles, old_ds[i].host@), now)
    &&& ds3.len() == n
    &&& forall|i: int| 0 <= i < n ==> #[trigger] shared_ok(ds2, ds3, active, i, settings, profiles, now)
    &&& r.launch_ids@.map_values(|s: String| s@) == launched.map_values(|i: int| old_ds[i].id@)
    &&& r.changed_ids@.map_values(|s: String| s@) == changed_positions(old_ds, ds1, ds2, ds3, launched, n).map_values(|i: int| old_ds[i].id@)
    &&& new_r == (RegistrySnapshot { downloads: new_r.downloads, ..old_r })
}

fn merged_active(actives: Vec<usize>, launched: &Vec<usize>, n: usize) -> (r: Vec<usize>)
    requires
        forall|q: int| 0 <= q < actives@.len() ==> actives@[q] < n,
        forall|q: int| 0 <= q < launched@.len() ==> launched@[q] < n,
    ensures
        r@.map_values(|c: usize| c as int) == actives@.map_values(|c: usize| c as int) + launched@.map_values(|c: usize| c as int),
        forall|q: int| 0 <= q < r@.len() ==> r@[q] < n,
{
    let ghost av0 = actives@.map_values(|c: usize| c as int);
    let ghost lv = launched@.map_values(|c: usize| c as int);
    let mut all_active = actives;
    let mut k: usize = 0;
    while k < launched.len()
        invariant
            k <= launched@.len(),
            all_active@.map_values(|c: usize| c as int) == av0 + lv.take(k as int),
            lv == launched@.map_values(|c: usize| c as int),
            forall|q: int| 0 <= q < all_active@.len() ==> all_active@[q] < n,
            forall|q: int| 0 <= q < launched@.len() ==> launched@[q] < n,
        decreases launched@.len() - k,
    {
        let ghost before = all_active@.map_values(|c: usize| c as int);
        all_active.push(launched[k]);
        proof {
            assert(lv.take(k + 1) =~= lv.take(k as int).push(lv[k as int]));
            assert(lv[k as int] == launched@[k as int] as int);
            assert(all_active@.map_values(|c: usize| c as int) =~= before.push(launched@[k as int] as int));
        }
        k = k + 1;
    }
    assert(lv.take(lv.len() as int) =~= lv);
    all_active
}

proof fn lemma_concat_distinct(av0: Seq<int>, lv: Seq<int>)
    requires
        av0.no_duplicates(),
        lv.no_duplicates(),
        forall|x: int| lv.contains(x) ==> !av0.contains(x),
    ensures
        (av0 + lv).no_duplicates(),
{
    let av = av0 + lv;
    assert forall|p: int, q: int| 0 <= p < av.len() && 0 <= q < av.len() && p != q implies av[p] != av[q] by {
        if p < av0.len() && q < av0.len() {
        } else if p >= av0.len() && q >= av0.len() {
            assert(lv[p - av0.len()] == av[p] && lv[q - av0.len()] == av[q]);
        } else if p < av0.len() {
            assert(av0.contains(av[p]));
            assert(lv.contains(av[q])) by { assert(lv[q - av0.len()] == av[q]); }
        } else {
            assert(av0.contains(av[q]));
            assert(lv.contains(av[p])) by { assert(lv[p - av0.len()] == av[p]); }
        }
    }
}

fn changed_ids_for(
    ds: &Vec<DownloadRecord>,
    flags: &Vec<bool>,
    targets: &Vec<u32>,
    launched: &Vec<usize>,
    Ghost(old_ds): Ghost<Seq<DownloadRecord>>,
    Ghost(ds1): Ghost<Seq<DownloadRecord>>,
    Ghost(ds2): Ghost<Seq<DownloadRecord>>,
) -> (r: Vec<String>)
    requires
        flags@.len() == ds@.len() && targets@.len() == ds@.len(),
        old_ds.len() == ds@.len() && ds1.len() == ds@.len() && ds2.len() == ds@.len(),
        forall|q: int| 0 <= q < ds@.len() ==> #[trigger] flags@[q] == refresh_changed(old_ds[q], ds1[q]),
        forall|q: int| 0 <= q < ds@.len() ==> targets@[q] == #[trigger] ds2[q].target_connections,
        forall|q: int| 0 <= q < ds@.len() ==> #[trigger] ds@[q].id == old_ds[q].id,
    ensures
        r@.map_values(|s: String| s@) == changed_positions(old_ds, ds1, ds2, ds@, launched@.map_values(|c: usize| c as int),
            ds@.len() as int).map_values(|q: int| old_ds[q].id@),
{
    let ghost lv = launched@.map_values(|c: usize| c as int);
    let n = ds.len();
    let mut changed_ids: Vec<String> = Vec::new();
    let mut i: usize = 0;
    while i < n
        invariant
            i <= n == ds@.len(),
            flags@.len() == n && targets@.len() == n,
            old_ds.len() == n && ds1.len() == n && ds2.len() == n,
            forall|q: int| 0 <= q < n ==> #[trigger] flags@[q] == refresh_changed(old_ds[q], ds1[q]),
            forall|q: int| 0 <= q < n ==> targets@[q] == #[trigger] ds2[q].target_connections,
            forall|q: int| 0 <= q < n ==> #[trigger] ds@[q].id == old_ds[q].id,
            lv == launched@.map_values(|c: usize| c as int),
            changed_ids@.map_values(|s: String| s@) == changed_positions(old_ds, ds1, ds2, ds@, lv, i as int).map_values(|q: int| old_ds[q].id@),
        decreases n - i,
    {
        let mut was_launched = false;
        let mut q: usize = 0;
        while q < launched.len()
            invariant
                q <= launched@.len(),
                lv == launched@.map_values(|c: usize| c as int),
                was_launched == exists|p: int| 0 <= p < q && lv[p] == i,
            decreases launched@.len() - q,
        {
            proof { assert(lv[q as int] == launched@[q as int] as int); }
            if launched[q] == i {
                was_launched = true;
            }
            q = q + 1;
        }
        let ghost before = changed_ids@.map_values(|s: String| s@);
        assert(lv.contains(i as int) == was_launched);
        if flags[i] || was_launched || ds[i].target_connections != targets[i] {
            changed_ids.push(ds[i].id.clone());
            proof {
                assert(changed_ids@.map_values(|s: String| s@) =~= before.push(old_ds[i as int].id@));
            }
        }
        i = i + 1;
    }
    changed_ids
}

fn ids_at(ds: &Vec<DownloadRecord>, positions: &Vec<usize>) -> (r: Vec<String>)
    requires
        forall|p: int| 0 <= p < positions@.len() ==> positions@[p] < ds@.len(),
    ensures
        r@.map_values(|s: String| s@) == positions@.map_values(|c: usize| c as int).map_values(|p: int| ds@[p].id@),
{
    let ghost lv = positions@.map_values(|c: usize| c as int);
    let mut ids: Vec<String> = Vec::new();
    let mut q: usize = 0;
    while q < positions.len()
        invariant
            q <= positions@.len(),
            lv == positions@.map_values(|c: usize| c as int),
            forall|p: int| 0 <= p < positions@.len() ==> positions@[p] < ds@.len(),
            ids@.map_values(|s: String| s@) == lv.take(q as int).map_values(|p: int| ds@[p].id@),
        decreases positions@.len() - q,
    {
        let ghost before = ids@.map_values(|s: String| s@);
        let at = positions[q];
        ids.push(ds[at].id.clone());
        proof {
            assert(lv[q as int] == at as int);
            assert(lv.take(q + 1) =~= lv.take(q as int).push(at as int));
            assert(ids@.map_values(|s: String| s@) =~= before.push(ds@[at as int].id@));
            assert(lv.take(q + 1).map_values(|p: int| ds@[p].id@) =~= lv.take(q as int).map_values(|p: int| ds@[p].id@).push(ds@[at as int].id@));
        }
        q = q + 1;
    }
    assert(lv.take(lv.len() as int) =~= lv);
    ids
}

fn target_list(ds: &Vec<DownloadRecord>) -> (r: Vec<u32>)
    ensures
        r@.len() == ds@.len(),
        forall|k: int| 0 <= k < ds@.len() ==> r@[k] == #[trigger] ds@[k].target_connections,
{
    let mut targets: Vec<u32> = Vec::new();
    let mut i: usize = 0;
    while i < ds.len()
        invariant
            i <= ds@.len(),
            targets@.len() == i,
            forall|k: int| 0 <= k < i ==> targets@[k] == #[trigger] ds@[k].target_connections,
        decreases ds@.len() - i,
    {
        targets.push(ds[i].target_connections);
        i = i + 1;
    }
    targets
}

/// Runs a dispatch round at time `now`.
#[verifier::rlimit(80)]
#[verifier::spinoff_prover]
pub fn plan_runtime_dispatch_at(registry: &mut RegistrySnapshot, now: i64) -> (r: RuntimeDispatchPlan)
    ensures
        exists|ds1: Seq<DownloadRecord>| dispatch_spec(*old(registry), *final(registry), ds1, r, now),
{
    let ghost old_r = *registry;
    let ghost old_ds = registry.downloads@;
    let settings = crate::app_update::copy_settings(&registry.settings);
    let queue_running = registry.queue_running;
    let flags = refresh_all(&mut registry.downloads, &settings, &registry.host_profiles, now);
    let ghost ds1 = registry.downloads@;
    let n = registry.downloads.len();
    let cands = collect_candidates(&registry.downloads, queue_running);
    let actives = collect_active(&registry.downloads);
    let ghost cand = launch_candidates(ds1, queue_running, n as int);
    let ghost av0 = active_positions(ds1, n as int);
    proof {
        lemma_positions(ds1, queue_running, n as int);
        lemma_dispatch_order_perm(ds1, cand);
    }
    let order = order_for_dispatch(&registry.downloads, cands);
    let ghost ord = order@.map_values(|c: usize| c as int);
    proof {
        assert forall|k: int| 0 <= k < ord.len() implies 0 <= #[trigger] ord[k] < ds1.len()
            && ds1[ord[k]].status != DownloadStatus::Downloading by {
            assert(cand.contains(ord[k]));
        }
        assert(ord.no_duplicates());
    }
    let limit: usize = if settings.max_active_downloads > 1 { settings.max_active_downloads as usize } else { 1 };
    let launched = launch_queued(&mut registry.downloads, &order, limit, &settings, &registry.host_profiles, now);
    let ghost ds2 = registry.downloads@;
    let ghost lv = launched@.map_values(|c: usize| c as int);
    proof {
        lemma_launch_run(ds1, ord, limit as int, settings, registry.host_profiles@, now);
        assert forall|q: int| 0 <= q < launched@.len() implies launched@[q] < n by {
            assert(lv[q] == launched@[q] as int);
            assert(ord.contains(lv[q]));
        }
        assert forall|x: int| lv.contains(x) implies !av0.contains(x) by {
            let k = choose|k: int| 0 <= k < lv.len() && lv[k] == x;
            assert(ord.contains(lv[k]));
        }
        lemma_concat_distinct(av0, lv);
    }
    let targets = target_list(&registry.downloads);
    let all_active = merged_active(actives, &launched, n);
    proof {
        let av = av0 + lv;
        assert forall|p: int, q: int| 0 <= p < all_active@.len() && 0 <= q < all_active@.len() && p != q
            implies all_active@[p] != all_active@[q] by {
            assert(av[p] == all_active@[p] as int && av[q] == all_active@[q] as int);
        }
    }
    share_host_connections(&mut registry.downloads, &all_active, &settings, &registry.host_profiles, now);
    let ghost ds3 = registry.downloads@;
    proof {
        let active = av0 + lv;
        assert(all_active@.map_values(|c: usize| c as int) == active);
        assert(positions(all_active@) == active);
        assert(registry.host_profiles@ == old_r.host_profiles@);
        assert forall|q: int| 0 <= q < n implies #[trigger] ds3[q].id == old_ds[q].id by {
            assert(shared_ok(ds2, ds3, active, q, settings, registry.host_profiles@, now));
            if active.contains(q) {
                let h = ds2[q].host@;
                let group = host_group(active, ds2, h);
                let order2 = dispatch_order(ds2, group);
                let budget = host_budget_spec(group_requested(ds2, group, group.len() as int), settings,
                    profile_of(registry.host_profiles@, h), now);
                let assigned = group_assignment(ds2, order2, budget);
                let j = choose|j: int| 0 <= j < order2.len() && order2[j] == q
                    && member_result(ds2[q], ds3[q], #[trigger] assigned[j], settings);
            }
        }
    }
    let changed_ids = changed_ids_for(&registry.downloads, &flags, &targets, &launched, Ghost(old_ds), Ghost(ds1), Ghost(ds2));
    let launch_ids = ids_at(&registry.downloads, &launched);
    let r = RuntimeDispatchPlan { changed_ids, launch_ids };
    proof {
        assert(lv.map_values(|p: int| ds3[p].id@) =~= lv.map_values(|p: int| old_ds[p].id@)) by {
            assert forall|k: int| 0 <= k < lv.len() implies lv[k] < n by {
                assert(lv[k] == launched@[k] as int);
            }
        }
        let new_r = *registry;
        let settings0 = old_r.settings;
        let profiles = old_r.host_profiles@;
        let limit0 = if settings0.max_active_downloads > 1 { settings0.max_active_downloads as int } else { 1 };
        assert(limit0 == limit as int);
        assert(settings0 == settings);
        assert(profiles == registry.host_profiles@);
        assert(cand == launch_candidates(ds1, old_r.queue_running, old_ds.len() as int));
        assert(ord == dispatch_order(ds1, cand));
        assert((ds2, lv) == launch_run(ds1, ord, limit0, settings0, profiles, now));
        assert(ds1.len() == old_ds.len());
        assert(ds3.len() == old_ds.len());
        assert(r.launch_ids@.map_values(|s: String| s@) == lv.map_values(|i: int| old_ds[i].id@));
        assert(r.changed_ids@.map_values(|s: String| s@) == changed_positions(old_ds, ds1, ds2, ds3, lv, old_ds.len() as int).map_values(|i: int| old_ds[i].id@));
        assert(new_r == (RegistrySnapshot { downloads: new_r.downloads, ..old_r }));
        let n0 = old_ds.len() as int;
        assert(av0 == active_positions(ds1, n0));
        assert forall|i: int| 0 <= i < n0 implies crate::download_plan::host_profile_applied(old_ds[i], #[trigger] ds1[i], settings0,
            profile_of(profiles, old_ds[i].host@), now) by {}
        assert(dispatch_spec(old_r, new_r, ds1, r, now));
    }
    r
}

/// Runs a dispatch round at the current time.
pub fn plan_runtime_dispatch(registry: &mut RegistrySnapshot) -> (r: RuntimeDispatchPlan)
    ensures
        exists|now: i64, ds1: Seq<DownloadRecord>| dispatch_spec(*old(registry), *final(registry), ds1, r, now),
{
    let now = crate::host_planner::unix_epoch_millis();
    plan_runtime_dispatch_at(registry, now)
}


proof fn lemma_first_min_keeps_manual(ds: Seq<DownloadRecord>, cands: Seq<int>, n: int, k: int)
    requires
        0 <= k < n,
        ds[cands[k]].manual_start_requested,
    ensures
        ds[cands[first_min_pos(ds, cands, n)]].manual_start_requested,
    decreases n,
{
    if n > 1 {
        if k < n - 1 {
            lemma_first_min_keeps_manual(ds, cands, n - 1, k);
        }
    }
}

proof fn lemma_order_from_candidates(ds: Seq<DownloadRecord>, cands: Seq<int>)
    ensures
        dispatch_order(ds, cands).len() == cands.len(),
        forall|i: int| 0 <= i < cands.len()
            ==> exists|m: int| 0 <= m < cands.len() && #[trigger] dispatch_order(ds, cands)[i] == cands[m],
    decreases cands.len(),
{
    if cands.len() > 0 {
        let p = first_min_pos(ds, cands, cands.len() as int);
        lemma_first_min_pos_bounds(ds, cands, cands.len() as int);
        let rest = cands.remove(p);
        lemma_order_from_candidates(ds, rest);
        let o = dispatch_order(ds, cands);
        assert(o == seq![cands[p]] + dispatch_order(ds, rest));
        assert forall|i: int| 0 <= i < cands.len()
            implies exists|m: int| 0 <= m < cands.len() && #[trigger] o[i] == cands[m] by {
            if i == 0 {
                assert(o[0] == cands[p]);
            } else {
                assert(o[i] == dispatch_order(ds, rest)[i - 1]);
                let m2 = choose|m: int| 0 <= m < rest.len() && dispatch_order(ds, rest)[i - 1] == rest[m];
                if m2 < p {
                    assert(rest[m2] == cands[m2]);
                } else {
                    assert(rest[m2] == cands[m2 + 1]);
                }
            }
        }
    }
}

/// Manual starts go first: in the dispatch order, every download whose start was asked for
/// by hand comes before every one that only waits in the queue.
pub proof fn lemma_manual_starts_first(ds: Seq<DownloadRecord>, cands: Seq<int>)
    ensures
        forall|i: int, j: int| 0 <= i < j < dispatch_order(ds, cands).len()
            && (#[trigger] ds[dispatch_order(ds, cands)[j]]).manual_start_requested
            ==> (#[trigger] ds[dispatch_order(ds, cands)[i]]).manual_start_requested,
    decreases cands.len(),
{
    if cands.len() > 0 {
        let n = cands.len() as int;
        let p = first_min_pos(ds, cands, n);
        lemma_first_min_pos_bounds(ds, cands, n);
        let rest = cands.remove(p);
        lemma_manual_starts_first(ds, rest);
        lemma_order_from_candidates(ds, rest);
        let o = dispatch_order(ds, cands);
        let orest = dispatch_order(ds, rest);
        assert(o == seq![cands[p]] + orest);
        assert forall|i: int, j: int| 0 <= i < j < o.len() && (#[trigger] ds[o[j]]).manual_start_requested
            implies (#[trigger] ds[o[i]]).manual_start_requested by {
            assert(o[j] == orest[j - 1]);
            if i == 0 {
                let m2 = choose|m: int| 0 <= m < rest.len() && orest[j - 1] == rest[m];
                let k = if m2 < p { m2 } else { m2 + 1 };
                assert(rest[m2] == cands[k]);
                lemma_first_min_keeps_manual(ds, cands, n, k);
            } else {
                assert(o[i] == orest[i - 1]);
            }
        }
    }
}

/// `a` comes no later than `b` by the first two dispatch keys: a manual start before a queued
/// download, and among those alike in that, the lower queue position first (an unset
/// position counting as the last).
pub open spec fn dispatch_rank_le(a: DownloadRecord, b: DownloadRecord) -> bool {
    let ma: int = if a.manual_start_requested { 0 } else { 1 };
    let mb: int = if b.manual_start_requested { 0 } else { 1 };
    let qa: int = if a.queue_position == 0 { u32::MAX as int } else { a.queue_position as int };
    let qb: int = if b.queue_position == 0 { u32::MAX as int } else { b.queue_position as int };
    ma < mb || (ma == mb && qa <= qb)
}

proof fn lemma_first_min_is_least(ds: Seq<DownloadRecord>, cands: Seq<int>, n: int)
    requires
        1 <= n,
    ensures
        forall|k: int| 0 <= k < n ==> dispatch_rank_le(ds[cands[first_min_pos(ds, cands, n)]], #[trigger] ds[cands[k]]),
    decreases n,
{
    if n > 1 {
        lemma_first_min_is_least(ds, cands, n - 1);
    }
}

/// The dispatch order follows the first two dispatch keys: every download comes no later, by
/// manual start and queue position, than each one after it.
pub proof fn lemma_dispatch_order_ranked(ds: Seq<DownloadRecord>, cands: Seq<int>)
    ensures
        forall|i: int, j: int| 0 <= i < j < dispatch_order(ds, cands).len()
            ==> dispatch_rank_le(#[trigger] ds[dispatch_order(ds, cands)[i]], #[trigger] ds[dispatch_order(ds, cands)[j]]),
    decreases cands.len(),
{
    if cands.len() > 0 {
        let n = cands.len() as int;
        let p = first_min_pos(ds, cands, n);
        lemma_first_min_pos_bounds(ds, cands, n);
        lemma_first_min_is_least(ds, cands, n);
        let rest = cands.remove(p);
        lemma_dispatch_order_ranked(ds, rest);
        lemma_order_from_candidates(ds, rest);
        let o = dispatch_order(ds, cands);
        let orest = dispatch_order(ds, rest);
        assert(o == seq![cands[p]] + orest);
        assert forall|i: int, j: int| 0 <= i < j < o.len()
            implies dispatch_rank_le(#[trigger] ds[o[i]], #[trigger] ds[o[j]]) by {
            assert(o[j] == orest[j - 1]);
            if i == 0 {
                let m2 = choose|m: int| 0 <= m < rest.len() && orest[j - 1] == rest[m];
                let k = if m2 < p { m2 } else { m2 + 1 };
                assert(rest[m2] == cands[k]);
                assert(dispatch_rank_le(ds[cands[p]], ds[cands[k]]));
            } else {
                assert(o[i] == orest[i - 1]);
            }
        }
    }
}

} // verus!
