//! Splitting a download of known size into byte-range segments.

use vstd::prelude::*;
use crate::arith::{sat_mul, sat_add, sat_sub, sat_add_i64, sat_sub_i64, ceil_div, max_int, min_int, u64_sat_mul, u64_sat_add, u64_sat_sub, u64_div_ceil, u64_max, u64_min, u32_max, i64_max, i64_sat_add, i64_sat_sub};
use crate::model::{DownloadSegment, DownloadSegmentStatus};

verus! {

/// Throughput and latency observations that shape the initial segment plan.
#[derive(Clone, Copy, Debug, PartialEq, Eq, Structural)]
pub struct SegmentPlanningHints {
    pub throughput_bytes_per_second: Option<u64>,
    pub ttfb_ms: Option<u64>,
    pub target_chunk_time_seconds: u32,
}

impl Default for SegmentPlanningHints {
    fn default() -> (r: Self)
        ensures
            r.throughput_bytes_per_second is None,
            r.ttfb_ms is None,
            r.target_chunk_time_seconds == 0,
    {
        SegmentPlanningHints { throughput_bytes_per_second: None, ttfb_ms: None, target_chunk_time_seconds: 0 }
    }
}

/// A fresh segment for the inclusive range `[start, end]` that nothing has been written to.
pub open spec fn pending_spec(id: u32, start: i64, end: i64, retry_budget: u32) -> DownloadSegment {
    DownloadSegment {
        id,
        start,
        end,
        downloaded: 0,
        retry_attempts: 0,
        retry_budget,
        status: DownloadSegmentStatus::Pending,
    }
}

pub fn pending_segment(id: u32, start: i64, end: i64, retry_budget: u32) -> (s: DownloadSegment)
    ensures
        s == pending_spec(id, start, end, retry_budget),
{
    DownloadSegment {
        id,
        start,
        end,
        downloaded: 0,
        retry_attempts: 0,
        retry_budget,
        status: DownloadSegmentStatus::Pending,
    }
}

/// Number of segments a download is split into: the requested count, but no more
/// than segments of at least `min_segment_size` bytes allow, and at least one.
pub open spec fn actual_count_spec(total_size: int, num_segments: int, min_segment_size: int) -> int {
    min_int(max_int(num_segments, 1), max_int(1, total_size / max_int(min_segment_size, 1)))
}

fn actual_segment_count(total_size: u64, num_segments: u32, min_segment_size: u64) -> (r: u64)
    ensures
        r == actual_count_spec(total_size as int, num_segments as int, min_segment_size as int),
        1 <= r <= max_int(num_segments as int, 1),
{
    let num_segments = u32_max(num_segments, 1) as u64;
    let per = total_size / u64_max(min_segment_size, 1);
    u64_min(num_segments, u64_max(1, per))
}

/// `n` sizes of `total / n` bytes each, with the remainder added to the last one.
pub open spec fn equal_sizes_spec(total_size: int, n: int) -> Seq<u64> {
    Seq::new(
        n as nat,
        |i: int|
            if i == n - 1 {
                (total_size - (n - 1) * (total_size / n)) as u64
            } else {
                (total_size / n) as u64
            },
    )
}

fn equal_segment_sizes(total_size: u64, actual_segments: u64) -> (sizes: Vec<u64>)
    requires
        1 <= actual_segments <= u32::MAX,
    ensures
        sizes@ == equal_sizes_spec(total_size as int, actual_segments as int),
{
    let n = actual_segments;
    let segment_size = total_size / n;
    let mut sizes: Vec<u64> = Vec::new();
    let mut assigned: u64 = 0;
    let mut idx: u64 = 0;
    proof {
        assert(n * segment_size <= total_size) by (nonlinear_arith)
            requires segment_size == total_size / n, n >= 1;
    }
    while idx < n
        invariant
            1 <= n <= u32::MAX,
            segment_size == total_size / n,
            n * segment_size <= total_size,
            idx <= n,
            idx < n ==> assigned == idx * segment_size,
            sizes@.len() == idx,
            forall|j: int| 0 <= j < idx ==> sizes@[j] == equal_sizes_spec(total_size as int, n as int)[j],
        decreases n - idx,
    {
        proof {
            assert(idx * segment_size <= n * segment_size) by (nonlinear_arith)
                requires idx <= n;
            assert((idx + 1) * segment_size <= n * segment_size) by (nonlinear_arith)
                requires idx + 1 <= n;
            assert((idx + 1) * segment_size == idx * segment_size + segment_size) by (nonlinear_arith);
        }
        let size = if idx == n - 1 { total_size - assigned } else { segment_size };
        sizes.push(size);
        assigned = if idx == n - 1 { total_size } else { assigned + size };
        idx = idx + 1;
        proof {
            if idx < n {
                assert(assigned == idx * segment_size);
            } else {
                assert(assigned == total_size);
            }
        }
    }
    proof {
        assert(sizes@ =~= equal_sizes_spec(total_size as int, n as int));
    }
    sizes
}

/// Size every connection should cover in one target chunk time, given the throughput hint.
pub open spec fn shaped_window_spec(total_size: int, n: int, min_segment_size: int, hints: SegmentPlanningHints) -> int {
    let throughput = hints.throughput_bytes_per_second.unwrap();
    let target_chunk_time_ms = sat_mul(max_int(hints.target_chunk_time_seconds as int, 1), 1000);
    let ttfb = match hints.ttfb_ms { Some(t) => t as int, None => 0 };
    let effective_chunk_time_ms = sat_add(target_chunk_time_ms, min_int(ttfb, target_chunk_time_ms));
    let per_connection = ceil_div(throughput as int, n);
    max_int(ceil_div(sat_mul(per_connection, effective_chunk_time_ms), 1000), min_segment_size)
}

/// Whether the throughput hint shapes the plan: there is a positive hint, more than one
/// segment, and the window per connection is smaller than an equal share.
pub open spec fn shaped_applies(total_size: int, n: int, min_segment_size: int, hints: SegmentPlanningHints) -> bool {
    &&& hints.throughput_bytes_per_second is Some
    &&& hints.throughput_bytes_per_second.unwrap() > 0
    &&& n > 1
    &&& shaped_window_spec(total_size, n, min_segment_size, hints) < total_size / n
}

pub open spec fn shaped_remaining(total_size: int, n: int, window: int) -> int {
    sat_sub(total_size, sat_mul(window, n))
}

/// Sum of the weights `1..=n`.
pub open spec fn weight_sum(n: int) -> int {
    sat_mul(n, sat_add(n, 1)) / 2
}

/// Share of the remaining bytes given to segment `i`, growing with its index.
pub open spec fn shaped_extra(remaining: int, n: int, i: int) -> int {
    sat_mul(remaining, i + 1) / max_int(weight_sum(n), 1)
}

/// Saturating sum of the shares of the first `k` segments.
pub open spec fn distributed_upto(remaining: int, n: int, k: int) -> int
    decreases k,
{
    if k <= 0 { 0 } else { sat_add(distributed_upto(remaining, n, k - 1), shaped_extra(remaining, n, k - 1)) }
}

/// The throughput-shaped sizes: each segment gets the window plus a share of the rest that
/// grows with its index, and the last one also gets what rounding left over.
pub open spec fn shaped_sizes_spec(total_size: int, n: int, window: int) -> Seq<u64> {
    let remaining = shaped_remaining(total_size, n, window);
    if remaining == 0 {
        Seq::new(n as nat, |i: int| window as u64)
    } else {
        Seq::new(
            n as nat,
            |i: int|
                if i == n - 1 {
                    sat_add(
                        sat_add(window, shaped_extra(remaining, n, i)),
                        sat_sub(remaining, distributed_upto(remaining, n, n)),
                    ) as u64
                } else {
                    sat_add(window, shaped_extra(remaining, n, i)) as u64
                },
        )
    }
}

fn shaped_window(total_size: u64, n: u64, min_segment_size: u64, hints: SegmentPlanningHints) -> (w: u64)
    requires
        hints.throughput_bytes_per_second is Some,
        n >= 1,
    ensures
        w == shaped_window_spec(total_size as int, n as int, min_segment_size as int, hints),
{
    let throughput = hints.throughput_bytes_per_second.unwrap();
    let target_chunk_time_ms = u64_sat_mul(u32_max(hints.target_chunk_time_seconds, 1) as u64, 1000);
    let ttfb = match hints.ttfb_ms { Some(t) => t, None => 0 };
    let effective_chunk_time_ms = u64_sat_add(target_chunk_time_ms, u64_min(ttfb, target_chunk_time_ms));
    let per_connection = u64_div_ceil(throughput, n);
    u64_max(u64_div_ceil(u64_sat_mul(per_connection, effective_chunk_time_ms), 1000), min_segment_size)
}

fn throughput_shaped_segment_sizes(
    total_size: u64,
    actual_segments: u64,
    min_segment_size: u64,
    hints: SegmentPlanningHints,
) -> (r: Option<Vec<u64>>)
    requires
        1 <= actual_segments <= u32::MAX,
    ensures
        r is Some <==> shaped_applies(total_size as int, actual_segments as int, min_segment_size as int, hints),
        r matches Some(v) ==> v@ == shaped_sizes_spec(
            total_size as int,
            actual_segments as int,
            shaped_window_spec(total_size as int, actual_segments as int, min_segment_size as int, hints),
        ),
{
    let throughput_hint = match hints.throughput_bytes_per_second {
        Some(v) => v,
        None => { return None; },
    };
    if throughput_hint == 0 {
        return None;
    }
    let n = actual_segments;
    if n <= 1 {
        return None;
    }
    let equal_segment_size = total_size / n;
    let target_window_bytes = shaped_window(total_size, n, min_segment_size, hints);
    if target_window_bytes >= equal_segment_size {
        return None;
    }
    let ghost window = target_window_bytes as int;
    let mut sizes: Vec<u64> = Vec::new();
    let mut k: u64 = 0;
    while k < n
        invariant
            k <= n,
            sizes@.len() == k,
            forall|j: int| 0 <= j < k ==> sizes@[j] == target_window_bytes,
        decreases n - k,
    {
        sizes.push(target_window_bytes);
        k = k + 1;
    }
    let assigned = u64_sat_mul(target_window_bytes, n);
    let remaining = u64_sat_sub(total_size, assigned);
    if remaining == 0 {
        proof {
            assert(sizes@ =~= shaped_sizes_spec(total_size as int, n as int, window));
        }
        return Some(sizes);
    }
    assert(n * (n + 1) <= u64::MAX) by (nonlinear_arith)
        requires n <= u32::MAX;
    let weight_sum_v = (n * (n + 1)) / 2;
    assert(weight_sum_v == weight_sum(n as int));
    assert(weight_sum_v >= 1) by (nonlinear_arith)
        requires weight_sum_v == (n * (n + 1)) / 2, n >= 2;
    let mut distributed: u64 = 0;
    let mut idx: u64 = 0;
    while idx < n
        invariant
            2 <= n <= u32::MAX,
            idx <= n,
            weight_sum_v == weight_sum(n as int),
            weight_sum_v >= 1,
            remaining == shaped_remaining(total_size as int, n as int, window),
            target_window_bytes == window,
            sizes@.len() == n,
            distributed == distributed_upto(remaining as int, n as int, idx as int),
            forall|j: int| 0 <= j < idx ==> sizes@[j] == sat_add(window, shaped_extra(remaining as int, n as int, j)),
            forall|j: int| idx <= j < n ==> sizes@[j] == window,
        decreases n - idx,
    {
        let weight = idx + 1;
        let extra = u64_sat_mul(remaining, weight) / weight_sum_v;
        assert(max_int(weight_sum(n as int), 1) == weight_sum_v);
        let cur = sizes[idx as usize];
        sizes.set(idx as usize, u64_sat_add(cur, extra));
        distributed = u64_sat_add(distributed, extra);
        idx = idx + 1;
    }
    let last_index = (n - 1) as usize;
    let last = sizes[last_index];
    sizes.set(last_index, u64_sat_add(last, u64_sat_sub(remaining, distributed)));
    proof {
        assert(sizes@ =~= shaped_sizes_spec(total_size as int, n as int, window));
    }
    Some(sizes)
}

/// First byte of segment `i` when segments of the given sizes are laid out from byte 0.
pub open spec fn seg_start(sizes: Seq<u64>, i: int) -> int
    decreases i, 0int,
{
    if i <= 0 { 0 } else { sat_add(seg_end(sizes, i - 1), 1) }
}

/// Last byte of segment `i` of that layout.
pub open spec fn seg_end(sizes: Seq<u64>, i: int) -> int
    decreases i, 1int,
{
    sat_add(seg_start(sizes, i), sat_sub(sizes[i] as int, 1))
}

/// The pending segments laid out back to back from byte 0 with the given sizes.
pub open spec fn build_spec(sizes: Seq<u64>, retry_budget: u32) -> Seq<DownloadSegment> {
    Seq::new(
        sizes.len(),
        |i: int| pending_spec(i as u32, (seg_start(sizes, i) as u64) as i64, (seg_end(sizes, i) as u64) as i64, retry_budget),
    )
}

fn build_segments_from_sizes(segment_sizes: &Vec<u64>, retry_budget: u32) -> (segments: Vec<DownloadSegment>)
    requires
        segment_sizes@.len() <= u32::MAX + 1,
    ensures
        segments@ == build_spec(segment_sizes@, retry_budget),
{
    let mut start: u64 = 0;
    let mut segments: Vec<DownloadSegment> = Vec::new();
    let mut idx: usize = 0;
    while idx < segment_sizes.len()
        invariant
            segment_sizes@.len() <= u32::MAX + 1,
            idx <= segment_sizes@.len(),
            segments@.len() == idx,
            start == seg_start(segment_sizes@, idx as int),
            forall|j: int| 0 <= j < idx ==> segments@[j] == build_spec(segment_sizes@, retry_budget)[j],
        decreases segment_sizes@.len() - idx,
    {
        let size = segment_sizes[idx];
        let end = u64_sat_add(start, u64_sat_sub(size, 1));
        segments.push(pending_segment(idx as u32, start as i64, end as i64, retry_budget));
        start = u64_sat_add(end, 1);
        idx = idx + 1;
    }
    proof {
        assert(segments@ =~= build_spec(segment_sizes@, retry_budget));
    }
    segments
}

/// The sizes the plan uses: throughput-shaped when that applies, equal shares otherwise.
pub open spec fn plan_sizes_spec(total_size: int, n: int, min_segment_size: int, hints: SegmentPlanningHints) -> Seq<u64> {
    if shaped_applies(total_size, n, min_segment_size, hints) {
        shaped_sizes_spec(total_size, n, shaped_window_spec(total_size, n, min_segment_size, hints))
    } else {
        equal_sizes_spec(total_size, n)
    }
}

/// The initial segment plan of a download of `total_size` bytes.
pub open spec fn plan_spec(
    total_size: int,
    num_segments: int,
    min_segment_size: int,
    retry_budget: u32,
    hints: SegmentPlanningHints,
) -> Seq<DownloadSegment> {
    if total_size == 0 || num_segments == 0 {
        Seq::empty()
    } else {
        let min1 = max_int(min_segment_size, 1);
        let n = actual_count_spec(total_size, num_segments, min1);
        build_spec(plan_sizes_spec(total_size, n, min1, hints), retry_budget)
    }
}

pub fn compute_segments_with_hints(
    total_size: u64,
    num_segments: u32,
    min_segment_size: u64,
    retry_budget: u32,
    hints: SegmentPlanningHints,
) -> (segments: Vec<DownloadSegment>)
    ensures
        segments@ == plan_spec(total_size as int, num_segments as int, min_segment_size as int, retry_budget, hints),
{
    if total_size == 0 || num_segments == 0 {
        proof { assert(Seq::<DownloadSegment>::empty() =~= plan_spec(total_size as int, num_segments as int, min_segment_size as int, retry_budget, hints)); }
        return Vec::new();
    }
    let min_segment_size = u64_max(min_segment_size, 1);
    let actual_segments = actual_segment_count(total_size, num_segments, min_segment_size);
    let segment_sizes = match throughput_shaped_segment_sizes(total_size, actual_segments, min_segment_size, hints) {
        Some(sizes) => sizes,
        None => equal_segment_sizes(total_size, actual_segments),
    };
    build_segments_from_sizes(&segment_sizes, retry_budget)
}

/// Splitting a segment at `split_offset`: the right part `[split_offset, end]` becomes a new
/// pending segment and the segment keeps `[start, split_offset - 1]`, provided both the part
/// still to be fetched on the left and the right part hold at least `min_segment_size` bytes.
pub open spec fn split_spec(
    segment: DownloadSegment,
    split_offset: int,
    min_segment_size: int,
    new_segment_id: u32,
) -> Option<(DownloadSegment, DownloadSegment)> {
    if min_segment_size <= 0 {
        None
    } else {
        let current_start = sat_add_i64(segment.start as int, max_int(segment.downloaded as int, 0));
        if split_offset <= current_start || split_offset > segment.end {
            None
        } else if sat_sub_i64(split_offset, current_start) < min_segment_size
            || sat_add_i64(sat_sub_i64(segment.end as int, split_offset), 1) < min_segment_size {
            None
        } else {
            Some((
                pending_spec(new_segment_id, split_offset as i64, segment.end, segment.retry_budget),
                DownloadSegment { end: (split_offset - 1) as i64, ..segment },
            ))
        }
    }
}

/// Split an existing segment at the given byte offset for idle-worker stealing.
pub fn split_segment(
    segment: &DownloadSegment,
    split_offset: i64,
    min_segment_size: i64,
    new_segment_id: u32,
) -> (r: Option<(DownloadSegment, DownloadSegment)>)
    ensures
        r == split_spec(*segment, split_offset as int, min_segment_size as int, new_segment_id),
        r matches Some((new_segment, modified)) ==> {
            &&& modified.end + 1 == new_segment.start
            &&& new_segment.end == segment.end
            &&& modified.start == segment.start
            &&& new_segment.end - new_segment.start + 1 >= min_segment_size
        },
{
    if min_segment_size <= 0 {
        return None;
    }
    let consumed = i64_max(segment.downloaded, 0);
    let current_start = i64_sat_add(segment.start, consumed);
    if split_offset <= current_start || split_offset > segment.end {
        return None;
    }
    let left_remaining = i64_sat_sub(split_offset, current_start);
    let right_remaining = i64_sat_add(i64_sat_sub(segment.end, split_offset), 1);
    if left_remaining < min_segment_size || right_remaining < min_segment_size {
        return None;
    }
    let new_segment = pending_segment(new_segment_id, split_offset, segment.end, segment.retry_budget);
    let modified = DownloadSegment { end: split_offset - 1, ..*segment };
    Some((new_segment, modified))
}

/// The bytes the first `k` sizes add up to.
pub open spec fn sizes_sum(sizes: Seq<u64>, k: int) -> int
    decreases k,
{
    if k <= 0 { 0 } else { sizes_sum(sizes, k - 1) + sizes[k - 1] as int }
}

proof fn lemma_sizes_sum_monotone(sizes: Seq<u64>, a: int, b: int)
    requires
        0 <= a <= b <= sizes.len(),
    ensures
        sizes_sum(sizes, a) <= sizes_sum(sizes, b),
    decreases b - a,
{
    if a < b {
        lemma_sizes_sum_monotone(sizes, a, b - 1);
    }
}

proof fn lemma_layout(sizes: Seq<u64>, i: int)
    requires
        0 <= i < sizes.len(),
        forall|j: int| 0 <= j < sizes.len() ==> sizes[j] >= 1,
        sizes_sum(sizes, sizes.len() as int) <= u64::MAX,
    ensures
        seg_start(sizes, i) == sizes_sum(sizes, i),
        seg_end(sizes, i) == sizes_sum(sizes, i + 1) - 1,
    decreases i,
{
    lemma_sizes_sum_monotone(sizes, i + 1, sizes.len() as int);
    if i > 0 {
        lemma_layout(sizes, i - 1);
    }
    assert(sizes[i] >= 1);
}

proof fn lemma_equal_sizes(total: int, n: int)
    requires
        1 <= n <= total <= u64::MAX,
    ensures
        equal_sizes_spec(total, n).len() == n,
        forall|j: int| 0 <= j < n ==> equal_sizes_spec(total, n)[j] >= total / n,
        sizes_sum(equal_sizes_spec(total, n), n) == total,
{
    let sizes = equal_sizes_spec(total, n);
    let q = total / n;
    assert(n * q <= total && q >= 1) by (nonlinear_arith)
        requires q == total / n, n >= 1, total >= n;
    assert((n - 1) * q <= n * q) by (nonlinear_arith)
        requires n >= 1, q >= 0;
    assert(total - (n - 1) * q >= q) by (nonlinear_arith)
        requires n * q <= total, n >= 1;
    assert forall|k: int| 0 <= k <= n - 1 implies #[trigger] sizes_sum(sizes, k) == k * q by {
        lemma_equal_prefix(total, n, k);
    }
    assert(sizes_sum(sizes, n - 1) == (n - 1) * q);
}

proof fn lemma_equal_prefix(total: int, n: int, k: int)
    requires
        1 <= n <= total <= u64::MAX,
        0 <= k <= n - 1,
    ensures
        sizes_sum(equal_sizes_spec(total, n), k) == k * (total / n),
    decreases k,
{
    if k > 0 {
        lemma_equal_prefix(total, n, k - 1);
        let q = total / n;
        assert(n * q <= total) by (nonlinear_arith)
            requires q == total / n, n >= 1;
        assert(q <= total) by (nonlinear_arith)
            requires q == total / n, n >= 1, total >= 0;
        assert((k - 1) * q + q == k * q) by (nonlinear_arith);
        let sizes = equal_sizes_spec(total, n);
        assert(sizes[k - 1] as int == q);
        assert(sizes_sum(sizes, k) == sizes_sum(sizes, k - 1) + sizes[k - 1] as int);
        assert(sizes_sum(sizes, k) == k * q);
    } else {
        assert(k * (total / n) == 0) by (nonlinear_arith)
            requires k == 0;
    }
}

/// `1 + 2 + ... + k`.
pub open spec fn tri(k: int) -> int
    decreases k,
{
    if k <= 0 { 0 } else { tri(k - 1) + k }
}

proof fn lemma_tri(k: int)
    requires
        k >= 0,
    ensures
        2 * tri(k) == k * (k + 1),
        tri(k) >= 0,
    decreases k,
{
    if k > 0 {
        lemma_tri(k - 1);
        assert((k - 1) * k + 2 * k == k * (k + 1)) by (nonlinear_arith);
    }
}

proof fn lemma_tri_monotone(a: int, b: int)
    requires
        0 <= a <= b,
    ensures
        tri(a) <= tri(b),
    decreases b - a,
{
    if a < b {
        lemma_tri_monotone(a, b - 1);
    }
}

proof fn lemma_distributed(r: int, n: int, k: int)
    requires
        2 <= n <= u32::MAX,
        0 < r <= u64::MAX,
        0 <= k <= n,
    ensures
        distributed_upto(r, n, k) * weight_sum(n) <= r * tri(k),
        0 <= distributed_upto(r, n, k) <= r,
        k > 0 ==> distributed_upto(r, n, k) == distributed_upto(r, n, k - 1) + shaped_extra(r, n, k - 1),
        k > 0 ==> 0 <= shaped_extra(r, n, k - 1) <= r,
    decreases k,
{
    let ws = weight_sum(n);
    lemma_tri(n);
    assert(n * (n + 1) <= u64::MAX) by (nonlinear_arith)
        requires 2 <= n <= u32::MAX;
    assert(ws == n * (n + 1) / 2);
    assert(ws == tri(n));
    assert(ws >= 3) by (nonlinear_arith)
        requires ws == n * (n + 1) / 2, n >= 2;
    if k > 0 {
        lemma_distributed(r, n, k - 1);
        lemma_tri_monotone(k, n);
        let d = distributed_upto(r, n, k - 1);
        assert(r * k >= 0) by (nonlinear_arith)
            requires k >= 0, r > 0;
        let m = sat_mul(r, k);
        assert(0 <= m <= r * k);
        let e = m / ws;
        assert(shaped_extra(r, n, k - 1) == e);
        assert(e * ws <= m && e >= 0) by (nonlinear_arith)
            requires e == m / ws, ws > 0, m >= 0;
        assert(tri(k) == tri(k - 1) + k);
        assert((d + e) * ws == d * ws + e * ws) by (nonlinear_arith);
        assert(r * tri(k) == r * tri(k - 1) + r * k) by (nonlinear_arith)
            requires tri(k) == tri(k - 1) + k;
        assert((d + e) * ws <= r * tri(k));
        assert(r * tri(k) <= r * ws) by (nonlinear_arith)
            requires tri(k) <= ws, r > 0;
        assert(d + e <= r) by (nonlinear_arith)
            requires (d + e) * ws <= r * ws, ws > 0;
        assert(e <= r);
        assert(distributed_upto(r, n, k) == sat_add(d, e));
        assert(distributed_upto(r, n, k) == d + e);
    } else {
        assert(r * tri(0) == 0) by (nonlinear_arith);
    }
}

proof fn lemma_shaped_prefix(total: int, n: int, w: int, k: int)
    requires
        2 <= n <= u32::MAX,
        1 <= w,
        w * n < total <= u64::MAX,
        0 <= k <= n - 1,
    ensures
        sizes_sum(shaped_sizes_spec(total, n, w), k) == k * w + distributed_upto(shaped_remaining(total, n, w), n, k),
    decreases k,
{
    let r = shaped_remaining(total, n, w);
    let sizes = shaped_sizes_spec(total, n, w);
    assert(sat_mul(w, n) == w * n);
    if k > 0 {
        lemma_shaped_prefix(total, n, w, k - 1);
        lemma_distributed(r, n, k);
        let e = shaped_extra(r, n, k - 1);
        assert(w * n >= w) by (nonlinear_arith)
            requires n >= 2, w >= 1;
        assert(w + e <= u64::MAX);
        assert(sizes[k - 1] as int == w + e);
        assert(sizes_sum(sizes, k) == sizes_sum(sizes, k - 1) + sizes[k - 1] as int);
        assert((k - 1) * w + w == k * w) by (nonlinear_arith);
    } else {
        assert(k * w == 0) by (nonlinear_arith)
            requires k == 0;
    }
}

proof fn lemma_shaped_sizes(total: int, n: int, w: int)
    requires
        2 <= n <= u32::MAX,
        1 <= w,
        w * n < total <= u64::MAX,
    ensures
        shaped_sizes_spec(total, n, w).len() == n,
        forall|j: int| 0 <= j < n ==> shaped_sizes_spec(total, n, w)[j] >= w,
        sizes_sum(shaped_sizes_spec(total, n, w), n) == total,
{
    let r = shaped_remaining(total, n, w);
    let sizes = shaped_sizes_spec(total, n, w);
    assert(sat_mul(w, n) == w * n);
    assert(r == total - w * n && r > 0);
    lemma_distributed(r, n, n);
    assert(w * n >= w) by (nonlinear_arith)
        requires n >= 2, w >= 1;
    assert forall|j: int| 0 <= j < n implies sizes[j] >= w by {
        lemma_distributed(r, n, j + 1);
        assert(w + shaped_extra(r, n, j) <= u64::MAX);
    }
    lemma_shaped_prefix(total, n, w, n - 1);
    let dn = distributed_upto(r, n, n);
    let dl = distributed_upto(r, n, n - 1);
    let e = shaped_extra(r, n, n - 1);
    lemma_distributed(r, n, n - 1);
    assert(dn == dl + e);
    assert(dl >= 0);
    assert(w * n >= w) by (nonlinear_arith)
        requires n >= 2, w >= 1;
    assert(w + r <= total);
    assert(w + e + (r - dn) <= u64::MAX);
    assert(sizes[n - 1] as int == w + e + (r - dn));
    assert(sizes_sum(sizes, n) == sizes_sum(sizes, n - 1) + sizes[n - 1] as int);
    assert((n - 1) * w + w == w * n) by (nonlinear_arith);
    assert(sizes_sum(sizes, n - 1) == (n - 1) * w + dl);
    assert(sizes_sum(sizes, n) == (n - 1) * w + dl + w + e + (r - dn));
}

/// Segments that tile a file of `total` bytes: numbered from 0, each non-empty and not yet
/// started, laid end to end from byte 0 to byte `total - 1`.
pub open spec fn tiles_file(segs: Seq<DownloadSegment>, total: int) -> bool {
    &&& segs.len() >= 1
    &&& segs[0].start == 0
    &&& segs[segs.len() - 1].end == total - 1
    &&& forall|i: int| 0 <= i < segs.len() - 1 ==> #[trigger] segs[i].end + 1 == segs[i + 1].start
    &&& forall|i: int| 0 <= i < segs.len() ==> #[trigger] segs[i].start <= segs[i].end && segs[i].id == i
        && segs[i].downloaded == 0 && segs[i].status == DownloadSegmentStatus::Pending
}

/// The initial plan of a non-empty download tiles the file with at most the requested
/// number of segments: every byte in exactly one segment, segments back to back from byte 0,
/// none smaller than the minimum segment size (at least one byte) unless the file is.
pub proof fn lemma_plan_tiles(total_size: u64, num_segments: u32, min_segment_size: u64, retry_budget: u32, hints: SegmentPlanningHints)
    requires
        0 < total_size <= i64::MAX,
        num_segments > 0,
    ensures
        tiles_file(plan_spec(total_size as int, num_segments as int, min_segment_size as int, retry_budget, hints), total_size as int),
        plan_spec(total_size as int, num_segments as int, min_segment_size as int, retry_budget, hints).len() <= num_segments,
        forall|i: int| 0 <= i < plan_spec(total_size as int, num_segments as int, min_segment_size as int, retry_budget, hints).len()
            ==> #[trigger] plan_spec(total_size as int, num_segments as int, min_segment_size as int, retry_budget, hints)[i].end
                - plan_spec(total_size as int, num_segments as int, min_segment_size as int, retry_budget, hints)[i].start + 1
                >= min_int(max_int(min_segment_size as int, 1), total_size as int),
{
    let total = total_size as int;
    let min1 = max_int(min_segment_size as int, 1);
    let n = actual_count_spec(total, num_segments as int, min1);
    assert(total / min1 <= total) by (nonlinear_arith)
        requires min1 >= 1, total >= 0;
    assert(1 <= n <= num_segments && n <= total);
    let sizes = plan_sizes_spec(total, n, min1, hints);
    if shaped_applies(total, n, min1, hints) {
        let w = shaped_window_spec(total, n, min1, hints);
        assert(w >= 1);
        assert(w * n < total) by (nonlinear_arith)
            requires w < total / n, n >= 1, total >= 0;
        lemma_shaped_sizes(total, n, w);
        assert(w >= min1);
    } else {
        lemma_equal_sizes(total, n);
        if n >= 2 {
            assert(n * min1 <= total) by (nonlinear_arith)
                requires n <= total / min1, min1 >= 1, total >= 0;
            assert(total / n >= min1) by (nonlinear_arith)
                requires n * min1 <= total, n >= 1;
        }
    }
    assert(sizes.len() == n);
    assert forall|j: int| 0 <= j < n implies sizes[j] >= min_int(min1, total) by {}
    let segs = plan_spec(total, num_segments as int, min_segment_size as int, retry_budget, hints);
    assert(segs == build_spec(sizes, retry_budget));
    assert forall|i: int| 0 <= i < n implies seg_start(sizes, i) == sizes_sum(sizes, i)
        && seg_end(sizes, i) == sizes_sum(sizes, i + 1) - 1
        && 0 <= sizes_sum(sizes, i) < sizes_sum(sizes, i + 1) <= total by {
        lemma_layout(sizes, i);
        lemma_sizes_sum_monotone(sizes, 0, i);
        lemma_sizes_sum_monotone(sizes, i + 1, n);
    }
    assert forall|i: int| 0 <= i < segs.len() implies #[trigger] segs[i].start <= segs[i].end && segs[i].id == i
        && segs[i].downloaded == 0 && segs[i].status == DownloadSegmentStatus::Pending
        && segs[i].end - segs[i].start + 1 >= min_int(min1, total) by {
        assert(segs[i].start == sizes_sum(sizes, i));
        assert(segs[i].end == sizes_sum(sizes, i + 1) - 1);
        assert(sizes_sum(sizes, i + 1) == sizes_sum(sizes, i) + sizes[i] as int);
    }
    assert forall|i: int| 0 <= i < segs.len() - 1 implies #[trigger] segs[i].end + 1 == segs[i + 1].start by {
        assert(segs[i].end == sizes_sum(sizes, i + 1) - 1);
        assert(segs[i + 1].start == sizes_sum(sizes, i + 1));
    }
    assert(segs[0].start == 0);
    assert(segs[n - 1].end == total - 1);
}

} // verus!
