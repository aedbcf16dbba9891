//! The live ramping of a download's connection target: the recent throughput samples kept
//! per target, the stable speed and TTFB read from them, and the decision, at each supply
//! tick, to raise the target (one step, or two on the fast path), to lower it after enough
//! windows that lost throughput, or to hold it.
//!
//! The tuning values (sampling interval, history retention, window size, intervals, speed
//! floors and gain percentages) are a [`RampConfig`] the caller supplies.

use vstd::prelude::*;
use crate::arith::{sat_add, sat_mul, sat_sub_i64, ceil_div, max_int, min_int, u64_sat_mul, i64_sat_sub, u32_sat_add};
use crate::download::DownloadRecord;
use crate::model::opt_text;
use crate::host_planner::{gain_threshold_spec, sat_add_u32};
use crate::model::{DownloadSegment, DownloadSegmentStatus};
use crate::disk_pool::QueuePressureTier;

verus! {

/// The tuning of live ramping.
#[derive(Clone, Copy, Debug)]
pub struct RampConfig {
    /// Samples of one target closer together than this replace each other.
    pub sample_min_interval_ms: i64,
    /// Samples older than this are forgotten.
    pub history_retention_ms: i64,
    /// How many recent samples of a target make a window.
    pub window_samples: usize,
    /// The interval between changes, and the speed floor to ramp, at two connections or fewer.
    pub warmup_min_interval_ms: i64,
    pub warmup_min_speed_bytes_per_second: u64,
    /// The interval between changes, and the speed floor to ramp, above two connections.
    pub min_interval_ms: i64,
    pub min_speed_bytes_per_second: u64,
    /// The gain, in percent of the reference throughput, that allows the fast path.
    pub fast_path_gain_percent: u64,
    /// The loss, in percent of the reference throughput, that counts as a losing window.
    pub negative_gain_percent: u64,
    /// The highest stable TTFB that allows the fast path.
    pub fast_path_max_ttfb_ms: u64,
    /// How many losing windows in a row lower the target.
    pub negative_gain_windows: u32,
}

/// One throughput sample at a connection target.
#[derive(Clone, Copy, Debug, PartialEq, Eq, Structural)]
pub struct RampSample {
    pub recorded_at_ms: i64,
    pub target_connections: u32,
    pub speed_bytes_per_second: u64,
    pub ttfb_ms: Option<u64>,
}

/// The ramp state of one running download.
#[derive(Clone, Debug)]
pub struct RuntimeRampState {
    pub samples: Vec<RampSample>,
    pub last_change_at_ms: i64,
    pub last_change_speed: Option<u64>,
    pub last_changed_target: u32,
    pub negative_gain_windows: u32,
}

/// What a ramp state holds, as plain values.
pub struct RampView {
    pub samples: Seq<RampSample>,
    pub last_change_at_ms: i64,
    pub last_change_speed: Option<u64>,
    pub last_changed_target: u32,
    pub negative_gain_windows: u32,
}

pub open spec fn ramp_view(s: RuntimeRampState) -> RampView {
    RampView {
        samples: s.samples@,
        last_change_at_ms: s.last_change_at_ms,
        last_change_speed: s.last_change_speed,
        last_changed_target: s.last_changed_target,
        negative_gain_windows: s.negative_gain_windows,
    }
}

/// `samples` without its leading samples older than `cutoff`.
pub open spec fn drop_old(samples: Seq<RampSample>, cutoff: int) -> Seq<RampSample>
    decreases samples.len(),
{
    if samples.len() > 0 && samples[0].recorded_at_ms < cutoff {
        drop_old(samples.drop_first(), cutoff)
    } else {
        samples
    }
}

/// The last `n` of `samples` (all of them when there are fewer).
pub open spec fn keep_last(samples: Seq<RampSample>, n: int) -> Seq<RampSample> {
    if samples.len() > n { samples.subrange(samples.len() - n, samples.len() as int) } else { samples }
}

/// The samples after `sample` is recorded at `now`: it replaces the last one when that is of
/// the same target and too recent; then samples older than the retention are dropped from
/// the front, and at most four windows are kept.
pub open spec fn recorded_samples(cfg: RampConfig, samples: Seq<RampSample>, sample: RampSample, now: i64) -> Seq<RampSample> {
    let pushed = if samples.len() > 0 && samples.last().target_connections == sample.target_connections
        && sat_sub_i64(now as int, samples.last().recorded_at_ms as int) < cfg.sample_min_interval_ms {
        samples.drop_last().push(sample)
    } else {
        samples.push(sample)
    };
    keep_last(drop_old(pushed, sat_sub_i64(now as int, cfg.history_retention_ms as int)),
        min_int(cfg.window_samples as int * 4, usize::MAX as int))
}

/// The state after a sample at `target` (at least one) with `speed` and `ttfb` is recorded
/// at `now`: a target other than the last changed one counts as a change made now.
pub open spec fn record_spec(cfg: RampConfig, s: RampView, now: i64, target: u32, speed: u64, ttfb: Option<u64>) -> RampView {
    let t = max_int(target as int, 1) as u32;
    let sample = RampSample { recorded_at_ms: now, target_connections: t, speed_bytes_per_second: speed, ttfb_ms: ttfb };
    let base = if s.last_changed_target != t {
        RampView { last_changed_target: t, last_change_at_ms: now, last_change_speed: None, negative_gain_windows: 0, ..s }
    } else {
        s
    };
    RampView { samples: recorded_samples(cfg, s.samples, sample, now), ..base }
}

/// Which samples a window reads, and what it reads from each.
#[derive(Clone, Copy, Debug, PartialEq, Eq, Structural)]
pub enum PickKind {
    /// Positive speeds.
    Speed,
    /// TTFBs.
    Ttfb,
    /// Every sample (its speed).
    Any,
}

pub open spec fn picks(kind: PickKind, target: u32, x: RampSample) -> bool {
    x.target_connections == target && match kind {
        PickKind::Speed => x.speed_bytes_per_second > 0,
        PickKind::Ttfb => x.ttfb_ms is Some,
        PickKind::Any => true,
    }
}

pub open spec fn pick_value(kind: PickKind, x: RampSample) -> u64 {
    match kind {
        PickKind::Ttfb => x.ttfb_ms->0,
        _ => x.speed_bytes_per_second,
    }
}

/// The values of the latest `n` samples of `target` that `kind` reads, latest first.
pub open spec fn picked(s: Seq<RampSample>, kind: PickKind, target: u32, n: nat) -> Seq<u64>
    decreases s.len(),
{
    if s.len() == 0 || n == 0 {
        Seq::empty()
    } else if picks(kind, target, s.last()) {
        seq![pick_value(kind, s.last())] + picked(s.drop_last(), kind, target, (n - 1) as nat)
    } else {
        picked(s.drop_last(), kind, target, n)
    }
}

/// The saturating sum of `v`, in order.
pub open spec fn sat_total(v: Seq<u64>) -> int
    decreases v.len(),
{
    if v.len() == 0 { 0 } else { sat_add(sat_total(v.drop_last()), v.last() as int) }
}

/// The average of `v` (its saturating sum divided by its length); none for no values.
pub open spec fn average_spec(v: Seq<u64>) -> Option<u64> {
    if v.len() == 0 { None } else { Some((sat_total(v) / (v.len() as int)) as u64) }
}

/// The stable speed at `target`: the average of its latest window of positive speeds.
pub open spec fn stable_speed_spec(cfg: RampConfig, s: RampView, target: u32) -> Option<u64> {
    average_spec(picked(s.samples, PickKind::Speed, target, cfg.window_samples as nat))
}

/// The number of samples in the latest window at `target`.
pub open spec fn sample_count_spec(cfg: RampConfig, s: RampView, target: u32) -> int {
    picked(s.samples, PickKind::Any, target, cfg.window_samples as nat).len() as int
}

/// What a stable TTFB may be: none without TTFB samples, else their median.
pub open spec fn stable_ttfb_ok(cfg: RampConfig, s: RampView, target: u32, r: Option<u64>) -> bool {
    let v = picked(s.samples, PickKind::Ttfb, target, cfg.window_samples as nat);
    if v.len() == 0 { r is None } else { r matches Some(m) && crate::scheduler::median_of(v, m) }
}

/// The stable TTFB at `target`, else `fallback` when the window holds no TTFB.
pub open spec fn stable_ttfb_or(cfg: RampConfig, s: RampView, target: u32, fallback: Option<u64>, r: Option<u64>) -> bool {
    let v = picked(s.samples, PickKind::Ttfb, target, cfg.window_samples as nat);
    if v.len() == 0 { r == fallback } else { r matches Some(m) && crate::scheduler::median_of(v, m) }
}

/// The throughput gained since the last change at `target`, when it is that change's target
/// and both the baseline and the stable speed are known.
pub open spec fn gain_spec(cfg: RampConfig, s: RampView, target: u32) -> Option<i64> {
    if s.last_changed_target != target {
        None
    } else {
        match (s.last_change_speed, stable_speed_spec(cfg, s, target)) {
            (Some(baseline), Some(stable)) => Some(sat_sub_i64(min_int(stable as int, i64::MAX as int), min_int(baseline as int, i64::MAX as int)) as i64),
            _ => None,
        }
    }
}

/// The interval between changes and the speed floor a ramp needs at `target`.
pub open spec fn requirements_spec(cfg: RampConfig, target: u32) -> (i64, u64) {
    if target <= 2 {
        (cfg.warmup_min_interval_ms, cfg.warmup_min_speed_bytes_per_second)
    } else {
        (cfg.min_interval_ms, cfg.min_speed_bytes_per_second)
    }
}

/// The gain (or, for a loss, its size) that counts against `reference`: at least the host
/// planner's gain threshold, and at least `percent` of the reference.
pub open spec fn gain_threshold_pct(reference: u64, percent: u64) -> int {
    max_int(gain_threshold_spec(reference as int), min_int(ceil_div(sat_mul(reference as int, percent as int), 100), i64::MAX as int))
}

/// Whether a ramp at `current` may jump two connections: from two, with room for four, a
/// full window, a quick stable TTFB and a gain over the fast-path threshold.
pub open spec fn fast_path_spec(cfg: RampConfig, current: u32, max_target: u32, sample_count: int, stable_ttfb: Option<u64>,
    last_change_speed: Option<u64>, gain: Option<i64>) -> bool
{
    &&& current == 2
    &&& max_target >= 4
    &&& sample_count >= cfg.window_samples
    &&& stable_ttfb matches Some(t) && t <= cfg.fast_path_max_ttfb_ms
    &&& match (last_change_speed, gain) {
        (Some(reference), Some(g)) => reference > 0 && g >= gain_threshold_pct(reference, cfg.fast_path_gain_percent),
        _ => false,
    }
}

/// Whether the window at `current` lost enough throughput to count toward a downshift.
pub open spec fn downshift_spec(cfg: RampConfig, current: u32, sample_count: int, last_change_speed: Option<u64>, gain: Option<i64>) -> bool {
    &&& current > 1
    &&& sample_count >= cfg.window_samples
    &&& match (last_change_speed, gain) {
        (Some(reference), Some(g)) => reference > 0 && g <= -gain_threshold_pct(reference, cfg.negative_gain_percent),
        _ => false,
    }
}

/// How many segments of `segs` have status `st`.
pub open spec fn count_status(segs: Seq<DownloadSegment>, st: DownloadSegmentStatus) -> int
    decreases segs.len(),
{
    if segs.len() == 0 { 0 } else { count_status(segs.drop_last(), st) + (if segs.last().status == st { 1int } else { 0int }) }
}

/// What a supply tick did to the live target.
#[derive(Clone, Copy, Debug, PartialEq, Eq, Structural)]
pub enum RampOutcome {
    /// The target stays.
    Held,
    /// The target went up from `from` to `to`, two steps on the fast path.
    Raised { from: u32, to: u32, fast_path: bool, stable_speed: u64, stable_ttfb_ms: Option<u64>, sustained_gain: Option<i64> },
    /// The target went down from `from` to `to` after losing about `lost_gain` bytes/s.
    Reduced { from: u32, to: u32, lost_gain: u64, stable_speed: u64, stable_ttfb_ms: Option<u64>, sustained_gain: Option<i64> },
}

/// The signals of one supply tick besides the download and the ramp state.
#[derive(Clone, Copy, Debug)]
pub struct SupplySignals {
    pub now: i64,
    pub min_segment_size_bytes: u64,
    pub disk_tier: QueuePressureTier,
    pub disk_blocks_supply: bool,
    pub median_ttfb_ms: Option<u64>,
}

/// The decision of one supply tick over a download `d` (before) and the ramp state `s`
/// after the tick's sample was recorded; `stable_ttfb` is the stable TTFB read then.
pub open spec fn ramp_decision_ok(cfg: RampConfig, d: DownloadRecord, s: RampView, sig: SupplySignals, stable_ttfb: Option<u64>,
    outcome: RampOutcome, d2: DownloadRecord, s2: RampView) -> bool
{
    let now = sig.now;
    let current = max_int(d.target_connections as int, 1) as u32;
    let max_target = max_int(d.max_connections as int, 1) as u32;
    let busy = sat_add_u32(count_status(d.segments@, DownloadSegmentStatus::Downloading),
        count_status(d.segments@, DownloadSegmentStatus::Pending));
    let remaining = max_int(d.size - d.downloaded, 0);
    let window = sat_mul(sig.min_segment_size_bytes as int, sat_add_u32(current as int, 1));
    let stable = match stable_speed_spec(cfg, s, current) { Some(v) => v, None => d.speed };
    let count = sample_count_spec(cfg, s, current);
    let gain = gain_spec(cfg, s, current);
    let (interval, floor) = requirements_spec(cfg, current);
    let cooling = crate::host_planner::cooldown_active_spec(d.host_cooldown_until, now);
    let baseline = max_int(stable as int, 1) as u64;
    let can_ramp = sat_sub_i64(now as int, s.last_change_at_ms as int) >= interval
        && d.capabilities.segmented && !sig.disk_blocks_supply && !cooling && current < max_target
        && busy >= current && remaining >= window && stable >= floor
        && crate::disk_pool::parallelism_spec(min_int(sat_add_u32(current as int, 1), max_target as int), sig.disk_tier) > current;
    if can_ramp {
        let fast = fast_path_spec(cfg, current, max_target, count, stable_ttfb, s.last_change_speed, gain);
        let next = min_int(sat_add_u32(current as int, if fast { 2 } else { 1 }), max_target as int) as u32;
        &&& outcome == RampOutcome::Raised { from: current, to: next, fast_path: fast, stable_speed: stable, stable_ttfb_ms: stable_ttfb, sustained_gain: gain }
        &&& d2 == DownloadRecord { target_connections: next, ..d }
        &&& s2 == RampView { last_change_at_ms: now, last_change_speed: Some(baseline), last_changed_target: next, negative_gain_windows: 0, ..s }
    } else if !sig.disk_blocks_supply && !cooling && busy >= current && downshift_spec(cfg, current, count, s.last_change_speed, gain) {
        let windows = min_int(s.negative_gain_windows as int + 1, u32::MAX as int) as u32;
        if windows >= cfg.negative_gain_windows && current > 1 {
            let next = (current - 1) as u32;
            let lost = match gain { Some(g) => if g < 0 { -g } else { g as int }, None => 0 };
            &&& outcome == RampOutcome::Reduced { from: current, to: next, lost_gain: lost as u64, stable_speed: stable, stable_ttfb_ms: stable_ttfb, sustained_gain: gain }
            &&& d2 == DownloadRecord { target_connections: next, ..d }
            &&& s2 == RampView { last_change_at_ms: now, last_change_speed: Some(baseline), last_changed_target: next, negative_gain_windows: 0, ..s }
        } else {
            &&& outcome == RampOutcome::Held
            &&& d2 == d
            &&& s2 == RampView { negative_gain_windows: windows, ..s }
        }
    } else {
        &&& outcome == RampOutcome::Held
        &&& d2 == d
        &&& s2 == RampView { negative_gain_windows: 0, ..s }
    }
}

proof fn lemma_drop_old_step(s: Seq<RampSample>, k: int, cutoff: int)
    requires
        0 <= k < s.len(),
        s[k].recorded_at_ms < cutoff,
    ensures
        drop_old(s.subrange(k, s.len() as int), cutoff) == drop_old(s.subrange(k + 1, s.len() as int), cutoff),
{
    let t = s.subrange(k, s.len() as int);
    assert(t.drop_first() =~= s.subrange(k + 1, s.len() as int));
}

proof fn lemma_picked_step(s: Seq<RampSample>, i: int, kind: PickKind, target: u32, n: nat)
    requires
        0 < i <= s.len(),
        n > 0,
    ensures
        picked(s.take(i), kind, target, n) == if picks(kind, target, s[i - 1]) {
            seq![pick_value(kind, s[i - 1])] + picked(s.take(i - 1), kind, target, (n - 1) as nat)
        } else {
            picked(s.take(i - 1), kind, target, n)
        },
{
    assert(s.take(i).drop_last() =~= s.take(i - 1));
    assert(s.take(i).last() == s[i - 1]);
}

proof fn lemma_sat_total_push(v: Seq<u64>, x: u64)
    ensures
        sat_total(v.push(x)) == sat_add(sat_total(v), x as int),
{
    assert(v.push(x).drop_last() =~= v);
}

proof fn lemma_sat_total_bound(v: Seq<u64>)
    ensures
        0 <= sat_total(v) <= u64::MAX,
    decreases v.len(),
{
    if v.len() > 0 {
        lemma_sat_total_bound(v.drop_last());
    }
}

proof fn lemma_count_status_step(segs: Seq<DownloadSegment>, i: int, st: DownloadSegmentStatus)
    requires
        0 < i <= segs.len(),
    ensures
        count_status(segs.take(i), st) == count_status(segs.take(i - 1), st) + (if segs[i - 1].status == st { 1int } else { 0int }),
{
    assert(segs.take(i).drop_last() =~= segs.take(i - 1));
}

proof fn lemma_count_status_bound(segs: Seq<DownloadSegment>, st: DownloadSegmentStatus)
    ensures
        0 <= count_status(segs, st) <= segs.len(),
    decreases segs.len(),
{
    if segs.len() > 0 {
        lemma_count_status_bound(segs.drop_last(), st);
    }
}

fn count_segments(segs: &Vec<DownloadSegment>, st: DownloadSegmentStatus) -> (r: u32)
    ensures
        r == min_int(count_status(segs@, st), u32::MAX as int),
{
    let mut n: u32 = 0;
    let mut i: usize = 0;
    while i < segs.len()
        invariant
            i <= segs@.len(),
            n == min_int(count_status(segs@.take(i as int), st), u32::MAX as int),
        decreases segs@.len() - i,
    {
        proof {
            lemma_count_status_step(segs@, i as int + 1, st);
            lemma_count_status_bound(segs@.take(i as int), st);
        }
        if segs[i].status == st {
            n = u32_sat_add(n, 1);
        }
        i = i + 1;
    }
    assert(segs@.take(segs@.len() as int) =~= segs@);
    n
}

fn pick_values(samples: &Vec<RampSample>, kind: PickKind, target: u32, n: usize) -> (r: Vec<u64>)
    ensures
        r@ == picked(samples@, kind, target, n as nat),
{
    let mut out: Vec<u64> = Vec::new();
    let mut i: usize = samples.len();
    assert(samples@.take(i as int) =~= samples@);
    while i > 0 && out.len() < n
        invariant
            i <= samples@.len(),
            out@.len() <= n,
            picked(samples@, kind, target, n as nat) == out@ + picked(samples@.take(i as int), kind, target, (n - out@.len()) as nat),
        decreases i,
    {
        let x = samples[i - 1];
        proof { lemma_picked_step(samples@, i as int, kind, target, (n - out@.len()) as nat); }
        let keep = x.target_connections == target && match kind {
            PickKind::Speed => x.speed_bytes_per_second > 0,
            PickKind::Ttfb => x.ttfb_ms.is_some(),
            PickKind::Any => true,
        };
        if keep {
            let value = match kind {
                PickKind::Ttfb => match x.ttfb_ms { Some(t) => t, None => 0 },
                _ => x.speed_bytes_per_second,
            };
            let ghost before = out@;
            out.push(value);
            assert(out@ == before + seq![value]);
            assert(before + (seq![value] + picked(samples@.take(i - 1), kind, target, (n - before.len() - 1) as nat))
                =~= out@ + picked(samples@.take(i - 1), kind, target, (n - out@.len()) as nat));
        }
        i = i - 1;
    }
    proof {
        if i == 0 {
            assert(samples@.take(0) =~= Seq::<RampSample>::empty());
        }
        assert(out@ + Seq::<u64>::empty() =~= out@);
    }
    out
}

fn average_of(v: &Vec<u64>) -> (r: Option<u64>)
    ensures
        r == average_spec(v@),
{
    if v.len() == 0 {
        return None;
    }
    let mut total: u64 = 0;
    let mut i: usize = 0;
    while i < v.len()
        invariant
            i <= v@.len(),
            total == sat_total(v@.take(i as int)),
        decreases v@.len() - i,
    {
        proof {
            lemma_sat_total_push(v@.take(i as int), v@[i as int]);
            assert(v@.take(i as int + 1) =~= v@.take(i as int).push(v@[i as int]));
        }
        total = crate::arith::u64_sat_add(total, v[i]);
        i = i + 1;
    }
    assert(v@.take(v@.len() as int) =~= v@);
    proof { lemma_sat_total_bound(v@); }
    Some(total / (v.len() as u64))
}

impl RuntimeRampState {
    /// A fresh state at `current_target` (at least one), as if it changed at `now`.
    pub fn new(now: i64, current_target: u32) -> (s: Self)
        ensures
            ramp_view(s) == (RampView {
                samples: Seq::empty(),
                last_change_at_ms: now,
                last_change_speed: None,
                last_changed_target: max_int(current_target as int, 1) as u32,
                negative_gain_windows: 0,
            }),
    {
        let s = RuntimeRampState {
            samples: Vec::new(),
            last_change_at_ms: now,
            last_change_speed: None,
            last_changed_target: if current_target < 1 { 1 } else { current_target },
            negative_gain_windows: 0,
        };
        assert(ramp_view(s).samples =~= Seq::<RampSample>::empty());
        s
    }

    /// Records a throughput sample.
    pub fn record_sample(&mut self, cfg: &RampConfig, now: i64, current_target: u32, speed: u64, ttfb_ms: Option<u64>)
        ensures
            ramp_view(*final(self)) == record_spec(*cfg, ramp_view(*old(self)), now, current_target, speed, ttfb_ms),
    {
        let t: u32 = if current_target < 1 { 1 } else { current_target };
        if self.last_changed_target != t {
            self.last_changed_target = t;
            self.last_change_at_ms = now;
            self.last_change_speed = None;
            self.negative_gain_windows = 0;
        }
        let sample = RampSample { recorded_at_ms: now, target_connections: t, speed_bytes_per_second: speed, ttfb_ms };
        let len = self.samples.len();
        let replace = len > 0 && self.samples[len - 1].target_connections == t
            && i64_sat_sub(now, self.samples[len - 1].recorded_at_ms) < cfg.sample_min_interval_ms;
        if replace {
            self.samples.set(len - 1, sample);
            assert(self.samples@ =~= old(self).samples@.drop_last().push(sample));
        } else {
            self.samples.push(sample);
        }
        let ghost pushed = self.samples@;
        let cutoff = i64_sat_sub(now, cfg.history_retention_ms);
        let mut k: usize = 0;
        assert(pushed.subrange(0, pushed.len() as int) =~= pushed);
        while k < self.samples.len() && self.samples[k].recorded_at_ms < cutoff
            invariant
                k <= self.samples@.len(),
                self.samples@ == pushed,
                drop_old(pushed, cutoff as int) == drop_old(pushed.subrange(k as int, pushed.len() as int), cutoff as int),
            decreases self.samples@.len() - k,
        {
            proof { lemma_drop_old_step(pushed, k as int, cutoff as int); }
            k = k + 1;
        }
        let cap: usize = if cfg.window_samples > usize::MAX / 4 { usize::MAX } else { cfg.window_samples * 4 };
        let kept_len = self.samples.len() - k;
        let from: usize = if kept_len > cap { self.samples.len() - cap } else { k };
        let ghost rest = pushed.subrange(k as int, pushed.len() as int);
        proof {
            if k < pushed.len() {
                assert(rest.len() > 0 && rest[0].recorded_at_ms >= cutoff);
            }
            assert(drop_old(rest, cutoff as int) == rest);
        }
        let mut kept: Vec<RampSample> = Vec::new();
        let mut j: usize = from;
        while j < self.samples.len()
            invariant
                from <= j <= self.samples@.len(),
                self.samples@ == pushed,
                kept@ == pushed.subrange(from as int, j as int),
            decreases self.samples@.len() - j,
        {
            kept.push(self.samples[j]);
            assert(kept@ =~= pushed.subrange(from as int, j as int + 1));
            j = j + 1;
        }
        proof {
            assert(cap as int == min_int(cfg.window_samples as int * 4, usize::MAX as int));
            assert(keep_last(rest, cap as int) =~= pushed.subrange(from as int, pushed.len() as int));
        }
        self.samples = kept;
    }

    /// The stable speed at `target`.
    pub fn stable_speed(&self, cfg: &RampConfig, target: u32) -> (r: Option<u64>)
        ensures
            r == stable_speed_spec(*cfg, ramp_view(*self), target),
    {
        let v = pick_values(&self.samples, PickKind::Speed, target, cfg.window_samples);
        average_of(&v)
    }

    /// The stable TTFB at `target`: the median of its latest window of TTFBs.
    pub fn stable_ttfb_ms(&self, cfg: &RampConfig, target: u32) -> (r: Option<u64>)
        ensures
            stable_ttfb_ok(*cfg, ramp_view(*self), target, r),
    {
        let v = pick_values(&self.samples, PickKind::Ttfb, target, cfg.window_samples);
        if v.len() == 0 {
            None
        } else {
            Some(crate::scheduler::median(&v))
        }
    }

    /// The number of samples in the latest window at `target`.
    pub fn sample_count(&self, cfg: &RampConfig, target: u32) -> (r: usize)
        ensures
            r == sample_count_spec(*cfg, ramp_view(*self), target),
    {
        pick_values(&self.samples, PickKind::Any, target, cfg.window_samples).len()
    }

    /// The throughput gained since the last change, at `target`.
    pub fn marginal_gain(&self, cfg: &RampConfig, target: u32) -> (r: Option<i64>)
        ensures
            r == gain_spec(*cfg, ramp_view(*self), target),
    {
        if self.last_changed_target != target {
            return None;
        }
        let baseline = match self.last_change_speed { Some(b) => b, None => { return None; } };
        let stable = match self.stable_speed(cfg, target) { Some(v) => v, None => { return None; } };
        let a: i64 = if stable > 9223372036854775807u64 { i64::MAX } else { stable as i64 };
        let b: i64 = if baseline > 9223372036854775807u64 { i64::MAX } else { baseline as i64 };
        Some(i64_sat_sub(a, b))
    }
}

fn gain_threshold_for(reference: u64, percent: u64) -> (r: i64)
    ensures
        r == gain_threshold_pct(reference, percent),
{
    let product = u64_sat_mul(reference, percent);
    let relative = product / 100 + if product % 100 == 0 { 0 } else { 1 };
    assert(relative == ceil_div(product as int, 100)) by (nonlinear_arith)
        requires relative == product / 100 + if product % 100 == 0 { 0int } else { 1int }, product >= 0;
    let rel: i64 = if relative > 9223372036854775807u64 { i64::MAX } else { relative as i64 };
    let base = crate::host_planner::ramp_gain_threshold_bytes_per_second(reference);
    if base < rel { rel } else { base }
}

/// Whether a ramp at `current` may take the fast path.
pub fn should_fast_path_ramp(cfg: &RampConfig, current: u32, max_target: u32, sample_count: usize, stable_ttfb_ms: Option<u64>,
    last_change_speed: Option<u64>, sustained_gain: Option<i64>) -> (r: bool)
    ensures
        r == fast_path_spec(*cfg, current, max_target, sample_count as int, stable_ttfb_ms, last_change_speed, sustained_gain),
{
    if current != 2 || max_target < 4 || sample_count < cfg.window_samples {
        return false;
    }
    match stable_ttfb_ms {
        Some(t) => if t > cfg.fast_path_max_ttfb_ms { return false; },
        None => { return false; },
    }
    match (last_change_speed, sustained_gain) {
        (Some(reference), Some(gain)) => reference > 0 && gain >= gain_threshold_for(reference, cfg.fast_path_gain_percent),
        _ => false,
    }
}

/// Whether the window at `current` lost enough throughput to count toward a downshift.
pub fn should_proactively_downshift(cfg: &RampConfig, current: u32, sample_count: usize, last_change_speed: Option<u64>,
    sustained_gain: Option<i64>) -> (r: bool)
    ensures
        r == downshift_spec(*cfg, current, sample_count as int, last_change_speed, sustained_gain),
{
    if current <= 1 || sample_count < cfg.window_samples {
        return false;
    }
    match (last_change_speed, sustained_gain) {
        (Some(reference), Some(gain)) => reference > 0 && (gain as i128) <= -(gain_threshold_for(reference, cfg.negative_gain_percent) as i128),
        _ => false,
    }
}

/// One supply tick of live ramping over download `d` at `signals.now`: the tick's sample
/// (the download's speed and the median TTFB) is recorded, then the target is raised when
/// the last change is old enough, the transfer is segmented, neither the disk nor a host
/// cooldown holds supply back, every current connection is busy, enough bytes remain for
/// one more segment, the stable speed clears the floor and the disk allows one more writer;
/// else lowered after enough losing windows; else held. The download's target is updated;
/// everything else of it is unchanged.
#[verifier::rlimit(60)]
pub fn adjust_live_target_at(cfg: &RampConfig, ramp: &mut RuntimeRampState, d: &mut DownloadRecord, signals: SupplySignals) -> (r: RampOutcome)
    requires
        old(d).size - old(d).downloaded <= i64::MAX,
        old(d).size - old(d).downloaded >= i64::MIN,
    ensures
        exists|stable_ttfb: Option<u64>| #![trigger stable_ttfb_or(*cfg, record_spec(*cfg, ramp_view(*old(ramp)), signals.now, max_int(old(d).target_connections as int, 1) as u32,
                old(d).speed, signals.median_ttfb_ms), max_int(old(d).target_connections as int, 1) as u32, signals.median_ttfb_ms, stable_ttfb)] {
            let s = record_spec(*cfg, ramp_view(*old(ramp)), signals.now, max_int(old(d).target_connections as int, 1) as u32,
                old(d).speed, signals.median_ttfb_ms);
            &&& stable_ttfb_or(*cfg, s, max_int(old(d).target_connections as int, 1) as u32, signals.median_ttfb_ms, stable_ttfb)
            &&& ramp_decision_ok(*cfg, *old(d), s, signals, stable_ttfb, r, *final(d), ramp_view(*final(ramp)))
        },
{
    let now = signals.now;
    let ghost d0 = *d;
    let current: u32 = if d.target_connections < 1 { 1 } else { d.target_connections };
    let max_target: u32 = if d.max_connections < 1 { 1 } else { d.max_connections };
    let active = count_segments(&d.segments, DownloadSegmentStatus::Downloading);
    let queued = count_segments(&d.segments, DownloadSegmentStatus::Pending);
    proof {
        lemma_count_status_bound(d.segments@, DownloadSegmentStatus::Downloading);
        lemma_count_status_bound(d.segments@, DownloadSegmentStatus::Pending);
    }
    let busy = u32_sat_add(active, queued);
    let diff: i64 = d.size - d.downloaded;
    let remaining: u64 = if diff < 0 { 0 } else { diff as u64 };
    let window = u64_sat_mul(signals.min_segment_size_bytes, u32_sat_add(current, 1) as u64);
    let speed = d.speed;
    ramp.record_sample(cfg, now, current, speed, signals.median_ttfb_ms);
    let ghost s = ramp_view(*ramp);
    let stable = match ramp.stable_speed(cfg, current) { Some(v) => v, None => speed };
    let stable_ttfb = match ramp.stable_ttfb_ms(cfg, current) { Some(v) => Some(v), None => signals.median_ttfb_ms };
    assert(stable_ttfb_or(*cfg, s, current, signals.median_ttfb_ms, stable_ttfb));
    let count = ramp.sample_count(cfg, current);
    let gain = ramp.marginal_gain(cfg, current);
    let (interval, floor) = if current <= 2 {
        (cfg.warmup_min_interval_ms, cfg.warmup_min_speed_bytes_per_second)
    } else {
        (cfg.min_interval_ms, cfg.min_speed_bytes_per_second)
    };
    let cooling = crate::host_planner::cooldown_active(d.host_cooldown_until, now);
    let baseline: u64 = if stable < 1 { 1 } else { stable };
    let next_up: u32 = { let n = u32_sat_add(current, 1); if n < max_target { n } else { max_target } };
    let can_ramp = i64_sat_sub(now, ramp.last_change_at_ms) >= interval
        && d.capabilities.segmented && !signals.disk_blocks_supply && !cooling && current < max_target
        && busy >= current && remaining >= window && stable >= floor
        && crate::disk_pool::recommended_parallelism_for_pressure(next_up, signals.disk_tier) > current;
    if can_ramp {
        let fast = should_fast_path_ramp(cfg, current, max_target, count, stable_ttfb, ramp.last_change_speed, gain);
        let stepped = u32_sat_add(current, if fast { 2 } else { 1 });
        let next: u32 = if stepped < max_target { stepped } else { max_target };
        d.target_connections = next;
        ramp.last_change_at_ms = now;
        ramp.last_change_speed = Some(baseline);
        ramp.last_changed_target = next;
        ramp.negative_gain_windows = 0;
        let r = RampOutcome::Raised { from: current, to: next, fast_path: fast, stable_speed: stable, stable_ttfb_ms: stable_ttfb, sustained_gain: gain };
        assert(*d == DownloadRecord { target_connections: next, ..d0 });
        assert(ramp_decision_ok(*cfg, d0, s, signals, stable_ttfb, r, *d, ramp_view(*ramp)));
        return r;
    }
    if !signals.disk_blocks_supply && !cooling && busy >= current
        && should_proactively_downshift(cfg, current, count, ramp.last_change_speed, gain) {
        let windows: u32 = if ramp.negative_gain_windows == u32::MAX { u32::MAX } else { ramp.negative_gain_windows + 1 };
        if windows >= cfg.negative_gain_windows && current > 1 {
            let next: u32 = current - 1;
            let lost: u64 = match gain { Some(g) => if g < 0 { (-(g as i128)) as u64 } else { g as u64 }, None => 0 };
            d.target_connections = next;
            ramp.last_change_at_ms = now;
            ramp.last_change_speed = Some(baseline);
            ramp.last_changed_target = next;
            ramp.negative_gain_windows = 0;
            let r = RampOutcome::Reduced { from: current, to: next, lost_gain: lost, stable_speed: stable, stable_ttfb_ms: stable_ttfb, sustained_gain: gain };
            assert(*d == DownloadRecord { target_connections: next, ..d0 });
            assert(ramp_decision_ok(*cfg, d0, s, signals, stable_ttfb, r, *d, ramp_view(*ramp)));
            return r;
        }
        ramp.negative_gain_windows = windows;
        assert(ramp_decision_ok(*cfg, d0, s, signals, stable_ttfb, RampOutcome::Held, *d, ramp_view(*ramp)));
        return RampOutcome::Held;
    }
    ramp.negative_gain_windows = 0;
    assert(ramp_decision_ok(*cfg, d0, s, signals, stable_ttfb, RampOutcome::Held, *d, ramp_view(*ramp)));
    RampOutcome::Held
}

/// How many transfers a download runs in parallel: its live target, within its connection
/// limit, as many as the disk allows.
pub fn desired_parallel(d: &DownloadRecord, disk_tier: QueuePressureTier) -> (r: u32)
    ensures
        r == crate::disk_pool::parallelism_spec(
            min_int(max_int(d.target_connections as int, 1), max_int(d.max_connections as int, 1)), disk_tier),
        r >= 1,
{
    let t: u32 = if d.target_connections < 1 { 1 } else { d.target_connections };
    let m: u32 = if d.max_connections < 1 { 1 } else { d.max_connections };
    crate::disk_pool::recommended_parallelism_for_pressure(if t < m { t } else { m }, disk_tier)
}


/// The host feedback a changed target sends: the connections tried (the new target on a
/// raise, the old one on a reduction), the sustained gain, the stable speed when positive,
/// the stable TTFB and the download's protocol; none when the target held.
pub open spec fn ramp_feedback_ok(d: DownloadRecord, outcome: RampOutcome, payload: Option<crate::model::HostTelemetryArgs>) -> bool {
    match outcome {
        RampOutcome::Held => payload is None,
        RampOutcome::Raised { to, stable_speed, stable_ttfb_ms, sustained_gain, .. } => payload matches Some(p)
            && feedback_fields(d, p, to, stable_speed, stable_ttfb_ms, sustained_gain),
        RampOutcome::Reduced { from, stable_speed, stable_ttfb_ms, sustained_gain, .. } => payload matches Some(p)
            && feedback_fields(d, p, from, stable_speed, stable_ttfb_ms, sustained_gain),
    }
}

pub open spec fn feedback_fields(d: DownloadRecord, p: crate::model::HostTelemetryArgs, attempted: u32, stable: u64,
    ttfb: Option<u64>, gain: Option<i64>) -> bool
{
    &&& p.host@ == d.host@
    &&& opt_text(p.scope_key) == Some(crate::download_plan::download_scope_key_spec(d))
    &&& p.attempted_connections == Some(attempted)
    &&& p.sustained_gain_bytes_per_second == gain
    &&& p.throughput_bytes_per_second == (if stable > 0 { Some(stable) } else { None })
    &&& p.ttfb_ms == ttfb
    &&& opt_text(p.negotiated_protocol) == opt_text(d.host_protocol)
    &&& p.connection_reused is None
    &&& !p.throttle_event && !p.timeout_event && !p.reset_event && !p.range_validation_failed
}

/// The host feedback of a ramp outcome for download `d`.
pub fn ramp_feedback(d: &DownloadRecord, outcome: RampOutcome) -> (r: Option<crate::model::HostTelemetryArgs>)
    ensures
        ramp_feedback_ok(*d, outcome, r),
{
    let (attempted, stable, ttfb, gain) = match outcome {
        RampOutcome::Held => { return None; },
        RampOutcome::Raised { to, stable_speed, stable_ttfb_ms, sustained_gain, .. } => (to, stable_speed, stable_ttfb_ms, sustained_gain),
        RampOutcome::Reduced { from, stable_speed, stable_ttfb_ms, sustained_gain, .. } => (from, stable_speed, stable_ttfb_ms, sustained_gain),
    };
    Some(crate::model::HostTelemetryArgs {
        host: d.host.clone(),
        scope_key: Some(crate::download_plan::download_scope_key(d)),
        throttle_event: false,
        timeout_event: false,
        reset_event: false,
        range_validation_failed: false,
        ttfb_ms: ttfb,
        throughput_bytes_per_second: if stable > 0 { Some(stable) } else { None },
        negotiated_protocol: crate::scopes::copy_opt_string(&d.host_protocol),
        connection_reused: None,
        sustained_gain_bytes_per_second: gain,
        attempted_connections: Some(attempted),
    })
}

/// What one supply tick decided.
#[derive(Debug)]
pub struct RuntimeSupplyAdjustment {
    pub desired_parallel: usize,
    pub appended_segments: Vec<DownloadSegment>,
    pub control_updates: Vec<(u32, i64)>,
    /// Whether the download changed (its target moved or segments were appended).
    pub changed: bool,
    pub ramp: RampOutcome,
    pub dispatch_plan: Option<crate::runtime_dispatch::RuntimeDispatchPlan>,
}

/// The refill of one supply tick over the download at `i` of `before`: its desired
/// parallelism, and, for a segmented transfer the disk does not hold back, the idle slots
/// filled by `scheduler`.
pub open spec fn refill_ok(scheduler: crate::scheduler::SegmentScheduler, before: Seq<DownloadRecord>, after: Seq<DownloadRecord>,
    i: int, samples: Seq<crate::scheduler::SegmentRuntimeSample>, signals: SupplySignals, a: RuntimeSupplyAdjustment) -> bool
{
    let d = before[i];
    let desired = crate::disk_pool::parallelism_spec(
        min_int(max_int(d.target_connections as int, 1), max_int(d.max_connections as int, 1)), signals.disk_tier);
    &&& a.desired_parallel == desired
    &&& after.len() == before.len()
    &&& forall|k: int| 0 <= k < before.len() && k != i ==> after[k] == before[k]
    &&& if d.capabilities.segmented && !signals.disk_blocks_supply {
        let (segs, appended, updates) = scheduler.refill_spec(d.segments@, samples, max_int(d.size as int, 0),
            max_int(desired, 1), Seq::empty(), Map::empty(), max_int(desired, 1) as nat);
        &&& after[i].segments@ == segs
        &&& after[i] == DownloadRecord { segments: after[i].segments, ..d }
        &&& a.appended_segments@ == appended
        &&& crate::scheduler::strictly_sorted_by_id(a.control_updates@)
        &&& crate::scheduler::lists_map(a.control_updates@, updates)
    } else {
        &&& after[i] == d
        &&& a.appended_segments@.len() == 0
        &&& a.control_updates@.len() == 0
    }
}

/// One supply tick over the download at `i` of `before` with ramp state `ramp_before`,
/// through `reg1` (after the ramp), `reg2` (after any feedback and dispatch) to `after`.
pub open spec fn supply_tick_ok(
    cfg: RampConfig,
    before: crate::registry::RegistrySnapshot,
    ramp_before: RampView,
    i: int,
    scheduler: crate::scheduler::SegmentScheduler,
    samples: Seq<crate::scheduler::SegmentRuntimeSample>,
    signals: SupplySignals,
    a: RuntimeSupplyAdjustment,
    after: crate::registry::RegistrySnapshot,
    ramp_after: RampView,
    reg1: crate::registry::RegistrySnapshot,
    reg2: crate::registry::RegistrySnapshot,
    payload: Option<crate::model::HostTelemetryArgs>,
    stable_ttfb: Option<u64>,
) -> bool {
    let d0 = before.downloads@[i];
    let t = max_int(d0.target_connections as int, 1) as u32;
    let s = record_spec(cfg, ramp_before, signals.now, t, d0.speed, signals.median_ttfb_ms);
    &&& 0 <= i < before.downloads@.len()
    &&& stable_ttfb_or(cfg, s, t, signals.median_ttfb_ms, stable_ttfb)
    &&& ramp_decision_ok(cfg, d0, s, signals, stable_ttfb, a.ramp, reg1.downloads@[i], ramp_after)
    &&& reg1 == (crate::registry::RegistrySnapshot { downloads: reg1.downloads, ..before })
    &&& reg1.downloads@ == before.downloads@.update(i, reg1.downloads@[i])
    &&& ramp_feedback_ok(reg1.downloads@[i], a.ramp, payload)
    &&& match payload {
        None => reg2 == reg1 && a.dispatch_plan is None,
        Some(p) => a.dispatch_plan matches Some(plan) && exists|mid: crate::registry::RegistrySnapshot, ds1: Seq<DownloadRecord>|
            #[trigger] crate::queue_ops::feedback_applied(reg1, mid, p.host@, p, signals.now)
            && #[trigger] crate::runtime_dispatch::dispatch_spec(mid, reg2, ds1, plan, signals.now),
    }
    &&& refill_ok(scheduler, reg2.downloads@, after.downloads@, i, samples, signals, a)
    &&& after == (crate::registry::RegistrySnapshot { downloads: after.downloads, ..reg2 })
    &&& a.changed == (payload is Some || a.appended_segments@.len() > 0)
}

/// One supply tick of a running download `download_id` at `signals.now`: the live target is
/// ramped; a moved target is fed back to the host profile and the queue is dispatched again;
/// then the download's idle slots are refilled up to its desired parallelism. None when no
/// download has the id.
#[verifier::rlimit(100)]
#[verifier::spinoff_prover]
pub fn adjust_runtime_segment_supply_at(
    cfg: &RampConfig,
    registry: &mut crate::registry::RegistrySnapshot,
    download_id: &str,
    scheduler: &crate::scheduler::SegmentScheduler,
    samples: &Vec<crate::scheduler::SegmentRuntimeSample>,
    ramp: &mut RuntimeRampState,
    signals: SupplySignals,
) -> (r: Option<RuntimeSupplyAdjustment>)
    requires
        forall|k: int| 0 <= k < old(registry).downloads@.len() ==>
            i64::MIN <= #[trigger] old(registry).downloads@[k].size - old(registry).downloads@[k].downloaded <= i64::MAX,
    ensures
        match crate::queue_ops::id_pos(old(registry).downloads@, download_id@) {
            None => r is None && *final(registry) == *old(registry) && *final(ramp) == *old(ramp),
            Some(i) => r matches Some(a) && exists|reg1: crate::registry::RegistrySnapshot, reg2: crate::registry::RegistrySnapshot,
                payload: Option<crate::model::HostTelemetryArgs>, stable_ttfb: Option<u64>|
                #[trigger] supply_tick_ok(*cfg, *old(registry), ramp_view(*old(ramp)), i, *scheduler, samples@, signals, a,
                    *final(registry), ramp_view(*final(ramp)), reg1, reg2, payload, stable_ttfb),
        },
{
    proof { crate::queue_ops::lemma_id_pos(registry.downloads@, download_id@); }
    let i = match crate::queue_ops::find_download(&registry.downloads, download_id) {
        Some(i) => i,
        None => { return None; },
    };
    let ghost r0 = *registry;
    let outcome = adjust_live_target_at(cfg, ramp, &mut registry.downloads[i], signals);
    let ghost reg1 = *registry;
    let ghost ramp1 = ramp_view(*ramp);
    let ghost d0 = r0.downloads@[i as int];
    let ghost t0 = max_int(d0.target_connections as int, 1) as u32;
    let ghost s0 = record_spec(*cfg, ramp_view(*old(ramp)), signals.now, t0, d0.speed, signals.median_ttfb_ms);
    let ghost st = choose|v: Option<u64>| #[trigger] stable_ttfb_or(*cfg, s0, t0, signals.median_ttfb_ms, v)
        && ramp_decision_ok(*cfg, d0, s0, signals, v, outcome, reg1.downloads@[i as int], ramp1);
    proof {
        assert(reg1.downloads@ =~= r0.downloads@.update(i as int, reg1.downloads@[i as int]));
        assert(stable_ttfb_or(*cfg, s0, t0, signals.median_ttfb_ms, st));
    }
    let payload = ramp_feedback(&registry.downloads[i], outcome);
    let ghost mut mid_w = *registry;
    let ghost mut ds1_w: Seq<DownloadRecord> = Seq::empty();
    let dispatch_plan = match &payload {
        Some(p) => {
            let host = p.host.clone();
            crate::queue_ops::apply_host_feedback_to_registry_at(registry, host.as_str(), p, signals.now);
            let ghost mid = *registry;
            let plan = crate::runtime_dispatch::plan_runtime_dispatch_at(registry, signals.now);
            proof {
                let ds1 = choose|ds1: Seq<DownloadRecord>| crate::runtime_dispatch::dispatch_spec(mid, *registry, ds1, plan, signals.now);
                mid_w = mid;
                ds1_w = ds1;
            }
            Some(plan)
        },
        None => None,
    };
    let ghost reg2 = *registry;
    let target = desired_parallel(&registry.downloads[i], signals.disk_tier);
    let desired = target as usize;
    let mut adjustment = RuntimeSupplyAdjustment {
        desired_parallel: desired,
        appended_segments: Vec::new(),
        control_updates: Vec::new(),
        changed: false,
        ramp: outcome,
        dispatch_plan,
    };
    let segmented = registry.downloads[i].capabilities.segmented;
    if segmented && !signals.disk_blocks_supply {
        let size: u64 = if registry.downloads[i].size < 0 { 0 } else { registry.downloads[i].size as u64 };
        let refill = scheduler.fill_idle_slots(&mut registry.downloads[i].segments, samples, size, desired);
        adjustment.control_updates = refill.control_updates;
        adjustment.appended_segments = refill.appended_segments;
    }
    adjustment.changed = payload.is_some() || adjustment.appended_segments.len() > 0;
    proof {
        let ghost_payload = payload;
        assert(ramp_view(*ramp) == ramp1);
        assert(ramp_decision_ok(*cfg, d0, s0, signals, st, adjustment.ramp, reg1.downloads@[i as int], ramp_view(*ramp)));
        assert(reg1 == (crate::registry::RegistrySnapshot { downloads: reg1.downloads, ..r0 }));
        assert(ramp_feedback_ok(reg1.downloads@[i as int], adjustment.ramp, ghost_payload));
        assert(*registry == (crate::registry::RegistrySnapshot { downloads: registry.downloads, ..reg2 }));
        match ghost_payload {
            None => {
                assert(reg2 == reg1 && adjustment.dispatch_plan is None);
            },
            Some(p) => {
                let plan = adjustment.dispatch_plan->0;
                assert(crate::queue_ops::feedback_applied(reg1, mid_w, p.host@, p, signals.now));
                assert(crate::runtime_dispatch::dispatch_spec(mid_w, reg2, ds1_w, plan, signals.now));
            },
        }
        assert(refill_ok(*scheduler, reg2.downloads@, registry.downloads@, i as int, samples@, signals, adjustment));
        assert(supply_tick_ok(*cfg, r0, ramp_view(*old(ramp)), i as int, *scheduler, samples@, signals, adjustment,
            *registry, ramp_view(*ramp), reg1, reg2, ghost_payload, st));
    }
    Some(adjustment)
}
} // verus!
