//! Smoothed speed and time-left estimates of a running download.

use vstd::prelude::*;
use crate::arith::{sat_mul, sat_add, sat_sub_i64, max_int, u64_sat_mul, u64_sat_add, i64_sat_sub};
use crate::model::DownloadSegmentStatus;
use crate::scheduler::SegmentRuntimeSample;

verus! {

/// Weight (percent) of a new download-speed sample when the speed rises, and when it drops.
pub const SPEED_RISE_NEW_WEIGHT: u64 = 70;
pub const SPEED_DROP_NEW_WEIGHT: u64 = 35;
/// The same weights for a single segment's throughput.
pub const SEGMENT_SPEED_RISE_NEW_WEIGHT: u64 = 55;
pub const SEGMENT_SPEED_DROP_NEW_WEIGHT: u64 = 30;

/// Sum of the positive throughputs among the first `k` samples.
pub open spec fn throughput_total(samples: Seq<SegmentRuntimeSample>, k: int) -> int
    decreases k,
{
    if k <= 0 {
        0
    } else {
        throughput_total(samples, k - 1) + match samples[k - 1].throughput_bytes_per_second {
            Some(t) if t > 0 => t as int,
            _ => 0int,
        }
    }
}

pub proof fn lemma_throughput_total_monotone(samples: Seq<SegmentRuntimeSample>, i: int, k: int)
    requires
        0 <= i <= k <= samples.len(),
    ensures
        0 <= throughput_total(samples, i) <= throughput_total(samples, k),
    decreases k,
{
    if k > i {
        lemma_throughput_total_monotone(samples, i, k - 1);
    } else if k > 0 {
        lemma_throughput_total_monotone(samples, 0, k - 1);
    }
}

/// The download's instantaneous throughput: the sum of its segments' positive throughputs,
/// or `None` when there is none.
pub fn aggregate_runtime_throughput(samples: &Vec<SegmentRuntimeSample>) -> (r: Option<u64>)
    requires
        throughput_total(samples@, samples@.len() as int) <= u64::MAX,
    ensures
        r == (if throughput_total(samples@, samples@.len() as int) > 0 {
            Some(throughput_total(samples@, samples@.len() as int) as u64)
        } else {
            None
        }),
{
    let mut total: u64 = 0;
    let mut i: usize = 0;
    while i < samples.len()
        invariant
            i <= samples@.len(),
            total == throughput_total(samples@, i as int),
            throughput_total(samples@, samples@.len() as int) <= u64::MAX,
        decreases samples@.len() - i,
    {
        proof { lemma_throughput_total_monotone(samples@, i + 1, samples@.len() as int); }
        match samples[i].throughput_bytes_per_second {
            Some(t) => { if t > 0 { total = total + t; } },
            None => {},
        }
        i = i + 1;
    }
    if total > 0 { Some(total) } else { None }
}

/// Exponential smoothing that follows rises faster than drops.
pub open spec fn smooth_spec(previous: int, latest: int, rise_weight: int, drop_weight: int) -> int {
    let new_weight = if latest >= previous { rise_weight } else { drop_weight };
    sat_add(sat_mul(previous, 100 - new_weight), sat_mul(latest, new_weight)) / 100
}

/// The smoothed download speed: the new sample alone when either value is zero.
pub open spec fn download_speed_spec(previous: int, instantaneous: int) -> int {
    if previous == 0 || instantaneous == 0 {
        instantaneous
    } else {
        smooth_spec(previous, instantaneous, SPEED_RISE_NEW_WEIGHT as int, SPEED_DROP_NEW_WEIGHT as int)
    }
}

/// The smoothed segment throughput: the new sample alone when there is no positive previous one.
pub open spec fn segment_throughput_spec(previous: Option<u64>, latest: int) -> int {
    match previous {
        Some(p) if p > 0 => smooth_spec(p as int, latest, SEGMENT_SPEED_RISE_NEW_WEIGHT as int, SEGMENT_SPEED_DROP_NEW_WEIGHT as int),
        _ => latest,
    }
}

fn smooth(previous: u64, latest: u64, rise_weight: u64, drop_weight: u64) -> (r: u64)
    requires
        rise_weight <= 100,
        drop_weight <= 100,
    ensures
        r == smooth_spec(previous as int, latest as int, rise_weight as int, drop_weight as int),
{
    let new_weight = if latest >= previous { rise_weight } else { drop_weight };
    let old_weight = 100 - new_weight;
    u64_sat_add(u64_sat_mul(previous, old_weight), u64_sat_mul(latest, new_weight)) / 100
}

fn smooth_download_speed(previous_speed: u64, instantaneous_speed: u64) -> (r: u64)
    ensures
        r == download_speed_spec(previous_speed as int, instantaneous_speed as int),
{
    if previous_speed == 0 || instantaneous_speed == 0 {
        return instantaneous_speed;
    }
    smooth(previous_speed, instantaneous_speed, SPEED_RISE_NEW_WEIGHT, SPEED_DROP_NEW_WEIGHT)
}

fn smooth_segment_throughput(previous_throughput: Option<u64>, latest_throughput: u64) -> (r: u64)
    ensures
        r == segment_throughput_spec(previous_throughput, latest_throughput as int),
{
    match previous_throughput {
        Some(p) => {
            if p > 0 {
                smooth(p, latest_throughput, SEGMENT_SPEED_RISE_NEW_WEIGHT, SEGMENT_SPEED_DROP_NEW_WEIGHT)
            } else {
                latest_throughput
            }
        },
        None => latest_throughput,
    }
}

/// The throughput recorded for a segment: zero once finished, the smoothed value for a
/// positive sample, and otherwise the previous positive value (if any).
pub open spec fn stabilized_spec(previous: Option<u64>, latest: u64, status: DownloadSegmentStatus) -> Option<u64> {
    if status == DownloadSegmentStatus::Finished {
        Some(0)
    } else if latest > 0 {
        Some(segment_throughput_spec(previous, latest as int) as u64)
    } else {
        match previous {
            Some(p) if p > 0 => Some(p),
            _ => None,
        }
    }
}

pub fn stabilized_segment_throughput(
    previous_throughput: Option<u64>,
    latest_throughput: u64,
    status: &DownloadSegmentStatus,
) -> (r: Option<u64>)
    ensures
        r == stabilized_spec(previous_throughput, latest_throughput, *status),
{
    if matches!(status, DownloadSegmentStatus::Finished) {
        return Some(0);
    }
    if latest_throughput > 0 {
        return Some(smooth_segment_throughput(previous_throughput, latest_throughput));
    }
    match previous_throughput {
        Some(p) => if p > 0 { Some(p) } else { None },
        None => None,
    }
}

/// The download's new speed from its previous speed and its segments' samples.
pub fn recompute_download_speed(previous_speed: u64, samples: &Vec<SegmentRuntimeSample>) -> (r: u64)
    requires
        throughput_total(samples@, samples@.len() as int) <= u64::MAX,
    ensures
        r == download_speed_spec(previous_speed as int, throughput_total(samples@, samples@.len() as int)),
{
    proof { lemma_throughput_total_monotone(samples@, 0, samples@.len() as int); }
    let instantaneous = match aggregate_runtime_throughput(samples) {
        Some(v) => v,
        None => 0,
    };
    smooth_download_speed(previous_speed, instantaneous)
}

/// Seconds left at `speed` for the bytes not yet downloaded; `None` for an unknown size or no speed.
pub open spec fn time_left_spec(size: int, downloaded: int, speed: int) -> Option<u64> {
    if size <= 0 || speed == 0 {
        None
    } else {
        Some((max_int(sat_sub_i64(size, downloaded), 0) / speed) as u64)
    }
}

pub fn estimate_time_left(size: i64, downloaded: i64, speed: u64) -> (r: Option<u64>)
    ensures
        r == time_left_spec(size as int, downloaded as int, speed as int),
{
    if size <= 0 || speed == 0 {
        return None;
    }
    let remaining = i64_sat_sub(size, downloaded);
    let remaining: u64 = if remaining > 0 { remaining as u64 } else { 0 };
    Some(remaining / speed)
}

/// Smoothing never leaves the range between the previous and the new value.
pub proof fn lemma_smoothing_stays_between(previous: u64, latest: u64, rise_weight: int, drop_weight: int)
    requires
        0 <= rise_weight <= 100,
        0 <= drop_weight <= 100,
    ensures
        ({
            let r = smooth_spec(previous as int, latest as int, rise_weight, drop_weight);
            &&& r <= max_int(previous as int, latest as int)
            &&& (previous as int) * 100 + (latest as int) * 100 <= u64::MAX ==> r >= if previous <= latest { previous as int } else { latest as int } - 1
        }),
{
    let w = if latest >= previous { rise_weight } else { drop_weight };
    let p = previous as int;
    let l = latest as int;
    let hi = max_int(p, l);
    let lo = if p <= l { p } else { l };
    assert(p * (100 - w) <= hi * (100 - w)) by (nonlinear_arith) requires p <= hi, 0 <= w <= 100;
    assert(l * w <= hi * w) by (nonlinear_arith) requires l <= hi, 0 <= w <= 100;
    assert(p * (100 - w) >= lo * (100 - w)) by (nonlinear_arith) requires p >= lo, 0 <= w <= 100;
    assert(l * w >= lo * w) by (nonlinear_arith) requires l >= lo, 0 <= w <= 100;
    assert(p * (100 - w) >= 0 && l * w >= 0) by (nonlinear_arith) requires p >= 0, l >= 0, 0 <= w <= 100;
    let a = sat_mul(p, 100 - w);
    let b = sat_mul(l, w);
    assert(hi * (100 - w) + hi * w == hi * 100) by (nonlinear_arith);
    assert(lo * (100 - w) + lo * w == lo * 100) by (nonlinear_arith);
    assert(sat_add(a, b) <= hi * 100);
    assert((hi * 100) / 100 == hi);
    assert(sat_add(a, b) / 100 <= hi) by (nonlinear_arith) requires sat_add(a, b) <= hi * 100, (hi * 100) / 100 == hi, sat_add(a, b) >= 0;
    if p * 100 + l * 100 <= u64::MAX {
        assert(p * (100 - w) <= p * 100 && l * w <= l * 100) by (nonlinear_arith) requires p >= 0, l >= 0, 0 <= w <= 100;
        assert(sat_add(a, b) >= lo * 100);
        assert(sat_add(a, b) / 100 >= lo - 1) by (nonlinear_arith) requires sat_add(a, b) >= lo * 100;
    }
}


/// For a known size, a positive speed and a download that has not passed its size, the
/// time left is the bytes still missing divided by the speed, rounded down: the whole
/// seconds `t` with `t * speed <= size - downloaded < (t + 1) * speed`. A finished download
/// has no time left.
pub proof fn lemma_time_left_is_remaining_over_speed(size: i64, downloaded: i64, speed: u64)
    requires
        size > 0,
        speed > 0,
        0 <= downloaded <= size,
    ensures
        time_left_spec(size as int, downloaded as int, speed as int) == Some(((size - downloaded) / (speed as int)) as u64),
        time_left_spec(size as int, downloaded as int, speed as int) matches Some(t)
            && t * speed <= size - downloaded < (t + 1) * speed,
        downloaded == size ==> time_left_spec(size as int, downloaded as int, speed as int) == Some(0u64),
{
    let rem: int = size - downloaded;
    let t: int = rem / (speed as int);
    assert(t * speed <= rem < (t + 1) * speed) by (nonlinear_arith)
        requires t == rem / (speed as int), speed > 0, rem >= 0;
    assert(0 <= t <= rem) by (nonlinear_arith)
        requires t == rem / (speed as int), speed > 0, rem >= 0;
}

/// Without a known size or without speed there is no estimate.
pub proof fn lemma_no_time_left_without_size_or_speed(size: i64, downloaded: i64, speed: u64)
    requires
        size <= 0 || speed == 0,
    ensures
        time_left_spec(size as int, downloaded as int, speed as int) is None,
{
}

/// More bytes downloaded never means more time left, at the same size and speed.
pub proof fn lemma_time_left_shrinks(size: i64, d1: i64, d2: i64, speed: u64)
    requires
        size > 0,
        speed > 0,
        0 <= d1 <= d2 <= size,
    ensures
        time_left_spec(size as int, d2 as int, speed as int)->0 <= time_left_spec(size as int, d1 as int, speed as int)->0,
{
    lemma_time_left_is_remaining_over_speed(size, d1, speed);
    lemma_time_left_is_remaining_over_speed(size, d2, speed);
    let a: int = size - d1;
    let b: int = size - d2;
    assert(b / (speed as int) <= a / (speed as int)) by (nonlinear_arith)
        requires 0 <= b <= a, speed > 0;
}

} // verus!
