//! Work stealing between the segments of a running download.

use vstd::prelude::*;
use crate::arith::{sat_mul, sat_add, sat_sub, ceil_div, max_int, min_int, clamp_int, u64_sat_mul, u64_sat_add, u64_sat_sub, u64_div_ceil, u64_max, u64_min, u32_max, u32_sat_add, u32_sat_sub};
use crate::model::{DownloadSegment, DownloadSegmentStatus};
use crate::segmentation::{pending_spec, pending_segment, split_spec, split_segment};

verus! {

/// Lower and upper bound on how long a donor must have been active before it is split.
pub const STEAL_MIN_DONOR_AGE_MS_FLOOR: u64 = 250;
pub const STEAL_MIN_DONOR_AGE_MS_CEILING: u64 = 1500;
/// A stolen range must cut at least this percentage off the donor's remaining work.
pub const STEAL_MIN_ETA_GAIN_PERCENT: u64 = 10;

/// What a running segment worker last reported.
#[derive(Clone, Copy, Debug, PartialEq, Eq, Structural)]
pub struct SegmentRuntimeSample {
    pub segment_id: u32,
    pub remaining_bytes: u64,
    pub eta_seconds: Option<u64>,
    pub throughput_bytes_per_second: Option<u64>,
    pub active_for_ms: Option<u64>,
}

/// A challenger segment that races a slow segment over the same remaining range.
#[derive(Clone, Copy, Debug, PartialEq, Eq, Structural)]
pub struct SlowPeerRacePlan {
    pub slow_segment_id: u32,
    pub challenger_segment: DownloadSegment,
}

/// Segments appended to fill idle worker slots, and the new ends of the segments they were cut from.
#[derive(Clone, Debug)]
pub struct SegmentRefillPlan {
    pub appended_segments: Vec<DownloadSegment>,
    pub control_updates: Vec<(u32, i64)>,
}

#[derive(Clone, Copy, Debug)]
struct WorkStealScan {
    downloaded: u64,
    active_workers: u64,
}

/// Decides when and where a running download's segments are split for idle workers.
#[derive(Clone, Copy, Debug)]
pub struct SegmentScheduler {
    pub min_segment_size_bytes: u64,
    pub late_segment_ratio_percent: u32,
    pub target_chunk_time_seconds: u32,
}

/// The next byte a segment's worker writes.
pub open spec fn current_offset_spec(segment: DownloadSegment) -> int {
    sat_add(max_int(segment.start as int, 0), max_int(segment.downloaded as int, 0))
}

/// Bytes a segment still has to fetch.
pub open spec fn remaining_bytes_spec(segment: DownloadSegment) -> int {
    let current = current_offset_spec(segment);
    let end = max_int(segment.end as int, 0);
    if current > end { 0 } else { sat_add(end - current, 1) }
}

fn segment_current_offset(segment: &DownloadSegment) -> (r: u64)
    ensures
        r == current_offset_spec(*segment),
{
    let start: u64 = if segment.start > 0 { segment.start as u64 } else { 0 };
    let downloaded: u64 = if segment.downloaded > 0 { segment.downloaded as u64 } else { 0 };
    u64_sat_add(start, downloaded)
}

fn segment_remaining_bytes(segment: &DownloadSegment) -> (r: u64)
    ensures
        r == remaining_bytes_spec(*segment),
{
    let current_offset = segment_current_offset(segment);
    let end: u64 = if segment.end > 0 { segment.end as u64 } else { 0 };
    if current_offset > end {
        return 0;
    }
    u64_sat_add(end - current_offset, 1)
}

/// The sample a worker last reported for segment `id` (the latest entry wins).
pub open spec fn sample_lookup(samples: Seq<SegmentRuntimeSample>, id: u32) -> Option<SegmentRuntimeSample>
    decreases samples.len(),
{
    if samples.len() == 0 {
        None
    } else if samples.last().segment_id == id {
        Some(samples.last())
    } else {
        sample_lookup(samples.drop_last(), id)
    }
}

fn find_sample(samples: &Vec<SegmentRuntimeSample>, id: u32) -> (r: Option<SegmentRuntimeSample>)
    ensures
        r == sample_lookup(samples@, id),
{
    let mut i = samples.len();
    assert(samples@.take(i as int) =~= samples@);
    while i > 0
        invariant
            i <= samples@.len(),
            sample_lookup(samples@, id) == sample_lookup(samples@.take(i as int), id),
        decreases i,
    {
        assert(samples@.take(i as int).drop_last() =~= samples@.take(i - 1));
        if samples[i - 1].segment_id == id {
            return Some(samples[i - 1]);
        }
        i = i - 1;
    }
    proof {
        assert(samples@.take(0) =~= Seq::<SegmentRuntimeSample>::empty());
    }
    None
}

/// Sum of the bytes written to the first `k` segments (saturating).
pub open spec fn downloaded_sum(segments: Seq<DownloadSegment>, k: int) -> int
    decreases k,
{
    if k <= 0 { 0 } else { sat_add(downloaded_sum(segments, k - 1), max_int(segments[k - 1].downloaded as int, 0)) }
}

/// Number of the first `k` segments that are downloading.
pub open spec fn active_count(segments: Seq<DownloadSegment>, k: int) -> int
    decreases k,
{
    if k <= 0 {
        0
    } else {
        active_count(segments, k - 1) + if segments[k - 1].status == DownloadSegmentStatus::Downloading { 1int } else { 0int }
    }
}

/// Number of the first `k` segments that are not finished.
pub open spec fn unfinished_count(segments: Seq<DownloadSegment>, k: int) -> int
    decreases k,
{
    if k <= 0 {
        0
    } else {
        unfinished_count(segments, k - 1) + if segments[k - 1].status != DownloadSegmentStatus::Finished { 1int } else { 0int }
    }
}

/// The largest segment id among the first `k` segments (0 for none).
pub open spec fn max_id(segments: Seq<DownloadSegment>, k: int) -> int
    decreases k,
{
    if k <= 0 { 0 } else { max_int(max_id(segments, k - 1), segments[k - 1].id as int) }
}

/// The id given to a segment added to `segments`: one more than the largest id, saturating.
pub open spec fn next_segment_id(segments: Seq<DownloadSegment>) -> u32 {
    if max_id(segments, segments.len() as int) + 1 > u32::MAX {
        u32::MAX
    } else {
        (max_id(segments, segments.len() as int) + 1) as u32
    }
}

pub proof fn lemma_active_count_bound(segments: Seq<DownloadSegment>, k: int)
    requires
        0 <= k,
    ensures
        0 <= active_count(segments, k) <= k,
        0 <= unfinished_count(segments, k) <= k,
        0 <= max_id(segments, k) <= u32::MAX,
    decreases k,
{
    if k > 0 {
        lemma_active_count_bound(segments, k - 1);
    }
}

fn next_id_for(segments: &Vec<DownloadSegment>) -> (r: u32)
    ensures
        r == next_segment_id(segments@),
{
    let mut best: u32 = 0;
    let mut i: usize = 0;
    while i < segments.len()
        invariant
            i <= segments@.len(),
            best == max_id(segments@, i as int),
        decreases segments@.len() - i,
    {
        best = u32_max(best, segments[i].id);
        i = i + 1;
    }
    u32_sat_add(best, 1)
}

impl SegmentScheduler {
    pub fn new(min_segment_size_bytes: u64, late_segment_ratio_percent: u32, target_chunk_time_seconds: u32) -> (s: Self)
        ensures
            s.min_segment_size_bytes == min_segment_size_bytes,
            s.late_segment_ratio_percent == late_segment_ratio_percent,
            s.target_chunk_time_seconds == target_chunk_time_seconds,
    {
        SegmentScheduler { min_segment_size_bytes, late_segment_ratio_percent, target_chunk_time_seconds }
    }

    fn scan_work_steal_window(&self, segments: &Vec<DownloadSegment>, total_file_size: u64) -> (scan: WorkStealScan)
        ensures
            scan.downloaded == min_int(downloaded_sum(segments@, segments@.len() as int), total_file_size as int),
            scan.active_workers == active_count(segments@, segments@.len() as int),
    {
        let mut downloaded: u64 = 0;
        let mut active_workers: u64 = 0;
        let mut i: usize = 0;
        while i < segments.len()
            invariant
                i <= segments@.len(),
                downloaded == downloaded_sum(segments@, i as int),
                active_workers == active_count(segments@, i as int),
            decreases segments@.len() - i,
        {
            proof { lemma_active_count_bound(segments@, i as int); }
            let seg = segments[i];
            let d: u64 = if seg.downloaded > 0 { seg.downloaded as u64 } else { 0 };
            downloaded = u64_sat_add(downloaded, d);
            if matches!(seg.status, DownloadSegmentStatus::Downloading) {
                active_workers = active_workers + 1;
            }
            i = i + 1;
        }
        WorkStealScan { downloaded: u64_min(downloaded, total_file_size), active_workers }
    }

    /// How long a segment must have been active before it may donate work.
    pub open spec fn donor_min_age_spec(self) -> int {
        clamp_int(
            sat_mul(max_int(self.target_chunk_time_seconds as int, 1), 350),
            STEAL_MIN_DONOR_AGE_MS_FLOOR as int,
            STEAL_MIN_DONOR_AGE_MS_CEILING as int,
        )
    }

    fn donor_min_age_ms(&self) -> (r: u64)
        ensures
            r == self.donor_min_age_spec(),
    {
        let v = u64_sat_mul(u32_max(self.target_chunk_time_seconds, 1) as u64, 350);
        if v < STEAL_MIN_DONOR_AGE_MS_FLOOR {
            STEAL_MIN_DONOR_AGE_MS_FLOOR
        } else if v > STEAL_MIN_DONOR_AGE_MS_CEILING {
            STEAL_MIN_DONOR_AGE_MS_CEILING
        } else {
            v
        }
    }

    /// Bytes a donor must already have written: what it fetches during the warm-up age.
    pub open spec fn donor_min_progress_spec(self, sample: SegmentRuntimeSample) -> int {
        let throughput = match sample.throughput_bytes_per_second {
            Some(t) => t as int,
            None => self.min_segment_size_bytes as int,
        };
        max_int(ceil_div(sat_mul(throughput, self.donor_min_age_spec()), 1000), (self.min_segment_size_bytes / 2) as int)
    }

    fn donor_min_progress_bytes(&self, sample: &SegmentRuntimeSample) -> (r: u64)
        ensures
            r == self.donor_min_progress_spec(*sample),
    {
        let throughput = match sample.throughput_bytes_per_second {
            Some(t) => t,
            None => self.min_segment_size_bytes,
        };
        let warmup_window = u64_div_ceil(u64_sat_mul(throughput, self.donor_min_age_ms()), 1000);
        u64_max(warmup_window, self.min_segment_size_bytes / 2)
    }

    /// A downloading segment may donate once it has two minimum segments left, has been
    /// active for the minimum age and has made the minimum progress.
    pub open spec fn donor_ready_spec(self, segment: DownloadSegment, sample: SegmentRuntimeSample, remaining: int) -> bool {
        &&& remaining >= sat_mul(self.min_segment_size_bytes as int, 2)
        &&& (match sample.active_for_ms { Some(a) => a as int, None => 0 }) >= self.donor_min_age_spec()
        &&& max_int(segment.downloaded as int, 0) >= self.donor_min_progress_spec(sample)
    }

    fn donor_is_ready_for_split(&self, segment: &DownloadSegment, sample: &SegmentRuntimeSample, remaining_bytes: u64) -> (r: bool)
        ensures
            r == self.donor_ready_spec(*segment, *sample, remaining_bytes as int),
    {
        if remaining_bytes < u64_sat_mul(self.min_segment_size_bytes, 2) {
            return false;
        }
        let active_for = match sample.active_for_ms { Some(a) => a, None => 0 };
        if active_for < self.donor_min_age_ms() {
            return false;
        }
        let downloaded: u64 = if segment.downloaded > 0 { segment.downloaded as u64 } else { 0 };
        downloaded >= self.donor_min_progress_bytes(sample)
    }

    /// Size of the range an idle worker takes from a donor: one target chunk of the donor's
    /// throughput, at least a tenth of its remaining bytes, at most a fair share among the idle
    /// workers and the donor, and always leaving the donor a minimum segment.
    pub open spec fn steal_size_spec(self, remaining: int, sample: SegmentRuntimeSample, idle_worker_count: int) -> Option<u64> {
        match sample.throughput_bytes_per_second {
            Some(throughput) if throughput > 0 => {
                let min_size = self.min_segment_size_bytes as int;
                let target_window = max_int(sat_mul(throughput as int, max_int(self.target_chunk_time_seconds as int, 1)), min_size);
                let eta_gain_floor = ceil_div(remaining, STEAL_MIN_ETA_GAIN_PERCENT as int);
                let share_cap = ceil_div(remaining, sat_add(max_int(idle_worker_count, 1), 1));
                let challenger = min_int(
                    min_int(max_int(max_int(target_window, eta_gain_floor), min_size), max_int(share_cap, min_size)),
                    sat_sub(remaining, min_size),
                );
                if challenger >= min_size { Some(challenger as u64) } else { None }
            },
            _ => None,
        }
    }

    fn recommended_steal_size(&self, remaining_bytes: u64, sample: &SegmentRuntimeSample, idle_worker_count: u32) -> (r: Option<u64>)
        ensures
            r == self.steal_size_spec(remaining_bytes as int, *sample, idle_worker_count as int),
    {
        let throughput = match sample.throughput_bytes_per_second {
            Some(t) => t,
            None => { return None; },
        };
        if throughput == 0 {
            return None;
        }
        let min_size = self.min_segment_size_bytes;
        let target_window_bytes = u64_max(u64_sat_mul(throughput, u32_max(self.target_chunk_time_seconds, 1) as u64), min_size);
        let eta_gain_floor = u64_div_ceil(remaining_bytes, STEAL_MIN_ETA_GAIN_PERCENT);
        let share_cap = u64_div_ceil(remaining_bytes, u64_sat_add(u32_max(idle_worker_count, 1) as u64, 1));
        let challenger_size = u64_min(
            u64_min(u64_max(u64_max(target_window_bytes, eta_gain_floor), min_size), u64_max(share_cap, min_size)),
            u64_sat_sub(remaining_bytes, min_size),
        );
        if challenger_size >= min_size { Some(challenger_size) } else { None }
    }

    /// Near the end of a download (little work left per worker and most of the file fetched)
    /// no more segments are split.
    pub open spec fn late_zone_spec(self, downloaded: int, active_workers: int, total_file_size: int) -> bool {
        if total_file_size == 0 {
            false
        } else {
            let remaining = sat_sub(total_file_size, downloaded);
            let window = sat_mul(self.min_segment_size_bytes as int, sat_add(max_int(active_workers, 1), 1));
            remaining <= window
                && sat_mul(downloaded, 100) / total_file_size >= sat_sub(100, self.late_segment_ratio_percent as int)
        }
    }

    fn is_in_late_segment_zone(&self, downloaded: u64, active_workers: u64, total_file_size: u64) -> (r: bool)
        ensures
            r == self.late_zone_spec(downloaded as int, active_workers as int, total_file_size as int),
    {
        if total_file_size == 0 {
            return false;
        }
        let remaining = u64_sat_sub(total_file_size, downloaded);
        let window = u64_sat_mul(self.min_segment_size_bytes, u64_sat_add(u64_max(active_workers, 1), 1));
        if remaining > window {
            return false;
        }
        let progress_percent = u64_sat_mul(downloaded, 100) / total_file_size;
        progress_percent >= u32_sat_sub(100, self.late_segment_ratio_percent) as u64
    }

    /// Among the first `k` segments, the downloading, ready donor with the most remaining
    /// bytes (the earliest one on ties), with its remaining bytes and the size to take from it.
    pub open spec fn donor_upto(
        self,
        segments: Seq<DownloadSegment>,
        samples: Seq<SegmentRuntimeSample>,
        idle_worker_count: int,
        k: int,
    ) -> Option<(int, u64, u64)>
        decreases k,
    {
        if k <= 0 {
            None
        } else {
            let prev = self.donor_upto(segments, samples, idle_worker_count, k - 1);
            let segment = segments[k - 1];
            if segment.status != DownloadSegmentStatus::Downloading {
                prev
            } else {
                match sample_lookup(samples, segment.id) {
                    None => prev,
                    Some(sample) => {
                        let remaining = remaining_bytes_spec(segment);
                        if !self.donor_ready_spec(segment, sample, remaining) {
                            prev
                        } else {
                            match self.steal_size_spec(remaining, sample, idle_worker_count) {
                                None => prev,
                                Some(challenger) => match prev {
                                    Some((_, current_remaining, _)) if current_remaining >= remaining => prev,
                                    _ => Some((k - 1, remaining as u64, challenger)),
                                },
                            }
                        }
                    },
                }
            }
        }
    }

    pub proof fn lemma_donor_bounds(
        self,
        segments: Seq<DownloadSegment>,
        samples: Seq<SegmentRuntimeSample>,
        idle_worker_count: int,
        k: int,
    )
        requires
            0 <= k <= segments.len(),
        ensures
            self.donor_upto(segments, samples, idle_worker_count, k) matches Some((i, r, c)) ==> {
                &&& 0 <= i < k
                &&& segments[i].status == DownloadSegmentStatus::Downloading
                &&& r == remaining_bytes_spec(segments[i])
                &&& self.min_segment_size_bytes <= c <= r - self.min_segment_size_bytes
            },
        decreases k,
    {
        if k > 0 {
            self.lemma_donor_bounds(segments, samples, idle_worker_count, k - 1);
        }
    }

    /// What segment `i` offers as a donor: the size to take from it when it is downloading,
    /// has a sample, is ready to give and leaves a worthwhile piece.
    pub open spec fn donor_offer(
        self,
        segments: Seq<DownloadSegment>,
        samples: Seq<SegmentRuntimeSample>,
        idle_worker_count: int,
        i: int,
    ) -> Option<u64> {
        let segment = segments[i];
        if segment.status != DownloadSegmentStatus::Downloading {
            None
        } else {
            match sample_lookup(samples, segment.id) {
                None => None,
                Some(sample) => {
                    let remaining = remaining_bytes_spec(segment);
                    if !self.donor_ready_spec(segment, sample, remaining) {
                        None
                    } else {
                        self.steal_size_spec(remaining, sample, idle_worker_count)
                    }
                },
            }
        }
    }

    /// The donor among the first `k` segments is the one that offers something and has the
    /// most remaining bytes, the earliest on ties; there is none exactly when none offers.
    pub proof fn lemma_donor_is_best(
        self,
        segments: Seq<DownloadSegment>,
        samples: Seq<SegmentRuntimeSample>,
        idle_worker_count: int,
        k: int,
    )
        requires
            0 <= k <= segments.len(),
        ensures
            self.donor_upto(segments, samples, idle_worker_count, k) is None
                <==> (forall|j: int| 0 <= j < k ==> #[trigger] self.donor_offer(segments, samples, idle_worker_count, j) is None),
            self.donor_upto(segments, samples, idle_worker_count, k) matches Some((i, r, c)) ==> {
                &&& 0 <= i < k
                &&& self.donor_offer(segments, samples, idle_worker_count, i) == Some(c)
                &&& r == remaining_bytes_spec(segments[i])
                &&& forall|j: int| 0 <= j < k && #[trigger] self.donor_offer(segments, samples, idle_worker_count, j) is Some
                    ==> remaining_bytes_spec(segments[j]) < r || (remaining_bytes_spec(segments[j]) == r && i <= j)
            },
        decreases k,
    {
        if k > 0 {
            self.lemma_donor_is_best(segments, samples, idle_worker_count, k - 1);
            self.lemma_donor_bounds(segments, samples, idle_worker_count, k);
            self.lemma_donor_bounds(segments, samples, idle_worker_count, k - 1);
        }
    }

    /// The outcome of one work-steal attempt: the segments afterwards and the stolen segment.
    pub open spec fn work_steal_spec(
        self,
        segments: Seq<DownloadSegment>,
        samples: Seq<SegmentRuntimeSample>,
        total_file_size: int,
        idle_worker_count: int,
    ) -> (Seq<DownloadSegment>, Option<DownloadSegment>) {
        let downloaded = min_int(downloaded_sum(segments, segments.len() as int), total_file_size);
        let active = active_count(segments, segments.len() as int);
        if idle_worker_count == 0 || self.late_zone_spec(downloaded, active, total_file_size) {
            (segments, None)
        } else {
            match self.donor_upto(segments, samples, idle_worker_count, segments.len() as int) {
                None => (segments, None),
                Some((idx, remaining, challenger)) => {
                    let donor = segments[idx];
                    let split_offset = ((sat_add(current_offset_spec(donor), sat_sub(remaining as int, challenger as int))) as u64) as i64;
                    let min_size = min_int(self.min_segment_size_bytes as int, i64::MAX as int);
                    match split_spec(donor, split_offset as int, min_size, next_segment_id(segments)) {
                        None => (segments, None),
                        Some((stolen, modified)) => (segments.update(idx, modified), Some(stolen)),
                    }
                },
            }
        }
    }

    pub fn attempt_work_steal(
        &self,
        segments: &mut Vec<DownloadSegment>,
        samples: &Vec<SegmentRuntimeSample>,
        total_file_size: u64,
        idle_worker_count: u32,
    ) -> (stolen: Option<DownloadSegment>)
        ensures
            (final(segments)@, stolen) == self.work_steal_spec(old(segments)@, samples@, total_file_size as int, idle_worker_count as int),
    {
        if idle_worker_count == 0 {
            return None;
        }
        let scan = self.scan_work_steal_window(segments, total_file_size);
        if self.is_in_late_segment_zone(scan.downloaded, scan.active_workers, total_file_size) {
            return None;
        }
        let ghost segs = segments@;
        let mut donor: Option<(usize, u64, u64)> = None;
        let mut i: usize = 0;
        while i < segments.len()
            invariant
                segments@ == segs,
                i <= segs.len(),
                match donor {
                    None => self.donor_upto(segs, samples@, idle_worker_count as int, i as int) is None,
                    Some((d, r, c)) => self.donor_upto(segs, samples@, idle_worker_count as int, i as int) == Some((d as int, r, c)),
                },
            decreases segs.len() - i,
        {
            let segment = segments[i];
            if matches!(segment.status, DownloadSegmentStatus::Downloading) {
                let remaining = segment_remaining_bytes(&segment);
                match find_sample(samples, segment.id) {
                    None => {},
                    Some(sample) => {
                        if self.donor_is_ready_for_split(&segment, &sample, remaining) {
                            match self.recommended_steal_size(remaining, &sample, idle_worker_count) {
                                None => {},
                                Some(challenger_size) => {
                                    let replace = match donor {
                                        Some((_, current_remaining, _)) => current_remaining < remaining,
                                        None => true,
                                    };
                                    if replace {
                                        donor = Some((i, remaining, challenger_size));
                                    }
                                },
                            }
                        }
                    },
                }
            }
            i = i + 1;
        }
        let (largest_idx, largest_remaining, challenger_size) = match donor {
            Some(d) => d,
            None => { return None; },
        };
        proof { self.lemma_donor_bounds(segs, samples@, idle_worker_count as int, segs.len() as int); }
        let largest_seg = segments[largest_idx];
        let current_offset = segment_current_offset(&largest_seg);
        let split_offset = u64_sat_add(current_offset, u64_sat_sub(largest_remaining, challenger_size)) as i64;
        let next_segment_id = next_id_for(segments);
        let min_size: i64 = if self.min_segment_size_bytes > i64::MAX as u64 { i64::MAX } else { self.min_segment_size_bytes as i64 };
        match split_segment(&largest_seg, split_offset, min_size, next_segment_id) {
            None => None,
            Some((stolen_segment, modified_segment)) => {
                segments.set(largest_idx, modified_segment);
                Some(stolen_segment)
            },
        }
    }
}


/// The end a segment with this id had (the latest entry wins).
pub open spec fn end_lookup(segments: Seq<DownloadSegment>, id: u32) -> Option<i64>
    decreases segments.len(),
{
    if segments.len() == 0 {
        None
    } else if segments.last().id == id {
        Some(segments.last().end)
    } else {
        end_lookup(segments.drop_last(), id)
    }
}

/// The ends that differ between `before` and the first `k` segments of `after`, by segment id.
pub open spec fn changed_ends(before: Seq<DownloadSegment>, after: Seq<DownloadSegment>, k: int) -> Map<u32, i64>
    decreases k,
{
    if k <= 0 {
        Map::empty()
    } else {
        let m = changed_ends(before, after, k - 1);
        let s = after[k - 1];
        if end_lookup(before, s.id) != Some(s.end) { m.insert(s.id, s.end) } else { m }
    }
}

/// Pairs sorted strictly by their first component.
pub open spec fn strictly_sorted_by_id(v: Seq<(u32, i64)>) -> bool {
    forall|i: int, j: int| 0 <= i < j < v.len() ==> v[i].0 < v[j].0
}

/// `v` lists exactly the entries of `m`.
pub open spec fn lists_map(v: Seq<(u32, i64)>, m: Map<u32, i64>) -> bool {
    &&& forall|i: int| 0 <= i < v.len() ==> m.contains_key(v[i].0) && m[v[i].0] == v[i].1
    &&& forall|k: u32| m.contains_key(k) ==> exists|i: int| 0 <= i < v.len() && v[i].0 == k
}

pub(crate) fn lookup_end(segments: &Vec<DownloadSegment>, id: u32) -> (r: Option<i64>)
    ensures
        r == end_lookup(segments@, id),
{
    let mut i = segments.len();
    assert(segments@.take(i as int) =~= segments@);
    while i > 0
        invariant
            i <= segments@.len(),
            end_lookup(segments@, id) == end_lookup(segments@.take(i as int), id),
        decreases i,
    {
        assert(segments@.take(i as int).drop_last() =~= segments@.take(i - 1));
        if segments[i - 1].id == id {
            return Some(segments[i - 1].end);
        }
        i = i - 1;
    }
    None
}

fn upsert_update(v: &mut Vec<(u32, i64)>, id: u32, end: i64, Ghost(m): Ghost<Map<u32, i64>>)
    requires
        strictly_sorted_by_id(old(v)@),
        lists_map(old(v)@, m),
    ensures
        strictly_sorted_by_id(final(v)@),
        lists_map(final(v)@, m.insert(id, end)),
{
    let mut p: usize = 0;
    while p < v.len() && v[p].0 < id
        invariant
            p <= v@.len(),
            forall|i: int| 0 <= i < p ==> v@[i].0 < id,
        decreases v@.len() - p,
    {
        p = p + 1;
    }
    let ghost old_v = v@;
    let m2 = Ghost(m.insert(id, end));
    if p < v.len() && v[p].0 == id {
        v.set(p, (id, end));
        assert forall|k: u32| m2@.contains_key(k) implies exists|i: int| 0 <= i < v@.len() && v@[i].0 == k by {
            if k != id {
                let i = choose|i: int| 0 <= i < old_v.len() && old_v[i].0 == k;
                assert(v@[i].0 == k);
            } else {
                assert(v@[p as int].0 == k);
            }
        }
        assert forall|i: int| 0 <= i < v@.len() implies m2@.contains_key(v@[i].0) && m2@[v@[i].0] == v@[i].1 by {
            if i != p {
                assert(old_v[i].0 != id);
            }
        }
    } else {
        v.insert(p, (id, end));
        assert forall|i: int, j: int| 0 <= i < j < v@.len() implies v@[i].0 < v@[j].0 by {
            if j < p {
            } else if i > p {
                assert(v@[i] == old_v[i - 1] && v@[j] == old_v[j - 1]);
            } else if i == p {
                assert(v@[j] == old_v[j - 1]);
                assert(old_v[p as int].0 > id || j - 1 == p);
                if j - 1 > p {
                    assert(old_v[p as int].0 < old_v[j - 1].0);
                }
            } else {
                if j == p {
                } else {
                    assert(v@[j] == old_v[j - 1]);
                    assert(old_v[p as int].0 > id);
                    if j - 1 > p {
                        assert(old_v[p as int].0 < old_v[j - 1].0);
                    }
                }
            }
        }
        assert forall|k: u32| m2@.contains_key(k) implies exists|i: int| 0 <= i < v@.len() && v@[i].0 == k by {
            if k != id {
                let i = choose|i: int| 0 <= i < old_v.len() && old_v[i].0 == k;
                if i < p {
                    assert(v@[i].0 == k);
                } else {
                    assert(v@[i + 1].0 == k);
                }
            } else {
                assert(v@[p as int].0 == k);
            }
        }
        assert forall|i: int| 0 <= i < v@.len() implies m2@.contains_key(v@[i].0) && m2@[v@[i].0] == v@[i].1 by {
            if i < p {
                assert(v@[i] == old_v[i]);
                assert(old_v[i].0 != id);
            } else if i > p {
                assert(v@[i] == old_v[i - 1]);
                assert(old_v[i - 1].0 != id);
            }
        }
    }
}

pub proof fn lemma_unfinished_update(segments: Seq<DownloadSegment>, idx: int, seg: DownloadSegment, k: int)
    requires
        0 <= idx < segments.len(),
        0 <= k <= segments.len(),
        seg.status == segments[idx].status,
    ensures
        unfinished_count(segments.update(idx, seg), k) == unfinished_count(segments, k),
    decreases k,
{
    if k > 0 {
        lemma_unfinished_update(segments, idx, seg, k - 1);
    }
}

pub proof fn lemma_unfinished_push(segments: Seq<DownloadSegment>, seg: DownloadSegment, k: int)
    requires
        0 <= k <= segments.len(),
    ensures
        unfinished_count(segments.push(seg), k) == unfinished_count(segments, k),
    decreases k,
{
    if k > 0 {
        lemma_unfinished_push(segments, seg, k - 1);
    }
}

impl SegmentScheduler {
    pub proof fn lemma_steal_keeps_shape(
        self,
        segments: Seq<DownloadSegment>,
        samples: Seq<SegmentRuntimeSample>,
        total_file_size: int,
        idle_worker_count: int,
    )
        ensures
            ({
                let (after, stolen) = self.work_steal_spec(segments, samples, total_file_size, idle_worker_count);
                &&& after.len() == segments.len()
                &&& unfinished_count(after, after.len() as int) == unfinished_count(segments, segments.len() as int)
                &&& (stolen is None ==> after == segments)
                &&& (stolen matches Some(s) ==> s.status == DownloadSegmentStatus::Pending)
            }),
    {
        let downloaded = min_int(downloaded_sum(segments, segments.len() as int), total_file_size);
        let active = active_count(segments, segments.len() as int);
        if !(idle_worker_count == 0 || self.late_zone_spec(downloaded, active, total_file_size)) {
            self.lemma_donor_bounds(segments, samples, idle_worker_count, segments.len() as int);
            match self.donor_upto(segments, samples, idle_worker_count, segments.len() as int) {
                None => {},
                Some((idx, remaining, challenger)) => {
                    let donor = segments[idx];
                    let split_offset = ((sat_add(current_offset_spec(donor), sat_sub(remaining as int, challenger as int))) as u64) as i64;
                    let min_size = min_int(self.min_segment_size_bytes as int, i64::MAX as int);
                    match split_spec(donor, split_offset as int, min_size, next_segment_id(segments)) {
                        None => {},
                        Some((stolen, modified)) => {
                            lemma_unfinished_update(segments, idx, modified, segments.len() as int);
                        },
                    }
                },
            }
        }
    }

    /// Repeated work stealing until `desired` unfinished segments exist or nothing more can be
    /// split: the segments afterwards, the appended segments, and the changed segment ends.
    pub open spec fn refill_spec(
        self,
        segments: Seq<DownloadSegment>,
        samples: Seq<SegmentRuntimeSample>,
        total_file_size: int,
        desired: int,
        appended: Seq<DownloadSegment>,
        updates: Map<u32, i64>,
        fuel: nat,
    ) -> (Seq<DownloadSegment>, Seq<DownloadSegment>, Map<u32, i64>)
        decreases fuel,
    {
        if fuel == 0 || unfinished_count(segments, segments.len() as int) >= desired {
            (segments, appended, updates)
        } else {
            let (after, stolen) = self.work_steal_spec(segments, samples, total_file_size, 1);
            match stolen {
                None => (segments, appended, updates),
                Some(s) => self.refill_spec(
                    after.push(s),
                    samples,
                    total_file_size,
                    desired,
                    appended.push(s),
                    updates.union_prefer_right(changed_ends(segments, after, after.len() as int)),
                    (fuel - 1) as nat,
                ),
            }
        }
    }

    pub fn fill_idle_slots(
        &self,
        segments: &mut Vec<DownloadSegment>,
        samples: &Vec<SegmentRuntimeSample>,
        total_file_size: u64,
        desired_parallelism: usize,
    ) -> (plan: SegmentRefillPlan)
        ensures
            ({
                let desired = max_int(desired_parallelism as int, 1);
                let (after, appended, updates) = self.refill_spec(
                    old(segments)@, samples@, total_file_size as int, desired, Seq::empty(), Map::empty(), desired as nat);
                &&& final(segments)@ == after
                &&& plan.appended_segments@ == appended
                &&& strictly_sorted_by_id(plan.control_updates@)
                &&& lists_map(plan.control_updates@, updates)
            }),
    {
        let desired: usize = if desired_parallelism > 1 { desired_parallelism } else { 1 };
        let ghost orig = segments@;
        let mut control_updates: Vec<(u32, i64)> = Vec::new();
        let ghost mut updates: Map<u32, i64> = Map::empty();
        let mut appended_segments: Vec<DownloadSegment> = Vec::new();
        let mut iterations: usize = 0;
        let ghost target = self.refill_spec(orig, samples@, total_file_size as int, desired as int, Seq::empty(), Map::empty(), desired as nat);
        proof {
            lemma_active_count_bound(orig, orig.len() as int);
        }
        loop
            invariant
                iterations <= desired,
                unfinished_count(segments@, segments@.len() as int) >= iterations,
                strictly_sorted_by_id(control_updates@),
                lists_map(control_updates@, updates),
                self.refill_spec(segments@, samples@, total_file_size as int, desired as int, appended_segments@, updates, (desired - iterations) as nat) == target,
            ensures
                target == (segments@, appended_segments@, updates),
                strictly_sorted_by_id(control_updates@),
                lists_map(control_updates@, updates),
            decreases desired - iterations,
        {
            let mut count: usize = 0;
            let mut i: usize = 0;
            while i < segments.len()
                invariant
                    i <= segments@.len(),
                    count == unfinished_count(segments@, i as int),
                decreases segments@.len() - i,
            {
                proof { lemma_active_count_bound(segments@, i as int); }
                if !matches!(segments[i].status, DownloadSegmentStatus::Finished) {
                    count = count + 1;
                }
                i = i + 1;
            }
            if count >= desired {
                assert(self.refill_spec(segments@, samples@, total_file_size as int, desired as int, appended_segments@, updates, (desired - iterations) as nat) == (segments@, appended_segments@, updates));
                break;
            }
            let before = segments.clone();
            let ghost before_view = segments@;
            proof { self.lemma_steal_keeps_shape(before_view, samples@, total_file_size as int, 1); }
            let stolen = match self.attempt_work_steal(segments, samples, total_file_size, 1) {
                Some(s) => s,
                None => {
                    assert(iterations < desired);
                    assert(self.refill_spec(before_view, samples@, total_file_size as int, desired as int, appended_segments@, updates, (desired - iterations) as nat) == (before_view, appended_segments@, updates));
                    break;
                },
            };
            let ghost after_view = segments@;
            let mut j: usize = 0;
            while j < segments.len()
                invariant
                    j <= segments@.len(),
                    segments@ == after_view,
                    before@ == before_view,
                    strictly_sorted_by_id(control_updates@),
                    lists_map(control_updates@, updates.union_prefer_right(changed_ends(before_view, after_view, j as int))),
                decreases segments@.len() - j,
            {
                let seg = segments[j];
                let previous_end = lookup_end(&before, seg.id);
                let changed = match previous_end {
                    Some(e) => e != seg.end,
                    None => true,
                };
                let ghost m_now = updates.union_prefer_right(changed_ends(before_view, after_view, j as int));
                if changed {
                    upsert_update(&mut control_updates, seg.id, seg.end, Ghost(m_now));
                    assert(updates.union_prefer_right(changed_ends(before_view, after_view, j + 1)) =~= m_now.insert(seg.id, seg.end));
                } else {
                    assert(updates.union_prefer_right(changed_ends(before_view, after_view, j + 1)) =~= m_now);
                }
                j = j + 1;
            }
            proof {
                updates = updates.union_prefer_right(changed_ends(before_view, after_view, after_view.len() as int));
                lemma_unfinished_push(after_view, stolen, after_view.len() as int);
            }
            segments.push(stolen);
            appended_segments.push(stolen);
            iterations = iterations + 1;
        }
        SegmentRefillPlan { appended_segments, control_updates }
    }
}


/// Values in non-decreasing order.
pub open spec fn sorted_u64(t: Seq<u64>) -> bool {
    forall|i: int, j: int| 0 <= i <= j < t.len() ==> t[i] <= t[j]
}

/// `m` is the middle element (index `len / 2`) of `s` once sorted.
pub open spec fn median_of(s: Seq<u64>, m: u64) -> bool {
    exists|t: Seq<u64>| sorted_u64(t) && t.to_multiset() == s.to_multiset() && t.len() == s.len() && m == t[(s.len() / 2) as int]
}

fn sorted_copy(values: &Vec<u64>) -> (r: Vec<u64>)
    ensures
        sorted_u64(r@),
        r@.to_multiset() == values@.to_multiset(),
        r@.len() == values@.len(),
{
    broadcast use vstd::seq_lib::group_to_multiset_ensures;
    let mut r: Vec<u64> = Vec::new();
    let mut k: usize = 0;
    while k < values.len()
        invariant
            k <= values@.len(),
            r@.len() == k,
            sorted_u64(r@),
            r@.to_multiset() == values@.take(k as int).to_multiset(),
        decreases values@.len() - k,
    {
        let x = values[k];
        let mut p: usize = 0;
        while p < r.len() && r[p] <= x
            invariant
                p <= r@.len(),
                forall|i: int| 0 <= i < p ==> r@[i] <= x,
            decreases r@.len() - p,
        {
            p = p + 1;
        }
        let ghost old_r = r@;
        r.insert(p, x);
        assert forall|i: int, j: int| 0 <= i <= j < r@.len() implies r@[i] <= r@[j] by {
            if j < p {
            } else if i > p {
                assert(r@[i] == old_r[i - 1] && r@[j] == old_r[j - 1]);
            } else if i == p {
                if j > p {
                    assert(r@[j] == old_r[j - 1]);
                    assert(old_r[p as int] > x);
                }
            } else {
                if j > p {
                    assert(r@[j] == old_r[j - 1]);
                    assert(old_r[p as int] > x);
                }
            }
        }
        assert(values@.take(k + 1) =~= values@.take(k as int).push(x));
        proof {
            vstd::seq_lib::to_multiset_insert(old_r, p as int, x);
            vstd::seq_lib::to_multiset_build(values@.take(k as int), x);
        }
        k = k + 1;
    }
    assert(values@.take(values@.len() as int) =~= values@);
    r
}

pub fn median(values: &Vec<u64>) -> (m: u64)
    requires
        values@.len() > 0,
    ensures
        median_of(values@, m),
{
    let sorted = sorted_copy(values);
    let m = sorted[sorted.len() / 2];
    assert(sorted_u64(sorted@) && sorted@.to_multiset() == values@.to_multiset() && sorted@.len() == values@.len() && m == sorted@[(values@.len() / 2) as int]);
    m
}

impl SegmentScheduler {
    /// Whether a downloading segment with this sample takes part in the slow-peer statistics.
    pub open spec fn race_sample_of(
        self,
        segment: DownloadSegment,
        samples: Seq<SegmentRuntimeSample>,
    ) -> Option<SegmentRuntimeSample> {
        if segment.status != DownloadSegmentStatus::Downloading {
            None
        } else {
            match sample_lookup(samples, segment.id) {
                Some(sample) if sample.remaining_bytes >= self.min_segment_size_bytes => Some(sample),
                _ => None,
            }
        }
    }

    /// Positive ETAs of the first `k` downloading segments with enough bytes left.
    pub open spec fn eta_list(self, segments: Seq<DownloadSegment>, samples: Seq<SegmentRuntimeSample>, k: int) -> Seq<u64>
        decreases k,
    {
        if k <= 0 {
            Seq::empty()
        } else {
            let prev = self.eta_list(segments, samples, k - 1);
            match self.race_sample_of(segments[k - 1], samples) {
                Some(sample) => match sample.eta_seconds {
                    Some(eta) if eta > 0 => prev.push(eta),
                    _ => prev,
                },
                None => prev,
            }
        }
    }

    /// Positive throughputs of the same segments.
    pub open spec fn throughput_list(self, segments: Seq<DownloadSegment>, samples: Seq<SegmentRuntimeSample>, k: int) -> Seq<u64>
        decreases k,
    {
        if k <= 0 {
            Seq::empty()
        } else {
            let prev = self.throughput_list(segments, samples, k - 1);
            match self.race_sample_of(segments[k - 1], samples) {
                Some(sample) => match sample.throughput_bytes_per_second {
                    Some(t) if t > 0 => prev.push(t),
                    _ => prev,
                },
                None => prev,
            }
        }
    }

    /// Among the first `k` segments, the slowest peer: a downloading segment whose ETA is at
    /// least twice the median and whose throughput is at most 55% of the median (the one with
    /// the largest ETA, the earliest one on ties).
    pub open spec fn race_candidate(
        self,
        segments: Seq<DownloadSegment>,
        samples: Seq<SegmentRuntimeSample>,
        median_eta: u64,
        median_throughput: u64,
        k: int,
    ) -> Option<(int, SegmentRuntimeSample)>
        decreases k,
    {
        if k <= 0 {
            None
        } else {
            let prev = self.race_candidate(segments, samples, median_eta, median_throughput, k - 1);
            let segment = segments[k - 1];
            if segment.status != DownloadSegmentStatus::Downloading {
                prev
            } else {
                match sample_lookup(samples, segment.id) {
                    None => prev,
                    Some(sample) => {
                        let eta = match sample.eta_seconds { Some(e) => e as int, None => 0 };
                        let throughput = match sample.throughput_bytes_per_second { Some(t) => t as int, None => 0 };
                        if sample.remaining_bytes < self.min_segment_size_bytes || eta == 0 || throughput == 0 {
                            prev
                        } else if eta < sat_mul(median_eta as int, 2) {
                            prev
                        } else if sat_mul(throughput, 100) > sat_mul(median_throughput as int, 55) {
                            prev
                        } else {
                            match prev {
                                Some((_, current)) if (match current.eta_seconds { Some(e) => e as int, None => 0 }) >= eta => prev,
                                _ => Some((k - 1, sample)),
                            }
                        }
                    },
                }
            }
        }
    }

    /// The race plan for the slowest peer given the two medians.
    pub open spec fn race_plan_spec(
        self,
        segments: Seq<DownloadSegment>,
        samples: Seq<SegmentRuntimeSample>,
        median_eta: u64,
        median_throughput: u64,
    ) -> Option<SlowPeerRacePlan> {
        if median_eta == 0 || median_throughput == 0 {
            None
        } else {
            match self.race_candidate(segments, samples, median_eta, median_throughput, segments.len() as int) {
                None => None,
                Some((idx, sample)) => {
                    let slow = segments[idx];
                    let start_offset = current_offset_spec(slow);
                    let end_offset = (slow.end as u64) as int;
                    if end_offset <= start_offset {
                        None
                    } else if sat_add(end_offset - start_offset, 1) < min_int(self.min_segment_size_bytes as int, sample.remaining_bytes as int) {
                        None
                    } else {
                        Some(SlowPeerRacePlan {
                            slow_segment_id: slow.id,
                            challenger_segment: pending_spec(next_segment_id(segments), (start_offset as u64) as i64, slow.end, slow.retry_budget),
                        })
                    }
                },
            }
        }
    }

    pub proof fn lemma_race_candidate_bounds(
        self,
        segments: Seq<DownloadSegment>,
        samples: Seq<SegmentRuntimeSample>,
        median_eta: u64,
        median_throughput: u64,
        k: int,
    )
        requires
            0 <= k <= segments.len(),
        ensures
            self.race_candidate(segments, samples, median_eta, median_throughput, k) matches Some((i, _)) ==> 0 <= i < k,
        decreases k,
    {
        if k > 0 {
            self.lemma_race_candidate_bounds(segments, samples, median_eta, median_throughput, k - 1);
        }
    }

    /// `plan` is what a slow-peer race attempt may return: nothing without two active etas and
    /// throughputs, else the plan for a median of each.
    pub open spec fn race_steal_allows(
        self,
        segments: Seq<DownloadSegment>,
        samples: Seq<SegmentRuntimeSample>,
        idle_worker_count: int,
        plan: Option<SlowPeerRacePlan>,
    ) -> bool {
        let etas = self.eta_list(segments, samples, segments.len() as int);
        let throughputs = self.throughput_list(segments, samples, segments.len() as int);
        if idle_worker_count == 0 || segments.len() == 0 || samples.len() == 0 || etas.len() < 2 || throughputs.len() < 2 {
            plan is None
        } else {
            exists|median_eta: u64, median_throughput: u64|
                median_of(etas, median_eta) && median_of(throughputs, median_throughput)
                    && plan == self.race_plan_spec(segments, samples, median_eta, median_throughput)
        }
    }

    pub fn attempt_slow_peer_race_steal(
        &self,
        segments: &Vec<DownloadSegment>,
        samples: &Vec<SegmentRuntimeSample>,
        idle_worker_count: u32,
    ) -> (plan: Option<SlowPeerRacePlan>)
        ensures
            self.race_steal_allows(segments@, samples@, idle_worker_count as int, plan),
    {
        if idle_worker_count == 0 || segments.len() == 0 || samples.len() == 0 {
            return None;
        }
        let ghost segs = segments@;
        let mut active_eta: Vec<u64> = Vec::new();
        let mut active_throughput: Vec<u64> = Vec::new();
        let mut i: usize = 0;
        while i < segments.len()
            invariant
                i <= segs.len(),
                segments@ == segs,
                active_eta@ == self.eta_list(segs, samples@, i as int),
                active_throughput@ == self.throughput_list(segs, samples@, i as int),
            decreases segs.len() - i,
        {
            let segment = segments[i];
            if matches!(segment.status, DownloadSegmentStatus::Downloading) {
                match find_sample(samples, segment.id) {
                    Some(sample) => {
                        if sample.remaining_bytes >= self.min_segment_size_bytes {
                            match sample.eta_seconds {
                                Some(eta) => { if eta > 0 { active_eta.push(eta); } },
                                None => {},
                            }
                            match sample.throughput_bytes_per_second {
                                Some(t) => { if t > 0 { active_throughput.push(t); } },
                                None => {},
                            }
                        }
                    },
                    None => {},
                }
            }
            i = i + 1;
        }
        if active_eta.len() < 2 || active_throughput.len() < 2 {
            return None;
        }
        let median_eta = median(&active_eta);
        let median_throughput = median(&active_throughput);
        let ghost spec_plan = self.race_plan_spec(segs, samples@, median_eta, median_throughput);
        if median_eta == 0 || median_throughput == 0 {
            return None;
        }
        let mut candidate: Option<(usize, SegmentRuntimeSample)> = None;
        let mut j: usize = 0;
        while j < segments.len()
            invariant
                j <= segs.len(),
                segments@ == segs,
                match candidate {
                    None => self.race_candidate(segs, samples@, median_eta, median_throughput, j as int) is None,
                    Some((c, s)) => self.race_candidate(segs, samples@, median_eta, median_throughput, j as int) == Some((c as int, s)),
                },
            decreases segs.len() - j,
        {
            let segment = segments[j];
            if matches!(segment.status, DownloadSegmentStatus::Downloading) {
                match find_sample(samples, segment.id) {
                    None => {},
                    Some(sample) => {
                        let eta = match sample.eta_seconds { Some(e) => e, None => 0 };
                        let throughput = match sample.throughput_bytes_per_second { Some(t) => t, None => 0 };
                        if sample.remaining_bytes < self.min_segment_size_bytes || eta == 0 || throughput == 0 {
                        } else if eta < u64_sat_mul(median_eta, 2) {
                        } else if u64_sat_mul(throughput, 100) > u64_sat_mul(median_throughput, 55) {
                        } else {
                            let replace = match candidate {
                                Some((_, current)) => {
                                    let current_eta = match current.eta_seconds { Some(e) => e, None => 0 };
                                    current_eta < eta
                                },
                                None => true,
                            };
                            if replace {
                                candidate = Some((j, sample));
                            }
                        }
                    },
                }
            }
            j = j + 1;
        }
        proof { self.lemma_race_candidate_bounds(segs, samples@, median_eta, median_throughput, segs.len() as int); }
        let (slow_index, sample) = match candidate {
            Some(c) => c,
            None => { return None; },
        };
        let slow_segment = segments[slow_index];
        let start_offset = segment_current_offset(&slow_segment);
        let end_offset = slow_segment.end as u64;
        if end_offset <= start_offset {
            return None;
        }
        let remaining = u64_sat_add(end_offset - start_offset, 1);
        if remaining < u64_min(self.min_segment_size_bytes, sample.remaining_bytes) {
            return None;
        }
        let next_segment_id = next_id_for(segments);
        Some(SlowPeerRacePlan {
            slow_segment_id: slow_segment.id,
            challenger_segment: pending_segment(next_segment_id, start_offset as i64, slow_segment.end, slow_segment.retry_budget),
        })
    }
}

} // verus!
