//! Deciding when a download's progress is worth telling the window about, and what changed
//! since the last time it was told.

use vstd::prelude::*;
use crate::download::{DownloadRecord, DownloadStatus};
use crate::model::{DownloadSegment, DownloadSegmentStatus};

verus! {

/// What the window was last told of a download: its totals and, per segment id, the bytes
/// and status.
#[derive(Clone, Debug)]
pub struct ProgressSyncEntry {
    pub last_emit_ms: i64,
    pub last_downloaded: i64,
    pub last_speed: u64,
    pub last_time_left: Option<u64>,
    pub last_status: DownloadStatus,
    pub last_writer_backpressure: bool,
    pub last_target_connections: u32,
    pub segments: Vec<(u32, i64, DownloadSegmentStatus)>,
}

impl ProgressSyncEntry {
    /// Nothing told yet: a stopped download with no bytes.
    pub fn new() -> (r: Self)
        ensures
            r.last_emit_ms == 0 && r.last_downloaded == 0 && r.last_speed == 0 && r.last_time_left is None,
            r.last_status == DownloadStatus::Stopped && !r.last_writer_backpressure && r.last_target_connections == 0,
            r.segments@.len() == 0,
    {
        ProgressSyncEntry {
            last_emit_ms: 0,
            last_downloaded: 0,
            last_speed: 0,
            last_time_left: None,
            last_status: DownloadStatus::Stopped,
            last_writer_backpressure: false,
            last_target_connections: 0,
            segments: Vec::new(),
        }
    }
}

/// One segment's change in a progress event.
#[derive(Clone, Copy, Debug, PartialEq, Eq, Structural)]
pub struct SegmentProgressDiff {
    pub id: u32,
    pub downloaded: i64,
    pub status: DownloadSegmentStatus,
}

/// A progress event: the download's totals and the segments that changed.
#[derive(Clone, Debug)]
pub struct DownloadProgressDiffEvent {
    pub id: String,
    pub downloaded: i64,
    pub speed: u64,
    pub time_left: Option<u64>,
    pub status: DownloadStatus,
    pub writer_backpressure: bool,
    pub target_connections: u32,
    pub segments: Vec<SegmentProgressDiff>,
}

/// What was last told of segment `id`: the first record of it.
pub open spec fn told(m: Seq<(u32, i64, DownloadSegmentStatus)>, id: u32) -> Option<(i64, DownloadSegmentStatus)>
    decreases m.len(),
{
    if m.len() == 0 {
        None
    } else if m[0].0 == id {
        Some((m[0].1, m[0].2))
    } else {
        told(m.drop_first(), id)
    }
}

/// Whether a segment changed since it was last told (an untold segment counts as no bytes
/// at status pending, with -1 bytes so that any count differs).
pub open spec fn segment_changed(m: Seq<(u32, i64, DownloadSegmentStatus)>, s: DownloadSegment) -> bool {
    match told(m, s.id) {
        Some((d, st)) => d != s.downloaded || st != s.status,
        None => -1 != s.downloaded || DownloadSegmentStatus::Pending != s.status,
    }
}

/// The changed segments among the first `n`, in order.
pub open spec fn changed_segments(m: Seq<(u32, i64, DownloadSegmentStatus)>, segs: Seq<DownloadSegment>, n: int) -> Seq<SegmentProgressDiff>
    decreases n,
{
    if n <= 0 {
        Seq::empty()
    } else {
        let rest = changed_segments(m, segs, n - 1);
        let s = segs[n - 1];
        if segment_changed(m, s) { rest.push(SegmentProgressDiff { id: s.id, downloaded: s.downloaded, status: s.status }) } else { rest }
    }
}

/// `m` with segment `id` recorded at `downloaded` and `status`: its record replaced, or a
/// new one added.
pub open spec fn record_told(m: Seq<(u32, i64, DownloadSegmentStatus)>, id: u32, downloaded: i64, status: DownloadSegmentStatus)
    -> Seq<(u32, i64, DownloadSegmentStatus)>
    decreases m.len(),
{
    if m.len() == 0 {
        seq![(id, downloaded, status)]
    } else if m[0].0 == id {
        seq![(id, downloaded, status)] + m.drop_first()
    } else {
        seq![m[0]] + record_told(m.drop_first(), id, downloaded, status)
    }
}

/// `m` with every change of `diffs` recorded, in order.
pub open spec fn record_all(m: Seq<(u32, i64, DownloadSegmentStatus)>, diffs: Seq<SegmentProgressDiff>) -> Seq<(u32, i64, DownloadSegmentStatus)>
    decreases diffs.len(),
{
    if diffs.len() == 0 {
        m
    } else {
        let d = diffs.last();
        record_told(record_all(m, diffs.drop_last()), d.id, d.downloaded, d.status)
    }
}

pub open spec fn has_segment(segs: Seq<DownloadSegment>, id: u32) -> bool {
    exists|k: int| 0 <= k < segs.len() && #[trigger] segs[k].id == id
}

/// The records of segments the download still has, in order.
pub open spec fn keep_present(m: Seq<(u32, i64, DownloadSegmentStatus)>, segs: Seq<DownloadSegment>) -> Seq<(u32, i64, DownloadSegmentStatus)>
    decreases m.len(),
{
    if m.len() == 0 {
        m
    } else {
        let rest = keep_present(m.drop_last(), segs);
        if has_segment(segs, m.last().0) { rest.push(m.last()) } else { rest }
    }
}

/// Whether the download's totals changed since they were last told.
pub open spec fn totals_changed(e: ProgressSyncEntry, d: DownloadRecord) -> bool {
    e.last_downloaded != d.downloaded || e.last_speed != d.speed || e.last_time_left != d.time_left
        || e.last_status != d.status || e.last_writer_backpressure != d.writer_backpressure
        || e.last_target_connections != d.target_connections
}

/// Whether an event is due at `now`: something changed, and either the status changed, the
/// download is not running, or `min_interval_ms` passed since the last event.
pub open spec fn diff_due(e: ProgressSyncEntry, d: DownloadRecord, now: i64, min_interval_ms: u32) -> bool {
    let changed = changed_segments(e.segments@, d.segments@, d.segments@.len() as int);
    let force = e.last_status != d.status || d.status != DownloadStatus::Downloading;
    (changed.len() > 0 || totals_changed(e, d))
        && (force || crate::arith::sat_sub_i64(now as int, e.last_emit_ms as int) >= min_interval_ms)
}

/// What the window is told now: nothing, and the entry kept, when no event is due;
/// otherwise the totals and the changed segments, and the entry records them (dropping the
/// records of segments the download no longer has once it holds more than it has).
pub open spec fn diff_step(e: ProgressSyncEntry, e2: ProgressSyncEntry, d: DownloadRecord, now: i64, min_interval_ms: u32, r: Option<DownloadProgressDiffEvent>) -> bool {
    let changed = changed_segments(e.segments@, d.segments@, d.segments@.len() as int);
    if !diff_due(e, d, now, min_interval_ms) {
        r is None && e2 == e
    } else {
        let recorded = record_all(e.segments@, changed);
        &&& r matches Some(ev) && ev.id@ == d.id@ && ev.downloaded == d.downloaded && ev.speed == d.speed
            && ev.time_left == d.time_left && ev.status == d.status && ev.writer_backpressure == d.writer_backpressure
            && ev.target_connections == d.target_connections && ev.segments@ == changed
        &&& e2.last_emit_ms == now && e2.last_downloaded == d.downloaded && e2.last_speed == d.speed
            && e2.last_time_left == d.time_left && e2.last_status == d.status
            && e2.last_writer_backpressure == d.writer_backpressure && e2.last_target_connections == d.target_connections
        &&& e2.segments@ == (if recorded.len() > d.segments@.len() { keep_present(recorded, d.segments@) } else { recorded })
    }
}

fn told_exec(m: &Vec<(u32, i64, DownloadSegmentStatus)>, id: u32) -> (r: Option<(i64, DownloadSegmentStatus)>)
    ensures
        r == told(m@, id),
{
    let mut i: usize = 0;
    assert(m@.skip(0) =~= m@);
    while i < m.len()
        invariant
            i <= m@.len(),
            told(m@, id) == told(m@.skip(i as int), id),
        decreases m@.len() - i,
    {
        assert(m@.skip(i as int)[0] == m@[i as int]);
        assert(m@.skip(i as int).drop_first() =~= m@.skip(i + 1));
        if m[i].0 == id {
            return Some((m[i].1, m[i].2));
        }
        i = i + 1;
    }
    None
}

fn first_told_index(m: &Vec<(u32, i64, DownloadSegmentStatus)>, id: u32) -> (r: Option<usize>)
    ensures
        match r {
            Some(i) => i < m@.len() && m@[i as int].0 == id && forall|k: int| 0 <= k < i ==> #[trigger] m@[k].0 != id,
            None => forall|k: int| 0 <= k < m@.len() ==> #[trigger] m@[k].0 != id,
        },
{
    let mut i: usize = 0;
    while i < m.len()
        invariant
            i <= m@.len(),
            forall|k: int| 0 <= k < i ==> #[trigger] m@[k].0 != id,
        decreases m@.len() - i,
    {
        if m[i].0 == id {
            return Some(i);
        }
        i = i + 1;
    }
    None
}

fn record_told_exec(m: &mut Vec<(u32, i64, DownloadSegmentStatus)>, id: u32, downloaded: i64, status: DownloadSegmentStatus)
    ensures
        final(m)@ == record_told(old(m)@, id, downloaded, status),
{
    let ghost m0 = m@;
    match first_told_index(m, id) {
        Some(i) => {
            m.set(i, (id, downloaded, status));
            proof { lemma_record_at(m0, id, downloaded, status, i as int); }
            assert(m@ =~= m0.update(i as int, (id, downloaded, status)));
        },
        None => {
            m.push((id, downloaded, status));
            proof { lemma_record_absent(m0, id, downloaded, status); }
        },
    }
}

proof fn lemma_record_at(m: Seq<(u32, i64, DownloadSegmentStatus)>, id: u32, d: i64, s: DownloadSegmentStatus, i: int)
    requires
        0 <= i < m.len(),
        m[i].0 == id,
        forall|k: int| 0 <= k < i ==> #[trigger] m[k].0 != id,
    ensures
        record_told(m, id, d, s) == m.update(i, (id, d, s)),
    decreases m.len(),
{
    if i == 0 {
        assert(seq![(id, d, s)] + m.drop_first() =~= m.update(0, (id, d, s)));
    } else {
        assert forall|k: int| 0 <= k < i - 1 implies #[trigger] m.drop_first()[k].0 != id by {
            assert(m.drop_first()[k] == m[k + 1]);
        }
        lemma_record_at(m.drop_first(), id, d, s, i - 1);
        assert(seq![m[0]] + m.drop_first().update(i - 1, (id, d, s)) =~= m.update(i, (id, d, s)));
    }
}

proof fn lemma_record_absent(m: Seq<(u32, i64, DownloadSegmentStatus)>, id: u32, d: i64, s: DownloadSegmentStatus)
    requires
        forall|k: int| 0 <= k < m.len() ==> #[trigger] m[k].0 != id,
    ensures
        record_told(m, id, d, s) == m.push((id, d, s)),
    decreases m.len(),
{
    if m.len() > 0 {
        assert forall|k: int| 0 <= k < m.drop_first().len() implies #[trigger] m.drop_first()[k].0 != id by {
            assert(m.drop_first()[k] == m[k + 1]);
        }
        lemma_record_absent(m.drop_first(), id, d, s);
        assert(seq![m[0]] + m.drop_first().push((id, d, s)) =~= m.push((id, d, s)));
    } else {
        assert(seq![(id, d, s)] =~= m.push((id, d, s)));
    }
}

fn has_segment_exec(segs: &Vec<DownloadSegment>, id: u32) -> (r: bool)
    ensures
        r == has_segment(segs@, id),
{
    let mut i: usize = 0;
    while i < segs.len()
        invariant
            i <= segs@.len(),
            forall|k: int| 0 <= k < i ==> #[trigger] segs@[k].id != id,
        decreases segs@.len() - i,
    {
        if segs[i].id == id {
            assert(segs@[i as int].id == id);
            return true;
        }
        i = i + 1;
    }
    false
}

fn keep_present_exec(m: &Vec<(u32, i64, DownloadSegmentStatus)>, segs: &Vec<DownloadSegment>) -> (r: Vec<(u32, i64, DownloadSegmentStatus)>)
    ensures
        r@ == keep_present(m@, segs@),
{
    let mut out: Vec<(u32, i64, DownloadSegmentStatus)> = Vec::new();
    let mut i: usize = 0;
    while i < m.len()
        invariant
            i <= m@.len(),
            out@ == keep_present(m@.take(i as int), segs@),
        decreases m@.len() - i,
    {
        assert(m@.take(i + 1).drop_last() =~= m@.take(i as int));
        assert(m@.take(i + 1).last() == m@[i as int]);
        if has_segment_exec(segs, m[i].0) {
            out.push(m[i]);
        }
        i = i + 1;
    }
    assert(m@.take(m@.len() as int) =~= m@);
    out
}

/// The event to send now, if any, for download `d`, and the entry brought up to date.
pub fn progress_diff_at(entry: &mut ProgressSyncEntry, download: &DownloadRecord, now: i64, min_interval_ms: u32)
    -> (r: Option<DownloadProgressDiffEvent>)
    ensures
        diff_step(*old(entry), *final(entry), *download, now, min_interval_ms, r),
{
    let ghost m0 = entry.segments@;
    let ghost segs = download.segments@;
    let mut changed: Vec<SegmentProgressDiff> = Vec::new();
    let mut i: usize = 0;
    while i < download.segments.len()
        invariant
            i <= segs.len(),
            segs == download.segments@,
            m0 == entry.segments@,
            changed@ == changed_segments(m0, segs, i as int),
        decreases segs.len() - i,
    {
        let s = &download.segments[i];
        let seen = told_exec(&entry.segments, s.id);
        let differs = match seen {
            Some((d, st)) => d != s.downloaded || st != s.status,
            None => -1 != s.downloaded || DownloadSegmentStatus::Pending != s.status,
        };
        if differs {
            changed.push(SegmentProgressDiff { id: s.id, downloaded: s.downloaded, status: s.status });
        }
        i = i + 1;
    }
    let totals = entry.last_downloaded != download.downloaded || entry.last_speed != download.speed
        || entry.last_time_left != download.time_left || entry.last_status != download.status
        || entry.last_writer_backpressure != download.writer_backpressure
        || entry.last_target_connections != download.target_connections;
    if changed.len() == 0 && !totals {
        return None;
    }
    let diff: i128 = (now as i128) - (entry.last_emit_ms as i128);
    let elapsed: i64 = if diff > i64::MAX as i128 { i64::MAX } else if diff < i64::MIN as i128 { i64::MIN } else { diff as i64 };
    let force = entry.last_status != download.status || download.status != DownloadStatus::Downloading;
    if !force && elapsed < min_interval_ms as i64 {
        return None;
    }
    let mut k: usize = 0;
    while k < changed.len()
        invariant
            k <= changed@.len(),
            entry.segments@ == record_all(m0, changed@.take(k as int)),
        decreases changed@.len() - k,
    {
        let c = changed[k];
        record_told_exec(&mut entry.segments, c.id, c.downloaded, c.status);
        assert(changed@.take(k + 1).drop_last() =~= changed@.take(k as int));
        assert(changed@.take(k + 1).last() == c);
        k = k + 1;
    }
    assert(changed@.take(changed@.len() as int) =~= changed@);
    if entry.segments.len() > download.segments.len() {
        entry.segments = keep_present_exec(&entry.segments, &download.segments);
    }
    entry.last_emit_ms = now;
    entry.last_downloaded = download.downloaded;
    entry.last_speed = download.speed;
    entry.last_time_left = download.time_left;
    entry.last_status = download.status;
    entry.last_writer_backpressure = download.writer_backpressure;
    entry.last_target_connections = download.target_connections;
    Some(DownloadProgressDiffEvent {
        id: download.id.clone(),
        downloaded: download.downloaded,
        speed: download.speed,
        time_left: download.time_left,
        status: download.status,
        writer_backpressure: download.writer_backpressure,
        target_connections: download.target_connections,
        segments: changed,
    })
}

/// The event to send now, if any, read against the current time.
pub fn progress_diff(entry: &mut ProgressSyncEntry, download: &DownloadRecord, min_interval_ms: u32) -> (r: Option<DownloadProgressDiffEvent>)
    ensures
        exists|now: i64| #[trigger] diff_step(*old(entry), *final(entry), *download, now, min_interval_ms, r),
{
    let now = crate::host_planner::unix_epoch_millis();
    progress_diff_at(entry, download, now, min_interval_ms)
}

} // verus!
