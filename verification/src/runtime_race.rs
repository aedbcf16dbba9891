//! Slow-peer races of a running transfer: how a checkpoint keeps them, how they come back
//! after a restart, how one ends, and how idle workers get more work.

use vstd::prelude::*;
use crate::arith::{max_int, min_int, i64_min};
use crate::download::{DownloadLogLevel, DownloadRecord, DownloadRuntimeCheckpoint, DownloadRuntimeRaceState};
use crate::download_ops::{append_download_log, log_append_spec, log_view, RaceMap, RuntimeRaceState};
use crate::model::{DownloadSegment, DownloadSegmentStatus};
use crate::scheduler::{end_lookup, lookup_end, SegmentRuntimeSample, SegmentScheduler, SlowPeerRacePlan};
use crate::text::{decimal_spec, push_decimal};

verus! {

/// A race as the checkpoint stores it.
pub open spec fn race_record(r: RuntimeRaceState) -> DownloadRuntimeRaceState {
    DownloadRuntimeRaceState {
        slow_segment_id: r.slow_segment_id,
        companion_segment_id: r.companion_segment_id,
        slow_baseline_downloaded: r.slow_baseline_downloaded,
    }
}

/// The records a checkpoint keeps of the races: one per entry whose slow segment id is not
/// above its companion id, in segment order.
pub open spec fn persisted_races(s: Seq<(u32, RuntimeRaceState)>) -> Seq<DownloadRuntimeRaceState>
    decreases s.len(),
{
    if s.len() == 0 {
        Seq::empty()
    } else {
        let rest = persisted_races(s.drop_last());
        let r = s.last().1;
        if r.slow_segment_id > r.companion_segment_id { rest } else { rest.push(race_record(r)) }
    }
}

/// Writes the races into the checkpoint, replacing the ones it had.
pub fn persist_runtime_races(checkpoint: &mut DownloadRuntimeCheckpoint, races: &RaceMap)
    ensures
        final(checkpoint).active_races@ == persisted_races(races.entries@),
        final(checkpoint).segment_samples == old(checkpoint).segment_samples,
{
    checkpoint.active_races = Vec::new();
    let mut i: usize = 0;
    while i < races.entries.len()
        invariant
            i <= races.entries@.len(),
            checkpoint.active_races@ == persisted_races(races.entries@.take(i as int)),
            checkpoint.segment_samples == old(checkpoint).segment_samples,
        decreases races.entries@.len() - i,
    {
        let (_, race) = races.entries[i];
        assert(races.entries@.take(i + 1).drop_last() =~= races.entries@.take(i as int));
        if race.slow_segment_id <= race.companion_segment_id {
            checkpoint.active_races.push(DownloadRuntimeRaceState {
                slow_segment_id: race.slow_segment_id,
                companion_segment_id: race.companion_segment_id,
                slow_baseline_downloaded: race.slow_baseline_downloaded,
            });
        }
        i = i + 1;
    }
    assert(races.entries@.take(races.entries@.len() as int) =~= races.entries@);
}

/// The race a restart gives back for segment `x`: the last stored race whose two segments
/// are both still pending and one of which is `x`.
pub open spec fn restored_race(races: Seq<DownloadRuntimeRaceState>, pending: Seq<u32>, x: u32) -> Option<RuntimeRaceState>
    decreases races.len(),
{
    if races.len() == 0 {
        None
    } else {
        let r = races.last();
        if pending.contains(r.slow_segment_id) && pending.contains(r.companion_segment_id) {
            if x == r.companion_segment_id {
                Some(RuntimeRaceState {
                    companion_segment_id: r.slow_segment_id,
                    slow_segment_id: r.slow_segment_id,
                    slow_baseline_downloaded: r.slow_baseline_downloaded,
                })
            } else if x == r.slow_segment_id {
                Some(RuntimeRaceState {
                    companion_segment_id: r.companion_segment_id,
                    slow_segment_id: r.slow_segment_id,
                    slow_baseline_downloaded: r.slow_baseline_downloaded,
                })
            } else {
                restored_race(races.drop_last(), pending, x)
            }
        } else {
            restored_race(races.drop_last(), pending, x)
        }
    }
}

fn id_listed(ids: &Vec<u32>, id: u32) -> (r: bool)
    ensures
        r == ids@.contains(id),
{
    let mut i: usize = 0;
    while i < ids.len()
        invariant
            i <= ids@.len(),
            forall|j: int| 0 <= j < i ==> ids@[j] != id,
        decreases ids@.len() - i,
    {
        if ids[i] == id {
            assert(ids@[i as int] == id);
            return true;
        }
        i = i + 1;
    }
    false
}

/// The races of a checkpoint whose segments are all among `pending_ids`.
pub fn restore_runtime_races(checkpoint: &DownloadRuntimeCheckpoint, pending_ids: &Vec<u32>) -> (r: RaceMap)
    ensures
        r.wf(),
        forall|x: u32| #[trigger] r.get_spec(x) == restored_race(checkpoint.active_races@, pending_ids@, x),
{
    let mut races = RaceMap::new();
    let ghost stored = checkpoint.active_races@;
    let mut i: usize = 0;
    while i < checkpoint.active_races.len()
        invariant
            i <= stored.len(),
            stored == checkpoint.active_races@,
            races.wf(),
            forall|x: u32| #[trigger] races.get_spec(x) == restored_race(stored.take(i as int), pending_ids@, x),
        decreases stored.len() - i,
    {
        let race = checkpoint.active_races[i];
        proof {
            assert(stored.take(i + 1).drop_last() =~= stored.take(i as int));
            assert(stored.take(i + 1).last() == race);
        }
        if id_listed(pending_ids, race.slow_segment_id) && id_listed(pending_ids, race.companion_segment_id) {
            races.insert(race.slow_segment_id, RuntimeRaceState {
                companion_segment_id: race.companion_segment_id,
                slow_segment_id: race.slow_segment_id,
                slow_baseline_downloaded: race.slow_baseline_downloaded,
            });
            races.insert(race.companion_segment_id, RuntimeRaceState {
                companion_segment_id: race.slow_segment_id,
                slow_segment_id: race.slow_segment_id,
                slow_baseline_downloaded: race.slow_baseline_downloaded,
            });
        }
        i = i + 1;
    }
    assert(stored.take(stored.len() as int) =~= stored);
    races
}

/// The races of a download's checkpoint whose segments are all among `pending_ids`.
pub fn restore_runtime_races_from_checkpoint(download: &DownloadRecord, pending_ids: &Vec<u32>) -> (r: RaceMap)
    ensures
        r.wf(),
        forall|x: u32| #[trigger] r.get_spec(x) == restored_race(download.runtime_checkpoint.active_races@, pending_ids@, x),
{
    restore_runtime_races(&download.runtime_checkpoint, pending_ids)
}

/// Index of the first segment with id `id` in `segs[i..]`.
pub open spec fn segment_index_from(segs: Seq<DownloadSegment>, id: u32, i: int) -> Option<int>
    decreases segs.len() - i,
{
    if i < 0 || i >= segs.len() {
        None
    } else if segs[i].id == id {
        Some(i)
    } else {
        segment_index_from(segs, id, i + 1)
    }
}

pub proof fn lemma_segment_index_bounds(segs: Seq<DownloadSegment>, id: u32, i: int)
    ensures
        segment_index_from(segs, id, i) matches Some(j) ==> i <= j < segs.len() && segs[j].id == id,
        segment_index_from(segs, id, i) is None && 0 <= i ==> forall|j: int| i <= j < segs.len() ==> segs[j].id != id,
    decreases segs.len() - i,
{
    if 0 <= i < segs.len() && segs[i].id != id {
        lemma_segment_index_bounds(segs, id, i + 1);
    }
}

/// Position of the first segment with id `id`.
pub fn find_segment(segs: &Vec<DownloadSegment>, id: u32) -> (r: Option<usize>)
    ensures
        match r {
            Some(i) => segment_index_from(segs@, id, 0) == Some(i as int),
            None => segment_index_from(segs@, id, 0) is None,
        },
{
    let mut i: usize = 0;
    while i < segs.len()
        invariant
            i <= segs@.len(),
            segment_index_from(segs@, id, 0) == segment_index_from(segs@, id, i as int),
        decreases segs@.len() - i,
    {
        if segs[i].id == id {
            return Some(i);
        }
        i = i + 1;
    }
    None
}

/// The segments once a race is decided: when the slow segment won, its challenger is closed
/// with nothing to show; otherwise the slow segment is closed and keeps at most its baseline.
pub open spec fn race_resolved_segments(segs: Seq<DownloadSegment>, winner_id: u32, race: RuntimeRaceState) -> Seq<DownloadSegment> {
    if winner_id == race.slow_segment_id {
        match segment_index_from(segs, race.companion_segment_id, 0) {
            Some(i) => segs.update(i, DownloadSegment { downloaded: 0, status: DownloadSegmentStatus::Finished, ..segs[i] }),
            None => segs,
        }
    } else {
        match segment_index_from(segs, race.slow_segment_id, 0) {
            Some(i) => segs.update(i, DownloadSegment {
                downloaded: min_int(segs[i].downloaded as int, race.slow_baseline_downloaded as int) as i64,
                status: DownloadSegmentStatus::Finished,
                ..segs[i]
            }),
            None => segs,
        }
    }
}

/// Ends a race in favour of `winner_id` and records the races that remain.
pub fn resolve_runtime_race(download: &mut DownloadRecord, winner_id: u32, race: RuntimeRaceState, races: &RaceMap)
    ensures
        final(download).segments@ == race_resolved_segments(old(download).segments@, winner_id, race),
        final(download).runtime_checkpoint.active_races@ == persisted_races(races.entries@),
        final(download).runtime_checkpoint.segment_samples == old(download).runtime_checkpoint.segment_samples,
        *final(download) == (DownloadRecord {
            segments: final(download).segments,
            runtime_checkpoint: final(download).runtime_checkpoint,
            ..*old(download)
        }),
{
    let ghost segs = download.segments@;
    if winner_id == race.slow_segment_id {
        let found = find_segment(&download.segments, race.companion_segment_id);
        match found {
            Some(i) => {
                proof { lemma_segment_index_bounds(segs, race.companion_segment_id, 0); }
                let mut s = download.segments[i];
                s.downloaded = 0;
                s.status = DownloadSegmentStatus::Finished;
                download.segments.set(i, s);
            },
            None => {},
        }
    } else {
        let found = find_segment(&download.segments, race.slow_segment_id);
        match found {
            Some(i) => {
                proof { lemma_segment_index_bounds(segs, race.slow_segment_id, 0); }
                let mut s = download.segments[i];
                s.downloaded = i64_min(s.downloaded, race.slow_baseline_downloaded);
                s.status = DownloadSegmentStatus::Finished;
                download.segments.set(i, s);
            },
            None => {},
        }
    }
    persist_runtime_races(&mut download.runtime_checkpoint, races);
}

/// The segment that lost a race.
#[derive(Clone, Copy, Debug, PartialEq, Eq, Structural)]
pub struct RuntimeRaceWinner {
    pub loser_id: u32,
}

/// The log line of a decided race.
pub open spec fn race_resolved_message(winner_id: u32, loser_id: u32) -> Seq<char> {
    "Segment "@ + decimal_spec(winner_id as nat) + " won the slow-peer race; segment "@ + decimal_spec(loser_id as nat)
        + " was canceled."@
}

/// Decides the race of `winner_id`, if it has one: both of its segments leave the races, the
/// loser is closed and the outcome is logged.
pub fn resolve_runtime_race_winner(download: &mut DownloadRecord, winner_id: u32, races: &mut RaceMap) -> (r: Option<RuntimeRaceWinner>)
    requires
        old(races).wf(),
    ensures
        final(races).wf(),
        match old(races).get_spec(winner_id) {
            None => {
                &&& r is None
                &&& *final(download) == *old(download)
                &&& forall|x: u32| #[trigger] final(races).get_spec(x) == old(races).get_spec(x)
            },
            Some(race) => {
                &&& r == Some(RuntimeRaceWinner { loser_id: race.companion_segment_id })
                &&& forall|x: u32| #[trigger] final(races).get_spec(x)
                    == (if x == winner_id || x == race.companion_segment_id { None } else { old(races).get_spec(x) })
                &&& final(download).segments@ == race_resolved_segments(old(download).segments@, winner_id, race)
                &&& final(download).runtime_checkpoint.active_races@ == persisted_races(final(races).entries@)
                &&& final(download).runtime_checkpoint.segment_samples == old(download).runtime_checkpoint.segment_samples
                &&& exists|now: i64| log_view(final(download).engine_log@) == log_append_spec(
                    log_view(old(download).engine_log@),
                    DownloadLogLevel::Info,
                    "race.resolved"@,
                    race_resolved_message(winner_id, race.companion_segment_id),
                    now,
                )
                &&& *final(download) == (DownloadRecord {
                    segments: final(download).segments,
                    runtime_checkpoint: final(download).runtime_checkpoint,
                    engine_log: final(download).engine_log,
                    ..*old(download)
                })
            },
        },
{
    let race = match races.remove(winner_id) {
        Some(race) => race,
        None => { return None; },
    };
    races.remove(race.companion_segment_id);
    let loser_id = race.companion_segment_id;
    resolve_runtime_race(download, winner_id, race, races);
    let mut message = String::new();
    message.append("Segment ");
    push_decimal(&mut message, winner_id as u64);
    message.append(" won the slow-peer race; segment ");
    push_decimal(&mut message, loser_id as u64);
    message.append(" was canceled.");
    assert(message@ =~= race_resolved_message(winner_id, loser_id));
    append_download_log(download, DownloadLogLevel::Info, "race.resolved", message.as_str());
    Some(RuntimeRaceWinner { loser_id })
}

/// What a queue expansion handed to idle workers: a new segment, and the new ends of the
/// segments it was cut from.
#[derive(Clone, Debug)]
pub struct RuntimeQueueExpansion {
    pub appended_segment: Option<DownloadSegment>,
    pub control_updates: Vec<(u32, i64)>,
}

/// The segments among `after[..k]` whose end differs from the end their id had in `before`.
pub open spec fn changed_end_list(before: Seq<DownloadSegment>, after: Seq<DownloadSegment>, k: int) -> Seq<(u32, i64)>
    decreases k,
{
    if k <= 0 {
        Seq::empty()
    } else {
        let rest = changed_end_list(before, after, k - 1);
        let s = after[k - 1];
        if end_lookup(before, s.id) != Some(s.end) { rest.push((s.id, s.end)) } else { rest }
    }
}

/// The log line of a started race.
pub open spec fn race_started_message(challenger_id: u32, slow_id: u32, baseline: i64) -> Seq<char> {
    "Started slow-peer race: challenger segment "@ + decimal_spec(challenger_id as nat) + " against slow segment "@
        + decimal_spec(slow_id as nat) + " at byte "@ + signed_decimal_spec(baseline as int) + "."@
}

/// The decimal text of a signed number.
pub open spec fn signed_decimal_spec(v: int) -> Seq<char> {
    if v < 0 { seq!['-'] + decimal_spec((-v) as nat) } else { decimal_spec(v as nat) }
}

pub(crate) fn push_signed_decimal(s: &mut String, v: i64)
    ensures
        final(s)@ == old(s)@ + signed_decimal_spec(v as int),
{
    if v < 0 {
        s.append("-");
        proof { reveal_strlit("-"); }
        let magnitude: u64 = if v == i64::MIN { 9223372036854775808u64 } else { (-v) as u64 };
        push_decimal(s, magnitude);
        assert(final(s)@ =~= old(s)@ + signed_decimal_spec(v as int));
    } else {
        push_decimal(s, v as u64);
    }
}

/// Whether a download is left as it was by a race attempt that starts nothing.
pub open spec fn race_unchanged(old_d: DownloadRecord, new_d: DownloadRecord, old_races: RaceMap, new_races: RaceMap, r: RuntimeQueueExpansion) -> bool {
    &&& r.appended_segment is None
    &&& r.control_updates@.len() == 0
    &&& new_d.segments@ == old_d.segments@
    &&& new_d == (DownloadRecord { segments: new_d.segments, ..old_d })
    &&& new_races.entries@ == old_races.entries@
}

/// The effect of starting the race of plan `p` with the slow segment at `base` bytes.
pub open spec fn race_start_effect(
    old_d: DownloadRecord,
    new_d: DownloadRecord,
    old_races: RaceMap,
    new_races: RaceMap,
    p: SlowPeerRacePlan,
    base: i64,
    r: RuntimeQueueExpansion,
) -> bool {
    let c = p.challenger_segment;
    &&& r.appended_segment == Some(c)
    &&& r.control_updates@.len() == 0
    &&& new_d.segments@ == old_d.segments@.push(c)
    &&& forall|x: u32| #[trigger] new_races.get_spec(x) == (if x == c.id {
        Some(RuntimeRaceState { companion_segment_id: p.slow_segment_id, slow_segment_id: p.slow_segment_id, slow_baseline_downloaded: base })
    } else if x == p.slow_segment_id {
        Some(RuntimeRaceState { companion_segment_id: c.id, slow_segment_id: p.slow_segment_id, slow_baseline_downloaded: base })
    } else {
        old_races.get_spec(x)
    })
    &&& new_d.runtime_checkpoint.active_races@ == persisted_races(new_races.entries@)
    &&& new_d.runtime_checkpoint.segment_samples == old_d.runtime_checkpoint.segment_samples
    &&& exists|now: i64| log_view(new_d.engine_log@) == log_append_spec(
        log_view(old_d.engine_log@),
        DownloadLogLevel::Info,
        "race.started"@,
        race_started_message(c.id, p.slow_segment_id, base),
        now,
    )
    &&& new_d == (DownloadRecord {
        segments: new_d.segments,
        engine_log: new_d.engine_log,
        runtime_checkpoint: new_d.runtime_checkpoint,
        ..old_d
    })
}

/// What a race plan does to a download and its races: unless the challenger's id is taken or
/// the slow segment already races, the challenger is appended, both segments race from the
/// slow segment's progress, the races are written to the checkpoint and the start is logged.
pub open spec fn race_started(
    old_d: DownloadRecord,
    new_d: DownloadRecord,
    old_races: RaceMap,
    new_races: RaceMap,
    plan: Option<SlowPeerRacePlan>,
    r: RuntimeQueueExpansion,
) -> bool {
    match plan {
        None => race_unchanged(old_d, new_d, old_races, new_races, r),
        Some(p) => {
            let c = p.challenger_segment;
            if segment_index_from(old_d.segments@, c.id, 0) is Some || old_races.get_spec(p.slow_segment_id) is Some {
                race_unchanged(old_d, new_d, old_races, new_races, r)
            } else {
                let base = match segment_index_from(old_d.segments@, p.slow_segment_id, 0) {
                    Some(i) => old_d.segments@[i].downloaded,
                    None => 0,
                };
                race_start_effect(old_d, new_d, old_races, new_races, p, base, r)
            }
        },
    }
}

fn changed_ends_of(before: &Vec<DownloadSegment>, after: &Vec<DownloadSegment>) -> (r: Vec<(u32, i64)>)
    ensures
        r@ == changed_end_list(before@, after@, after@.len() as int),
{
    let mut out: Vec<(u32, i64)> = Vec::new();
    let mut i: usize = 0;
    while i < after.len()
        invariant
            i <= after@.len(),
            out@ == changed_end_list(before@, after@, i as int),
        decreases after@.len() - i,
    {
        let s = after[i];
        let previous = lookup_end(before, s.id);
        let unchanged = match previous {
            Some(e) => e == s.end,
            None => false,
        };
        if !unchanged {
            out.push((s.id, s.end));
        }
        i = i + 1;
    }
    out
}

/// Gives idle workers more work: first by splitting the largest remaining range, else by
/// racing the slowest segment with a challenger.
pub fn attempt_runtime_queue_expansion(
    download: &mut DownloadRecord,
    scheduler: &SegmentScheduler,
    runtime_samples: &Vec<SegmentRuntimeSample>,
    races: &mut RaceMap,
    idle_worker_count: u32,
) -> (r: RuntimeQueueExpansion)
    requires
        old(races).wf(),
    ensures
        final(races).wf(),
        if old(download).writer_backpressure || idle_worker_count == 0 {
            race_unchanged(*old(download), *final(download), *old(races), *final(races), r)
        } else {
            let (after, stolen) = scheduler.work_steal_spec(
                old(download).segments@, runtime_samples@, max_int(old(download).size as int, 0), idle_worker_count as int);
            match stolen {
                Some(s) => {
                    &&& r.appended_segment == Some(s)
                    &&& r.control_updates@ == changed_end_list(old(download).segments@, after, after.len() as int)
                    &&& final(download).segments@ == after.push(s)
                    &&& *final(download) == (DownloadRecord { segments: final(download).segments, ..*old(download) })
                    &&& final(races).entries@ == old(races).entries@
                },
                None => exists|plan: Option<SlowPeerRacePlan>|
                    scheduler.race_steal_allows(old(download).segments@, runtime_samples@, idle_worker_count as int, plan)
                        && race_started(*old(download), *final(download), *old(races), *final(races), plan, r),
            }
        },
{
    if download.writer_backpressure || idle_worker_count == 0 {
        return RuntimeQueueExpansion { appended_segment: None, control_updates: Vec::new() };
    }
    let total: u64 = if download.size > 0 { download.size as u64 } else { 0 };
    let before = download.segments.clone();
    assert(before@ == download.segments@);
    let stolen = scheduler.attempt_work_steal(&mut download.segments, runtime_samples, total, idle_worker_count);
    match stolen {
        Some(s) => {
            let control_updates = changed_ends_of(&before, &download.segments);
            download.segments.push(s);
            return RuntimeQueueExpansion { appended_segment: Some(s), control_updates };
        },
        None => {},
    }
    let plan = scheduler.attempt_slow_peer_race_steal(&download.segments, runtime_samples, idle_worker_count);
    let ghost d0 = *download;
    let ghost r0 = *races;
    let p = match plan {
        Some(p) => p,
        None => {
            let r = RuntimeQueueExpansion { appended_segment: None, control_updates: Vec::new() };
            assert(race_started(d0, *download, r0, *races, plan, r));
            return r;
        },
    };
    let challenger = p.challenger_segment;
    let already_exists = find_segment(&download.segments, challenger.id).is_some();
    if already_exists || races.contains_key(p.slow_segment_id) {
        let r = RuntimeQueueExpansion { appended_segment: None, control_updates: Vec::new() };
        assert(race_started(d0, *download, r0, *races, plan, r));
        return r;
    }
    let slow_baseline: i64 = match find_segment(&download.segments, p.slow_segment_id) {
        Some(i) => {
            proof { lemma_segment_index_bounds(download.segments@, p.slow_segment_id, 0); }
            download.segments[i].downloaded
        },
        None => 0,
    };
    let challenger_id = challenger.id;
    download.segments.push(challenger);
    races.insert(p.slow_segment_id, RuntimeRaceState {
        companion_segment_id: challenger_id,
        slow_segment_id: p.slow_segment_id,
        slow_baseline_downloaded: slow_baseline,
    });
    races.insert(challenger_id, RuntimeRaceState {
        companion_segment_id: p.slow_segment_id,
        slow_segment_id: p.slow_segment_id,
        slow_baseline_downloaded: slow_baseline,
    });
    let mut message = String::new();
    message.append("Started slow-peer race: challenger segment ");
    push_decimal(&mut message, challenger_id as u64);
    message.append(" against slow segment ");
    push_decimal(&mut message, p.slow_segment_id as u64);
    message.append(" at byte ");
    push_signed_decimal(&mut message, slow_baseline);
    message.append(".");
    assert(message@ =~= race_started_message(challenger_id, p.slow_segment_id, slow_baseline));
    append_download_log(download, DownloadLogLevel::Info, "race.started", message.as_str());
    persist_runtime_races(&mut download.runtime_checkpoint, races);
    let r = RuntimeQueueExpansion { appended_segment: Some(challenger), control_updates: Vec::new() };
    let ghost base = match segment_index_from(d0.segments@, p.slow_segment_id, 0) {
        Some(i) => d0.segments@[i].downloaded,
        None => 0,
    };
    assert(race_start_effect(d0, *download, r0, *races, p, base, r));
    assert(race_started(d0, *download, r0, *races, plan, r));
    r
}

} // verus!
