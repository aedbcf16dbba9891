//! Registry transitions a user asks for: pausing, resuming, restarting, removing and
//! scheduling downloads, their transfer and completion options, host feedback, and
//! starting or stopping the queue.

use vstd::prelude::*;
use vstd::string::StringSliceAdditionalSpecFns;
use crate::download::{DownloadCapabilities, DownloadLogLevel, DownloadRecord, DownloadStatus};
use crate::download_ops::{clear_terminal_spec, log_append_spec, log_view, reset_progress_spec, rewound_segments};
use crate::download_plan::{ensured_segments, segmented_mode_spec};
use crate::model::EngineSettings;
use crate::registry::RegistrySnapshot;

verus! {

/// Index of the first download with id `id`.
pub open spec fn id_pos(ds: Seq<DownloadRecord>, id: Seq<char>) -> Option<int>
    decreases ds.len(),
{
    if ds.len() == 0 {
        None
    } else {
        match id_pos(ds.drop_last(), id) {
            Some(i) => Some(i),
            None => if ds.last().id@ == id { Some(ds.len() - 1) } else { None },
        }
    }
}

pub proof fn lemma_id_pos(ds: Seq<DownloadRecord>, id: Seq<char>)
    ensures
        id_pos(ds, id) matches Some(i) ==> 0 <= i < ds.len() && ds[i].id@ == id
            && forall|j: int| 0 <= j < i ==> ds[j].id@ != id,
        id_pos(ds, id) is None ==> forall|j: int| 0 <= j < ds.len() ==> ds[j].id@ != id,
    decreases ds.len(),
{
    if ds.len() > 0 {
        lemma_id_pos(ds.drop_last(), id);
        assert(forall|j: int| 0 <= j < ds.len() - 1 ==> ds.drop_last()[j] == ds[j]);
    }
}

/// Position of the first download with id `id`.
pub fn find_download(downloads: &Vec<DownloadRecord>, id: &str) -> (r: Option<usize>)
    ensures
        match r {
            Some(i) => id_pos(downloads@, id@) == Some(i as int),
            None => id_pos(downloads@, id@) is None,
        },
{
    proof { lemma_id_pos(downloads@, id@); }
    let mut i: usize = 0;
    while i < downloads.len()
        invariant
            i <= downloads@.len(),
            forall|j: int| 0 <= j < i ==> downloads@[j].id@ != id@,
            id_pos(downloads@, id@) matches Some(p) ==> 0 <= p < downloads@.len() && downloads@[p].id@ == id@
                && forall|j: int| 0 <= j < p ==> downloads@[j].id@ != id@,
            id_pos(downloads@, id@) is None ==> forall|j: int| 0 <= j < downloads@.len() ==> downloads@[j].id@ != id@,
        decreases downloads@.len() - i,
    {
        if crate::text::str_equal(downloads[i].id.as_str(), id) {
            return Some(i);
        }
        i = i + 1;
    }
    None
}

/// The answer to a request naming an unknown download.
pub open spec fn not_found_message(id: Seq<char>) -> Seq<char> {
    "No download found for id '"@ + id + "'."@
}

pub fn download_not_found(id: &str) -> (r: String)
    ensures
        r@ == not_found_message(id@),
{
    let mut out = String::new();
    out.append("No download found for id '");
    out.append(id);
    out.append("'.");
    proof {
        assert(Seq::<char>::empty() + "No download found for id '"@ =~= "No download found for id '"@);
    }
    out
}

/// `after` is `before` with its runtime checkpoint emptied and nothing else changed.
pub open spec fn checkpoint_cleared(before: DownloadRecord, after: DownloadRecord) -> bool {
    &&& after.runtime_checkpoint.segment_samples@.len() == 0
    &&& after.runtime_checkpoint.active_races@.len() == 0
    &&& after == DownloadRecord { runtime_checkpoint: after.runtime_checkpoint, ..before }
}

/// `after` is `mid` with its segment plan ensured for `settings`.
pub open spec fn plan_ensured(mid: DownloadRecord, after: DownloadRecord, settings: EngineSettings) -> bool {
    &&& after.segments@ == ensured_segments(mid, settings)
    &&& after == DownloadRecord {
        capabilities: DownloadCapabilities { segmented: segmented_mode_spec(mid), ..mid.capabilities },
        segments: after.segments,
        ..mid
    }
}

/// Speed, time left and the back-pressure flag cleared.
pub open spec fn quiet(d: DownloadRecord) -> DownloadRecord {
    DownloadRecord { speed: 0, time_left: None, writer_backpressure: false, ..d }
}

/// The registry after download `i` alone changed, to `final.downloads[i]`.
pub open spec fn only_download_changed(before: RegistrySnapshot, after: RegistrySnapshot, i: int) -> bool {
    &&& 0 <= i < before.downloads@.len()
    &&& after.downloads@ == before.downloads@.update(i, after.downloads@[i])
    &&& after == (RegistrySnapshot { downloads: after.downloads, ..before })
}

/// A paused download: a queued or running one pauses, its start request is withdrawn,
/// and its speed, time left and runtime checkpoint are cleared.
pub open spec fn paused_spec(before: DownloadRecord, after: DownloadRecord) -> bool {
    checkpoint_cleared(
        quiet(DownloadRecord {
            status: if before.status == DownloadStatus::Queued || before.status == DownloadStatus::Downloading {
                DownloadStatus::Paused
            } else {
                before.status
            },
            manual_start_requested: false,
            ..before
        }),
        after,
    )
}

/// Pauses download `id`; returns its position.
pub fn pause_download(registry: &mut RegistrySnapshot, id: &str) -> (r: Result<usize, String>)
    ensures
        match r {
            Ok(i) => id_pos(old(registry).downloads@, id@) == Some(i as int)
                && only_download_changed(*old(registry), *final(registry), i as int)
                && paused_spec(old(registry).downloads@[i as int], final(registry).downloads@[i as int]),
            Err(m) => id_pos(old(registry).downloads@, id@) is None && m@ == not_found_message(id@)
                && *final(registry) == *old(registry),
        },
{
    let i = match find_download(&registry.downloads, id) {
        Some(i) => i,
        None => { return Err(download_not_found(id)); },
    };
    proof { lemma_id_pos(registry.downloads@, id@); }
    let status = registry.downloads[i].status;
    if status == DownloadStatus::Queued || status == DownloadStatus::Downloading {
        registry.downloads[i].status = DownloadStatus::Paused;
    }
    registry.downloads[i].manual_start_requested = false;
    crate::download_ops::reset_download_transient_state(&mut registry.downloads[i]);
    crate::download_ops::clear_runtime_checkpoint(&mut registry.downloads[i]);
    assert(registry.downloads@ =~= old(registry).downloads@.update(i as int, registry.downloads@[i as int]));
    Ok(i)
}

/// A requeued download: queued with no schedule, started by hand unless the queue runs,
/// with its error and terminal reason, speed and time left cleared.
pub open spec fn requeued(d: DownloadRecord, queue_running: bool) -> DownloadRecord {
    quiet(DownloadRecord {
        status: DownloadStatus::Queued,
        scheduled_for: None,
        manual_start_requested: !queue_running,
        ..clear_terminal_spec(d)
    })
}

pub open spec fn finished_message() -> Seq<char> {
    "Finished downloads cannot be resumed."@
}

/// Resumes download `id`; returns its position. A finished download cannot be resumed.
pub fn resume_download(registry: &mut RegistrySnapshot, id: &str) -> (r: Result<usize, String>)
    ensures
        match id_pos(old(registry).downloads@, id@) {
            None => r matches Err(m) && m@ == not_found_message(id@) && *final(registry) == *old(registry),
            Some(i) => if old(registry).downloads@[i].status == DownloadStatus::Finished {
                r matches Err(m) && m@ == finished_message() && *final(registry) == *old(registry)
            } else {
                r == Ok::<usize, String>(i as usize) && only_download_changed(*old(registry), *final(registry), i)
                    && plan_ensured(requeued(old(registry).downloads@[i], old(registry).queue_running),
                        final(registry).downloads@[i], old(registry).settings)
            },
        },
{
    let i = match find_download(&registry.downloads, id) {
        Some(i) => i,
        None => { return Err(download_not_found(id)); },
    };
    proof { lemma_id_pos(registry.downloads@, id@); }
    if registry.downloads[i].status == DownloadStatus::Finished {
        return Err("Finished downloads cannot be resumed.".to_string());
    }
    let queue_running = registry.queue_running;
    let settings = crate::app_update::copy_settings(&registry.settings);
    registry.downloads[i].status = DownloadStatus::Queued;
    registry.downloads[i].scheduled_for = None;
    registry.downloads[i].manual_start_requested = !queue_running;
    crate::download_ops::clear_download_terminal_state(&mut registry.downloads[i]);
    crate::download_ops::reset_download_transient_state(&mut registry.downloads[i]);
    crate::download_plan::ensure_segment_plan(&mut registry.downloads[i], &settings);
    assert(registry.downloads@ =~= old(registry).downloads@.update(i as int, registry.downloads@[i as int]));
    Ok(i)
}

/// Sets whether the folder opens when download `id` completes; returns its position.
pub fn set_download_completion_options(registry: &mut RegistrySnapshot, id: &str, open_folder_on_completion: bool) -> (r: Result<usize, String>)
    ensures
        match r {
            Ok(i) => id_pos(old(registry).downloads@, id@) == Some(i as int)
                && only_download_changed(*old(registry), *final(registry), i as int)
                && final(registry).downloads@[i as int] == (DownloadRecord { open_folder_on_completion, ..old(registry).downloads@[i as int] }),
            Err(m) => id_pos(old(registry).downloads@, id@) is None && m@ == not_found_message(id@)
                && *final(registry) == *old(registry),
        },
{
    let i = match find_download(&registry.downloads, id) {
        Some(i) => i,
        None => { return Err(download_not_found(id)); },
    };
    proof { lemma_id_pos(registry.downloads@, id@); }
    registry.downloads[i].open_folder_on_completion = open_folder_on_completion;
    assert(registry.downloads@ =~= old(registry).downloads@.update(i as int, registry.downloads@[i as int]));
    Ok(i)
}

pub const RESTART_LOG_CODE: &'static str = "transfer.restart";
pub const RESTART_LOG_MESSAGE: &'static str = "Restarted the download from byte 0 and cleared previous completion state.";

/// A restarted download: back to byte 0 and queued, its progress, checkpoint and terminal
/// state cleared, a restart line logged at `now`, and its segment plan ensured.
pub open spec fn restarted_spec(before: DownloadRecord, after: DownloadRecord, queue_running: bool, settings: EngineSettings, now: i64) -> bool {
    let d1 = requeued(DownloadRecord { downloaded: 0, ..before }, queue_running);
    exists|d2: DownloadRecord, d3: DownloadRecord, d4: DownloadRecord|
        #![trigger checkpoint_cleared(d2, d3), plan_ensured(d4, after, settings)] {
        &&& d2.segments@ == rewound_segments(d1.segments@)
        &&& d2 == (DownloadRecord { segments: d2.segments, ..reset_progress_spec(d1) })
        &&& checkpoint_cleared(d2, d3)
        &&& log_view(d4.engine_log@) == log_append_spec(log_view(d3.engine_log@), DownloadLogLevel::Info,
            RESTART_LOG_CODE@, RESTART_LOG_MESSAGE@, now)
        &&& d4 == (DownloadRecord { engine_log: d4.engine_log, ..d3 })
        &&& plan_ensured(d4, after, settings)
    }
}

/// Restarts download `id` from byte 0, logging at `now`; returns its position.
pub fn restart_download_at(registry: &mut RegistrySnapshot, id: &str, now: i64) -> (r: Result<usize, String>)
    ensures
        match r {
            Ok(i) => id_pos(old(registry).downloads@, id@) == Some(i as int)
                && only_download_changed(*old(registry), *final(registry), i as int)
                && restarted_spec(old(registry).downloads@[i as int], final(registry).downloads@[i as int],
                    old(registry).queue_running, old(registry).settings, now),
            Err(m) => id_pos(old(registry).downloads@, id@) is None && m@ == not_found_message(id@)
                && *final(registry) == *old(registry),
        },
{
    let i = match find_download(&registry.downloads, id) {
        Some(i) => i,
        None => { return Err(download_not_found(id)); },
    };
    proof { lemma_id_pos(registry.downloads@, id@); }
    let queue_running = registry.queue_running;
    let settings = crate::app_update::copy_settings(&registry.settings);
    registry.downloads[i].downloaded = 0;
    crate::download_ops::reset_download_transient_state(&mut registry.downloads[i]);
    crate::download_ops::clear_download_terminal_state(&mut registry.downloads[i]);
    registry.downloads[i].status = DownloadStatus::Queued;
    registry.downloads[i].scheduled_for = None;
    registry.downloads[i].manual_start_requested = !queue_running;
    crate::download_ops::reset_download_progress(&mut registry.downloads[i]);
    let ghost d2 = registry.downloads@[i as int];
    crate::download_ops::clear_runtime_checkpoint(&mut registry.downloads[i]);
    let ghost d3 = registry.downloads@[i as int];
    crate::download_ops::append_download_log_at(&mut registry.downloads[i], DownloadLogLevel::Info, RESTART_LOG_CODE, RESTART_LOG_MESSAGE, now);
    let ghost d4 = registry.downloads@[i as int];
    crate::download_plan::ensure_segment_plan(&mut registry.downloads[i], &settings);
    proof {
        let d1 = requeued(DownloadRecord { downloaded: 0, ..old(registry).downloads@[i as int] }, queue_running);
        assert(d2 == (DownloadRecord { segments: d2.segments, ..reset_progress_spec(d1) }));
        assert(checkpoint_cleared(d2, d3));
        assert(plan_ensured(d4, registry.downloads@[i as int], settings));
        assert(restarted_spec(old(registry).downloads@[i as int], registry.downloads@[i as int], queue_running, settings, now));
    }
    assert(registry.downloads@ =~= old(registry).downloads@.update(i as int, registry.downloads@[i as int]));
    Ok(i)
}

/// Restarts download `id` from byte 0; returns its position.
pub fn restart_download(registry: &mut RegistrySnapshot, id: &str) -> (r: Result<usize, String>)
    ensures
        match r {
            Ok(i) => id_pos(old(registry).downloads@, id@) == Some(i as int)
                && only_download_changed(*old(registry), *final(registry), i as int)
                && exists|now: i64| restarted_spec(old(registry).downloads@[i as int], final(registry).downloads@[i as int],
                    old(registry).queue_running, old(registry).settings, now),
            Err(m) => id_pos(old(registry).downloads@, id@) is None && m@ == not_found_message(id@)
                && *final(registry) == *old(registry),
        },
{
    let now = crate::host_planner::unix_epoch_millis();
    restart_download_at(registry, id, now)
}

pub const SCHEDULED_LOG_CODE: &'static str = "queue.scheduled";
pub const SCHEDULED_LOG_MESSAGE: &'static str = "Scheduled this download to start automatically at the selected time.";
pub const SCHEDULE_CLEARED_LOG_CODE: &'static str = "queue.schedule-cleared";
pub const SCHEDULE_CLEARED_LOG_MESSAGE: &'static str = "Cleared the scheduled start time for this download.";

pub open spec fn schedule_finished_message() -> Seq<char> {
    "Finished downloads cannot be scheduled again."@
}

/// A schedule kept only when it lies after `now`.
pub open spec fn future_schedule(scheduled_for: Option<i64>, now: i64) -> Option<i64> {
    match scheduled_for {
        Some(v) => if v > now { Some(v) } else { None },
        None => None,
    }
}

/// The download `d0` with its new schedule, queued afresh unless finished: start request,
/// terminal state, speed and checkpoint cleared, segment plan ensured.
pub open spec fn requeued_for_schedule(d0: DownloadRecord, d1: DownloadRecord, settings: EngineSettings) -> bool {
    if d0.status == DownloadStatus::Finished {
        d1 == d0
    } else {
        exists|c: DownloadRecord| checkpoint_cleared(
            quiet(DownloadRecord { status: DownloadStatus::Queued, manual_start_requested: false, ..clear_terminal_spec(d0) }), c)
            && #[trigger] plan_ensured(c, d1, settings)
    }
}

/// A download given the schedule `schedule` at `now`: with a schedule, an unfinished
/// download is queued afresh (start request, terminal state, speed and checkpoint cleared,
/// segment plan ensured) and a scheduling line is logged; without one, the clearing is logged.
pub open spec fn scheduled_spec(before: DownloadRecord, after: DownloadRecord, schedule: Option<i64>, settings: EngineSettings, now: i64) -> bool {
    let d0 = DownloadRecord { scheduled_for: schedule, ..before };
    if schedule is Some {
        exists|d1: DownloadRecord| {
            &&& #[trigger] requeued_for_schedule(d0, d1, settings)
            &&& log_view(after.engine_log@) == log_append_spec(log_view(d1.engine_log@), DownloadLogLevel::Info,
                SCHEDULED_LOG_CODE@, SCHEDULED_LOG_MESSAGE@, now)
            &&& after == (DownloadRecord { engine_log: after.engine_log, ..d1 })
        }
    } else {
        &&& log_view(after.engine_log@) == log_append_spec(log_view(d0.engine_log@), DownloadLogLevel::Info,
            SCHEDULE_CLEARED_LOG_CODE@, SCHEDULE_CLEARED_LOG_MESSAGE@, now)
        &&& after == (DownloadRecord { engine_log: after.engine_log, ..d0 })
    }
}

/// What scheduling download `id` for `scheduled_for` at `now` answers and leaves.
pub open spec fn schedule_result(
    before: RegistrySnapshot,
    after: RegistrySnapshot,
    id: Seq<char>,
    scheduled_for: Option<i64>,
    now: i64,
    r: Result<usize, String>,
) -> bool {
    match id_pos(before.downloads@, id) {
        None => r matches Err(m) && m@ == not_found_message(id) && after == before,
        Some(i) => if before.downloads@[i].status == DownloadStatus::Finished && future_schedule(scheduled_for, now) is Some {
            r matches Err(m) && m@ == schedule_finished_message() && after == before
        } else {
            r == Ok::<usize, String>(i as usize) && only_download_changed(before, after, i)
                && scheduled_spec(before.downloads@[i], after.downloads@[i], future_schedule(scheduled_for, now), before.settings, now)
        },
    }
}

/// Schedules download `id` for `scheduled_for` (a time not after `now` clears the
/// schedule); returns its position. A finished download cannot be scheduled again.
pub fn set_download_schedule_at(registry: &mut RegistrySnapshot, id: &str, scheduled_for: Option<i64>, now: i64) -> (r: Result<usize, String>)
    ensures
        schedule_result(*old(registry), *final(registry), id@, scheduled_for, now, r),
{
    let schedule = crate::operations::normalize_scheduled_for_at(scheduled_for, now);
    let i = match find_download(&registry.downloads, id) {
        Some(i) => i,
        None => { return Err(download_not_found(id)); },
    };
    proof { lemma_id_pos(registry.downloads@, id@); }
    let finished = registry.downloads[i].status == DownloadStatus::Finished;
    if finished && schedule.is_some() {
        return Err("Finished downloads cannot be scheduled again.".to_string());
    }
    let settings = crate::app_update::copy_settings(&registry.settings);
    registry.downloads[i].scheduled_for = schedule;
    let ghost d0 = registry.downloads@[i as int];
    if schedule.is_some() {
        if !finished {
            registry.downloads[i].status = DownloadStatus::Queued;
            registry.downloads[i].manual_start_requested = false;
            crate::download_ops::clear_download_terminal_state(&mut registry.downloads[i]);
            crate::download_ops::reset_download_transient_state(&mut registry.downloads[i]);
            crate::download_ops::clear_runtime_checkpoint(&mut registry.downloads[i]);
            let ghost c = registry.downloads@[i as int];
            crate::download_plan::ensure_segment_plan(&mut registry.downloads[i], &settings);
            proof {
                assert(plan_ensured(c, registry.downloads@[i as int], settings));
                assert(checkpoint_cleared(
                    quiet(DownloadRecord { status: DownloadStatus::Queued, manual_start_requested: false, ..clear_terminal_spec(d0) }), c));
            }
        }
        let ghost d1 = registry.downloads@[i as int];
        crate::download_ops::append_download_log_at(&mut registry.downloads[i], DownloadLogLevel::Info, SCHEDULED_LOG_CODE, SCHEDULED_LOG_MESSAGE, now);
        proof {
            assert(requeued_for_schedule(d0, d1, settings));
            assert(scheduled_spec(old(registry).downloads@[i as int], registry.downloads@[i as int], schedule, settings, now));
        }
    } else {
        crate::download_ops::append_download_log_at(&mut registry.downloads[i], DownloadLogLevel::Info, SCHEDULE_CLEARED_LOG_CODE, SCHEDULE_CLEARED_LOG_MESSAGE, now);
    }
    assert(registry.downloads@ =~= old(registry).downloads@.update(i as int, registry.downloads@[i as int]));
    Ok(i)
}

/// Schedules download `id` for `scheduled_for`, read against the current time.
pub fn set_download_schedule(registry: &mut RegistrySnapshot, id: &str, scheduled_for: Option<i64>) -> (r: Result<usize, String>)
    ensures
        exists|now: i64| #[trigger] schedule_result(*old(registry), *final(registry), id@, scheduled_for, now, r),
{
    let now = crate::host_planner::unix_epoch_millis();
    set_download_schedule_at(registry, id, scheduled_for, now)
}

/// A speed limit kept only when positive.
pub open spec fn positive_limit(limit: Option<u64>) -> Option<u64> {
    match limit {
        Some(v) => if v > 0 { Some(v) } else { None },
        None => None,
    }
}

/// Sets the speed limit of download `id` at `now` (a zero limit lifts it), after bringing
/// it in line with its host profile; returns its position.
pub fn set_download_transfer_options_at(
    registry: &mut RegistrySnapshot,
    id: &str,
    speed_limit_bytes_per_second: Option<u64>,
    now: i64,
) -> (r: Result<usize, String>)
    ensures
        match r {
            Ok(i) => id_pos(old(registry).downloads@, id@) == Some(i as int)
                && only_download_changed(*old(registry), *final(registry), i as int)
                && exists|mid: DownloadRecord| #![trigger crate::download_plan::host_profile_applied(old(registry).downloads@[i as int], mid, old(registry).settings,
                    crate::registry::profile_of(old(registry).host_profiles@, old(registry).downloads@[i as int].host@), now)]
                    crate::download_plan::host_profile_applied(old(registry).downloads@[i as int], mid, old(registry).settings,
                        crate::registry::profile_of(old(registry).host_profiles@, old(registry).downloads@[i as int].host@), now)
                    && final(registry).downloads@[i as int] == (DownloadRecord {
                        speed_limit_bytes_per_second: positive_limit(speed_limit_bytes_per_second),
                        ..mid
                    }),
            Err(m) => id_pos(old(registry).downloads@, id@) is None && m@ == not_found_message(id@)
                && *final(registry) == *old(registry),
        },
{
    let i = match find_download(&registry.downloads, id) {
        Some(i) => i,
        None => { return Err(download_not_found(id)); },
    };
    proof { lemma_id_pos(registry.downloads@, id@); }
    let settings = crate::app_update::copy_settings(&registry.settings);
    let host = registry.downloads[i].host.clone();
    let profile = crate::runtime_dispatch::profile_in(&registry.host_profiles, host.as_str());
    crate::download_plan::apply_download_host_profile_at(&mut registry.downloads[i], &settings, profile, now);
    let ghost mid = registry.downloads@[i as int];
    registry.downloads[i].speed_limit_bytes_per_second = match speed_limit_bytes_per_second {
        Some(v) => if v > 0 { Some(v) } else { None },
        None => None,
    };
    assert(registry.downloads@ =~= old(registry).downloads@.update(i as int, registry.downloads@[i as int]));
    Ok(i)
}

/// Sets the speed limit of download `id` at the current time; returns its position.
pub fn set_download_transfer_options(registry: &mut RegistrySnapshot, id: &str, speed_limit_bytes_per_second: Option<u64>) -> (r: Result<usize, String>)
    ensures
        match r {
            Ok(i) => id_pos(old(registry).downloads@, id@) == Some(i as int)
                && only_download_changed(*old(registry), *final(registry), i as int)
                && exists|mid: DownloadRecord, now: i64| #![trigger crate::download_plan::host_profile_applied(old(registry).downloads@[i as int], mid, old(registry).settings,
                    crate::registry::profile_of(old(registry).host_profiles@, old(registry).downloads@[i as int].host@), now)]
                    crate::download_plan::host_profile_applied(old(registry).downloads@[i as int], mid, old(registry).settings,
                        crate::registry::profile_of(old(registry).host_profiles@, old(registry).downloads@[i as int].host@), now)
                    && final(registry).downloads@[i as int] == (DownloadRecord {
                        speed_limit_bytes_per_second: positive_limit(speed_limit_bytes_per_second),
                        ..mid
                    }),
            Err(m) => id_pos(old(registry).downloads@, id@) is None && m@ == not_found_message(id@)
                && *final(registry) == *old(registry),
        },
{
    let now = crate::host_planner::unix_epoch_millis();
    set_download_transfer_options_at(registry, id, speed_limit_bytes_per_second, now)
}

/// A download when the queue starts: a stopped one is queued, its start request withdrawn,
/// its speed and time left cleared and its segment plan ensured.
pub open spec fn queue_started_spec(before: DownloadRecord, after: DownloadRecord, settings: EngineSettings) -> bool {
    plan_ensured(
        quiet(DownloadRecord {
            status: if before.status == DownloadStatus::Stopped { DownloadStatus::Queued } else { before.status },
            manual_start_requested: false,
            ..before
        }),
        after,
        settings,
    )
}

/// Starts the queue: it runs, and every download is prepared to be dispatched.
pub fn start_queue(registry: &mut RegistrySnapshot)
    ensures
        final(registry).queue_running,
        final(registry).downloads@.len() == old(registry).downloads@.len(),
        forall|k: int| 0 <= k < old(registry).downloads@.len() ==> queue_started_spec(old(registry).downloads@[k],
            #[trigger] final(registry).downloads@[k], old(registry).settings),
        *final(registry) == (RegistrySnapshot { downloads: final(registry).downloads, queue_running: true, ..*old(registry) }),
{
    let settings = crate::app_update::copy_settings(&registry.settings);
    registry.queue_running = true;
    let ghost ds0 = registry.downloads@;
    let mut k: usize = 0;
    while k < registry.downloads.len()
        invariant
            k <= registry.downloads@.len() == ds0.len(),
            settings == old(registry).settings,
            forall|j: int| k <= j < ds0.len() ==> #[trigger] registry.downloads@[j] == ds0[j],
            forall|j: int| 0 <= j < k ==> queue_started_spec(ds0[j], #[trigger] registry.downloads@[j], settings),
            *registry == (RegistrySnapshot { downloads: registry.downloads, queue_running: true, ..*old(registry) }),
        decreases ds0.len() - k,
    {
        if registry.downloads[k].status == DownloadStatus::Stopped {
            registry.downloads[k].status = DownloadStatus::Queued;
        }
        registry.downloads[k].manual_start_requested = false;
        crate::download_ops::reset_download_transient_state(&mut registry.downloads[k]);
        crate::download_plan::ensure_segment_plan(&mut registry.downloads[k], &settings);
        k = k + 1;
    }
}

/// A download when the queue stops: a queued or running one stops, its start request is
/// withdrawn, and its speed, time left and runtime checkpoint are cleared.
pub open spec fn queue_stopped_spec(before: DownloadRecord, after: DownloadRecord) -> bool {
    checkpoint_cleared(
        quiet(DownloadRecord {
            status: if before.status == DownloadStatus::Queued || before.status == DownloadStatus::Downloading {
                DownloadStatus::Stopped
            } else {
                before.status
            },
            manual_start_requested: false,
            ..before
        }),
        after,
    )
}

/// Stops the queue and every queued or running download.
pub fn stop_queue(registry: &mut RegistrySnapshot)
    ensures
        !final(registry).queue_running,
        final(registry).downloads@.len() == old(registry).downloads@.len(),
        forall|k: int| 0 <= k < old(registry).downloads@.len() ==> queue_stopped_spec(old(registry).downloads@[k],
            #[trigger] final(registry).downloads@[k]),
        *final(registry) == (RegistrySnapshot { downloads: final(registry).downloads, queue_running: false, ..*old(registry) }),
{
    registry.queue_running = false;
    let ghost ds0 = registry.downloads@;
    let mut k: usize = 0;
    while k < registry.downloads.len()
        invariant
            k <= registry.downloads@.len() == ds0.len(),
            forall|j: int| k <= j < ds0.len() ==> #[trigger] registry.downloads@[j] == ds0[j],
            forall|j: int| 0 <= j < k ==> queue_stopped_spec(ds0[j], #[trigger] registry.downloads@[j]),
            *registry == (RegistrySnapshot { downloads: registry.downloads, queue_running: false, ..*old(registry) }),
        decreases ds0.len() - k,
    {
        let status = registry.downloads[k].status;
        if status == DownloadStatus::Queued || status == DownloadStatus::Downloading {
            registry.downloads[k].status = DownloadStatus::Stopped;
        }
        registry.downloads[k].manual_start_requested = false;
        crate::download_ops::reset_download_transient_state(&mut registry.downloads[k]);
        crate::download_ops::clear_runtime_checkpoint(&mut registry.downloads[k]);
        k = k + 1;
    }
}

/// The downloads whose id is not among `ids`, in order.
pub open spec fn kept_downloads(ds: Seq<DownloadRecord>, ids: Seq<Seq<char>>) -> Seq<DownloadRecord>
    decreases ds.len(),
{
    if ds.len() == 0 {
        ds
    } else {
        let rest = kept_downloads(ds.drop_last(), ids);
        if ids.contains(ds.last().id@) { rest } else { rest.push(ds.last()) }
    }
}

/// The ids of the downloads whose id is among `ids`, in order.
pub open spec fn removed_ids(ds: Seq<DownloadRecord>, ids: Seq<Seq<char>>) -> Seq<Seq<char>>
    decreases ds.len(),
{
    if ds.len() == 0 {
        Seq::empty()
    } else {
        let rest = removed_ids(ds.drop_last(), ids);
        if ids.contains(ds.last().id@) { rest.push(ds.last().id@) } else { rest }
    }
}

/// `after` holds the downloads of `before` renumbered 1, 2, 3, ... in queue order.
pub open spec fn renumbered(before: Seq<DownloadRecord>, after: Seq<DownloadRecord>) -> bool {
    &&& after.len() == before.len()
    &&& crate::download_ops::positions_normalized(after)
    &&& exists|sorted: Seq<DownloadRecord>| {
        &&& sorted.to_multiset() == before.to_multiset()
        &&& crate::download_ops::queue_sorted(sorted)
        &&& sorted.len() == after.len()
        &&& forall|i: int| 0 <= i < sorted.len() ==> #[trigger] after[i]
            == (DownloadRecord { queue_position: crate::download_ops::normalized_position(i) as u32, ..sorted[i] })
    }
}

fn text_listed(list: &Vec<String>, s: &str) -> (r: bool)
    ensures
        r == crate::registry::strings_view(list@).contains(s@),
{
    let ghost v = crate::registry::strings_view(list@);
    let mut i: usize = 0;
    while i < list.len()
        invariant
            i <= list@.len(),
            v == crate::registry::strings_view(list@),
            forall|j: int| 0 <= j < i ==> v[j] != s@,
        decreases list@.len() - i,
    {
        if crate::text::str_equal(list[i].as_str(), s) {
            assert(v[i as int] == s@);
            return true;
        }
        i = i + 1;
    }
    false
}

fn any_listed(ds: &Vec<DownloadRecord>, ids: &Vec<String>) -> (r: bool)
    ensures
        r == exists|k: int| 0 <= k < ds@.len() && crate::registry::strings_view(ids@).contains(#[trigger] ds@[k].id@),
{
    let mut i: usize = 0;
    while i < ds.len()
        invariant
            i <= ds@.len(),
            forall|k: int| 0 <= k < i ==> !crate::registry::strings_view(ids@).contains(#[trigger] ds@[k].id@),
        decreases ds@.len() - i,
    {
        if text_listed(ids, ds[i].id.as_str()) {
            return true;
        }
        i = i + 1;
    }
    false
}

/// Takes the listed downloads out, keeping the order of the others; returns their ids.
fn take_listed(downloads: &mut Vec<DownloadRecord>, ids: &Vec<String>) -> (removed: Vec<String>)
    ensures
        final(downloads)@ == kept_downloads(old(downloads)@, crate::registry::strings_view(ids@)),
        crate::registry::strings_view(removed@) == removed_ids(old(downloads)@, crate::registry::strings_view(ids@)),
{
    let ghost ds0 = downloads@;
    let ghost idv = crate::registry::strings_view(ids@);
    let mut removed: Vec<String> = Vec::new();
    let mut i: usize = 0;
    let ghost mut k: int = 0;
    assert(ds0.take(0) =~= Seq::<DownloadRecord>::empty());
    assert(ds0.skip(0) =~= ds0);
    assert(downloads@.take(0) =~= Seq::<DownloadRecord>::empty());
    assert(crate::registry::strings_view(removed@) =~= Seq::<Seq<char>>::empty());
    while i < downloads.len()
        invariant
            0 <= k <= ds0.len(),
            i <= downloads@.len(),
            downloads@.len() - i == ds0.len() - k,
            idv == crate::registry::strings_view(ids@),
            downloads@.take(i as int) == kept_downloads(ds0.take(k), idv),
            downloads@.skip(i as int) == ds0.skip(k),
            crate::registry::strings_view(removed@) == removed_ids(ds0.take(k), idv),
        decreases ds0.len() - k,
    {
        let ghost before = downloads@;
        assert(downloads@[i as int] == ds0[k]) by {
            assert(downloads@.skip(i as int)[0] == ds0.skip(k)[0]);
        }
        assert(ds0.take(k + 1).drop_last() =~= ds0.take(k));
        assert(ds0.take(k + 1).last() == ds0[k]);
        if text_listed(ids, downloads[i].id.as_str()) {
            let gone = downloads.remove(i);
            let ghost rv = crate::registry::strings_view(removed@);
            removed.push(gone.id);
            proof {
                assert(crate::registry::strings_view(removed@) =~= rv.push(ds0[k].id@));
                assert(downloads@.take(i as int) =~= before.take(i as int));
                assert forall|j: int| 0 <= j < downloads@.skip(i as int).len() implies #[trigger] downloads@.skip(i as int)[j] == ds0.skip(k + 1)[j] by {
                    assert(before.skip(i as int)[j + 1] == ds0.skip(k)[j + 1]);
                }
                assert(downloads@.skip(i as int) =~= ds0.skip(k + 1));
                k = k + 1;
            }
        } else {
            proof {
                assert(downloads@.take(i + 1) =~= before.take(i as int).push(ds0[k]));
                assert forall|j: int| 0 <= j < downloads@.skip(i + 1).len() implies #[trigger] downloads@.skip(i + 1)[j] == ds0.skip(k + 1)[j] by {
                    assert(before.skip(i as int)[j + 1] == ds0.skip(k)[j + 1]);
                }
                assert(downloads@.skip(i + 1) =~= ds0.skip(k + 1));
                k = k + 1;
            }
            i = i + 1;
        }
    }
    proof {
        assert(k == ds0.len());
        assert(ds0.take(k) =~= ds0);
        assert(downloads@.take(i as int) =~= downloads@);
    }
    removed
}

pub open spec fn none_found_message() -> Seq<char> {
    "No downloads found for the requested ids."@
}

/// Removes the downloads listed in `ids` and renumbers the queue; returns the removed ids
/// in registry order. An empty list removes nothing; a list naming no download is refused.
pub fn remove_downloads(registry: &mut RegistrySnapshot, ids: &Vec<String>) -> (r: Result<Vec<String>, String>)
    ensures
        ids@.len() == 0 ==> (r matches Ok(v) && v@.len() == 0 && *final(registry) == *old(registry)),
        ids@.len() > 0 && !(exists|k: int| 0 <= k < old(registry).downloads@.len()
            && crate::registry::strings_view(ids@).contains(#[trigger] old(registry).downloads@[k].id@))
            ==> (r matches Err(m) && m@ == none_found_message() && *final(registry) == *old(registry)),
        ids@.len() > 0 && (exists|k: int| 0 <= k < old(registry).downloads@.len()
            && crate::registry::strings_view(ids@).contains(#[trigger] old(registry).downloads@[k].id@))
            ==> (r matches Ok(v)
                && crate::registry::strings_view(v@) == removed_ids(old(registry).downloads@, crate::registry::strings_view(ids@))
                && renumbered(kept_downloads(old(registry).downloads@, crate::registry::strings_view(ids@)), final(registry).downloads@)
                && *final(registry) == (RegistrySnapshot { downloads: final(registry).downloads, ..*old(registry) })),
{
    if ids.len() == 0 {
        return Ok(Vec::new());
    }
    if !any_listed(&registry.downloads, ids) {
        return Err("No downloads found for the requested ids.".to_string());
    }
    let removed = take_listed(&mut registry.downloads, ids);
    let ghost kept = registry.downloads@;
    crate::download_ops::normalize_queue_positions(&mut registry.downloads);
    assert(renumbered(kept, registry.downloads@));
    Ok(removed)
}

/// Removes download `id` and renumbers the queue.
pub fn remove_download(registry: &mut RegistrySnapshot, id: &str) -> (r: Result<(), String>)
    ensures
        match id_pos(old(registry).downloads@, id@) {
            None => r matches Err(m) && m@ == not_found_message(id@) && *final(registry) == *old(registry),
            Some(_) => r is Ok
                && renumbered(kept_downloads(old(registry).downloads@, seq![id@]), final(registry).downloads@)
                && *final(registry) == (RegistrySnapshot { downloads: final(registry).downloads, ..*old(registry) }),
        },
{
    proof { lemma_id_pos(registry.downloads@, id@); }
    let ids: Vec<String> = vec![id.to_owned()];
    assert(crate::registry::strings_view(ids@) =~= seq![id@]);
    if find_download(&registry.downloads, id).is_none() {
        return Err(download_not_found(id));
    }
    let _ = take_listed(&mut registry.downloads, &ids);
    let ghost kept = registry.downloads@;
    crate::download_ops::normalize_queue_positions(&mut registry.downloads);
    assert(renumbered(kept, registry.downloads@));
    Ok(())
}

proof fn lemma_host_pos_hosts(a: Seq<crate::registry::HostProfileEntry>, b: Seq<crate::registry::HostProfileEntry>, h: Seq<char>)
    requires
        a.len() == b.len(),
        forall|i: int| 0 <= i < a.len() ==> a[i].host@ == b[i].host@,
    ensures
        crate::registry::host_pos(a, h) == crate::registry::host_pos(b, h),
    decreases a.len(),
{
    if a.len() > 0 {
        lemma_host_pos_hosts(a.drop_last(), b.drop_last(), h);
    }
}

/// The registry after host feedback `payload` at `now`: the host's profile (a blank one
/// when it had none) takes the telemetry, and every download of that host is brought in
/// line with the new profile; nothing else changes.
pub open spec fn feedback_applied(
    before: RegistrySnapshot,
    after: RegistrySnapshot,
    host: Seq<char>,
    payload: crate::model::HostTelemetryArgs,
    now: i64,
) -> bool {
    &&& crate::registry::profiles_view(after.host_profiles@) == crate::registry::profile_updated(before.host_profiles@, host,
        |v: crate::model::HostProfileView| crate::host_telemetry::host_telemetry_spec(v, payload, now))
    &&& after.downloads@.len() == before.downloads@.len()
    &&& forall|k: int| 0 <= k < before.downloads@.len() ==> (if before.downloads@[k].host@ == host {
        crate::download_plan::host_profile_applied(before.downloads@[k], #[trigger] after.downloads@[k],
            before.settings, crate::registry::profile_of(after.host_profiles@, host), now)
    } else {
        after.downloads@[k] == before.downloads@[k]
    })
    &&& after == (RegistrySnapshot { downloads: after.downloads, host_profiles: after.host_profiles, ..before })
}

/// Host feedback at `now`: the host's profile (a blank one when it had none) takes the
/// telemetry, and every download of that host is brought in line with the new profile.
pub fn apply_host_feedback_to_registry_at(
    registry: &mut RegistrySnapshot,
    host: &str,
    payload: &crate::model::HostTelemetryArgs,
    now: i64,
)
    ensures
        feedback_applied(*old(registry), *final(registry), host@, *payload, now),
{
    let settings = crate::app_update::copy_settings(&registry.settings);
    let slot = crate::registry::host_profile_slot(registry, host);
    let ghost mid = registry.host_profiles@;
    proof { crate::registry::lemma_host_pos(old(registry).host_profiles@, host@); }
    crate::host_telemetry::apply_host_telemetry_at(&mut registry.host_profiles[slot].profile, payload, now);
    proof {
        let f = |v: crate::model::HostProfileView| crate::host_telemetry::host_telemetry_spec(v, *payload, now);
        crate::registry::lemma_profile_slot_update(old(registry).host_profiles@, mid, registry.host_profiles@, host@, slot as int, f);
        lemma_host_pos_hosts(mid, registry.host_profiles@, host@);
    }
    let ghost ds0 = registry.downloads@;
    let ghost pre = *registry;
    assert(pre == (RegistrySnapshot { host_profiles: pre.host_profiles, ..*old(registry) }));
    let mut k: usize = 0;
    while k < registry.downloads.len()
        invariant
            k <= registry.downloads@.len() == ds0.len(),
            ds0 == old(registry).downloads@,
            *registry == (RegistrySnapshot { downloads: registry.downloads, ..pre }),
            slot < registry.host_profiles@.len(),
            crate::registry::host_pos(registry.host_profiles@, host@) == Some(slot as int),
            settings == old(registry).settings,
            forall|j: int| k <= j < ds0.len() ==> #[trigger] registry.downloads@[j] == ds0[j],
            forall|j: int| 0 <= j < k ==> (if ds0[j].host@ == host@ {
                crate::download_plan::host_profile_applied(ds0[j], #[trigger] registry.downloads@[j], settings,
                    crate::registry::profile_of(registry.host_profiles@, host@), now)
            } else {
                registry.downloads@[j] == ds0[j]
            }),
        decreases ds0.len() - k,
    {
        if crate::text::str_equal(registry.downloads[k].host.as_str(), host) {
            crate::download_plan::apply_download_host_profile_at(&mut registry.downloads[k], &settings,
                Some(&registry.host_profiles[slot].profile), now);
        }
        k = k + 1;
    }
}

pub open spec fn empty_host_message() -> Seq<char> {
    "Host telemetry requires a non-empty host."@
}

/// Records host telemetry at `now`; the host must not be blank.
pub fn record_host_telemetry_at(registry: &mut RegistrySnapshot, payload: &crate::model::HostTelemetryArgs, now: i64) -> (r: Result<(), String>)
    ensures
        telemetry_recorded(*old(registry), *final(registry), *payload, now, r),
{
    let copied = payload.host.clone();
    let cleaned = crate::download_ops::non_empty(copied);
    let host = match cleaned {
        Some(h) => h,
        None => { return Err("Host telemetry requires a non-empty host.".to_string()); },
    };
    apply_host_feedback_to_registry_at(registry, host.as_str(), payload, now);
    Ok(())
}

/// What recording host telemetry at `now` answers and leaves.
pub open spec fn telemetry_recorded(
    before: RegistrySnapshot,
    after: RegistrySnapshot,
    payload: crate::model::HostTelemetryArgs,
    now: i64,
    r: Result<(), String>,
) -> bool {
    match crate::download_ops::non_empty_spec(payload.host@) {
        None => r matches Err(m) && m@ == empty_host_message() && after == before,
        Some(h) => r is Ok && feedback_applied(before, after, h, payload, now),
    }
}

/// Records host telemetry at the current time; the host must not be blank.
pub fn record_host_telemetry(registry: &mut RegistrySnapshot, payload: &crate::model::HostTelemetryArgs) -> (r: Result<(), String>)
    ensures
        exists|now: i64| #[trigger] telemetry_recorded(*old(registry), *final(registry), *payload, now, r),
{
    let now = crate::host_planner::unix_epoch_millis();
    record_host_telemetry_at(registry, payload, now)
}

pub const TASK_TERMINATED_REASON: &'static str = "Transfer runtime terminated before completion.";

/// A download whose transfer task failed with `error`: in error, quiet, with the error as
/// its message; its failure kind (when it had none) read from the error, a restart needed
/// when bytes were kept, and a terminal reason (when it had none) saying the task ended.
pub open spec fn task_failed_spec(before: DownloadRecord, after: DownloadRecord, error: Seq<char>, error_bytes: Seq<u8>) -> bool {
    let q = quiet(DownloadRecord { status: DownloadStatus::Error, ..before });
    &&& opt_text_is(after.error_message, error)
    &&& after.diagnostics.failure_kind == (match before.diagnostics.failure_kind {
        Some(k) => Some(k),
        None => Some(crate::download_plan::task_failure_kind_spec(error_bytes)),
    })
    &&& after.diagnostics.restart_required == (before.downloaded > 0)
    &&& crate::model::opt_text(after.diagnostics.terminal_reason) == (match before.diagnostics.terminal_reason {
        Some(t) => Some(t@),
        None => Some(TASK_TERMINATED_REASON@),
    })
    &&& after == (DownloadRecord {
        error_message: after.error_message,
        diagnostics: crate::download::DownloadDiagnostics {
            failure_kind: after.diagnostics.failure_kind,
            restart_required: after.diagnostics.restart_required,
            terminal_reason: after.diagnostics.terminal_reason,
            ..before.diagnostics
        },
        ..q
    })
}

pub open spec fn opt_text_is(v: Option<String>, t: Seq<char>) -> bool {
    v matches Some(s) && s@ == t
}

/// Records that the transfer task of download `id` failed with `error`, unless it is
/// finished, paused or stopped; returns its position when recorded.
pub fn record_runtime_task_failure(registry: &mut RegistrySnapshot, id: &str, error: &str) -> (r: Option<usize>)
    ensures
        match id_pos(old(registry).downloads@, id@) {
            Some(i) => {
                let st = old(registry).downloads@[i].status;
                if st == DownloadStatus::Finished || st == DownloadStatus::Paused || st == DownloadStatus::Stopped {
                    r is None && *final(registry) == *old(registry)
                } else {
                    r == Some(i as usize) && only_download_changed(*old(registry), *final(registry), i)
                        && task_failed_spec(old(registry).downloads@[i], final(registry).downloads@[i], error@, error.spec_bytes())
                }
            },
            None => r is None && *final(registry) == *old(registry),
        },
{
    proof { lemma_id_pos(registry.downloads@, id@); }
    let i = match find_download(&registry.downloads, id) {
        Some(i) => i,
        None => { return None; },
    };
    let st = registry.downloads[i].status;
    if st == DownloadStatus::Finished || st == DownloadStatus::Paused || st == DownloadStatus::Stopped {
        return None;
    }
    registry.downloads[i].status = DownloadStatus::Error;
    crate::download_ops::reset_download_transient_state(&mut registry.downloads[i]);
    registry.downloads[i].error_message = Some(error.to_owned());
    if registry.downloads[i].diagnostics.failure_kind.is_none() {
        registry.downloads[i].diagnostics.failure_kind = Some(crate::download_plan::classify_runtime_task_failure_kind(error));
    }
    registry.downloads[i].diagnostics.restart_required = registry.downloads[i].downloaded > 0;
    if registry.downloads[i].diagnostics.terminal_reason.is_none() {
        registry.downloads[i].diagnostics.terminal_reason = Some(TASK_TERMINATED_REASON.to_owned());
    }
    assert(registry.downloads@ =~= old(registry).downloads@.update(i as int, registry.downloads@[i as int]));
    Some(i)
}

/// Where a download moves in the queue.
#[derive(Clone, Copy, Debug, PartialEq, Eq, Structural)]
pub enum ReorderDirection {
    Up,
    Down,
    Top,
    Bottom,
}

/// Whether position `a` comes before position `b` in queue order: by queue position, then
/// by place in the registry.
pub open spec fn queued_before(ds: Seq<DownloadRecord>, a: int, b: int) -> bool {
    ds[a].queue_position < ds[b].queue_position || (ds[a].queue_position == ds[b].queue_position && a < b)
}

/// `ord` lists the positions of `ds` in queue order, each once.
pub open spec fn queue_order(ds: Seq<DownloadRecord>, ord: Seq<int>) -> bool {
    &&& ord.len() == ds.len()
    &&& forall|k: int| 0 <= k < ord.len() ==> 0 <= #[trigger] ord[k] < ds.len()
    &&& forall|a: int, b: int| 0 <= a < b < ord.len() ==> queued_before(ds, #[trigger] ord[a], #[trigger] ord[b])
}

/// The place a download at `position` of `len` moves to.
pub open spec fn reorder_target(direction: ReorderDirection, position: int, len: int) -> int {
    match direction {
        ReorderDirection::Up => if position > 0 { position - 1 } else { position },
        ReorderDirection::Down => if position + 1 < len { position + 1 } else { position },
        ReorderDirection::Top => if position > 0 { 0 } else { position },
        ReorderDirection::Bottom => if position + 1 < len { len - 1 } else { position },
    }
}

/// `ds2` is `ds` with the download at `ord[k]` numbered `k + 1` (capped at `u32::MAX`).
pub open spec fn numbered_by(ds: Seq<DownloadRecord>, ord: Seq<int>, ds2: Seq<DownloadRecord>) -> bool {
    &&& ds2.len() == ds.len()
    &&& forall|k: int| 0 <= k < ord.len() ==> #[trigger] ds2[ord[k]] == (DownloadRecord {
        queue_position: (if k + 1 <= u32::MAX { k + 1 } else { u32::MAX as int }) as u32,
        ..ds[ord[k]]
    })
}

/// Moving download `i` in direction `direction`: in queue order it moves up or down one
/// place, or to the top or the bottom; when it moves, the queue is numbered in the new order
/// and renumbered.
pub open spec fn reordered_spec(ds: Seq<DownloadRecord>, after: Seq<DownloadRecord>, i: int, direction: ReorderDirection) -> bool {
    exists|ord: Seq<int>, p: int| #![trigger queue_order(ds, ord), ord[p]] {
        &&& queue_order(ds, ord)
        &&& 0 <= p < ord.len() && ord[p] == i
        &&& (if reorder_target(direction, p, ds.len() as int) == p {
            after == ds
        } else {
            exists|ds2: Seq<DownloadRecord>| #[trigger] numbered_by(ds, ord.remove(p).insert(reorder_target(direction, p, ds.len() as int), i), ds2)
                && renumbered(ds2, after)
        })
    }
}

proof fn lemma_order_injective(ds: Seq<DownloadRecord>, ord: Seq<int>)
    requires
        queue_order(ds, ord),
    ensures
        ord.no_duplicates(),
{
    assert forall|a: int, b: int| 0 <= a < ord.len() && 0 <= b < ord.len() && a != b implies ord[a] != ord[b] by {
        if a < b {
            assert(queued_before(ds, ord[a], ord[b]));
        } else {
            assert(queued_before(ds, ord[b], ord[a]));
        }
    }
}

/// Whether `x` occurs in `s`.
pub open spec fn listed(s: Seq<usize>, x: int) -> bool {
    exists|k: int| 0 <= k < s.len() && #[trigger] s[k] == x
}

fn queue_order_of(ds: &Vec<DownloadRecord>) -> (ord: Vec<usize>)
    ensures
        queue_order(ds@, crate::runtime_dispatch::positions(ord@)),
        forall|x: int| 0 <= x < ds@.len() ==> #[trigger] listed(ord@, x),
{
    let ghost dsv = ds@;
    let mut out: Vec<usize> = Vec::new();
    let mut j: usize = 0;
    while j < ds.len()
        invariant
            j <= ds@.len(),
            dsv == ds@,
            out@.len() == j,
            forall|k: int| 0 <= k < out@.len() ==> #[trigger] out@[k] < j,
            forall|a: int, b: int| 0 <= a < b < out@.len() ==> queued_before(dsv, #[trigger] out@[a] as int, #[trigger] out@[b] as int),
            forall|x: int| 0 <= x < j ==> #[trigger] listed(out@, x),
        decreases ds@.len() - j,
    {
        let pos = ds[j].queue_position;
        let mut q: usize = 0;
        while q < out.len() && ds[out[q]].queue_position <= pos
            invariant
                q <= out@.len(),
                j < ds@.len(),
                dsv == ds@,
                forall|k: int| 0 <= k < out@.len() ==> #[trigger] out@[k] < j,
                forall|k: int| 0 <= k < q ==> dsv[#[trigger] out@[k] as int].queue_position <= pos,
            decreases out@.len() - q,
        {
            q = q + 1;
        }
        let ghost before = out@;
        proof {
            assert forall|k: int| q <= k < before.len() implies dsv[#[trigger] before[k] as int].queue_position > pos by {
                if q < before.len() {
                    assert(dsv[before[q as int] as int].queue_position > pos);
                    if k > q {
                        assert(queued_before(dsv, before[q as int] as int, before[k] as int));
                    }
                }
            }
        }
        out.insert(q, j);
        proof {
            assert(out@ == before.insert(q as int, j));
            assert forall|a: int, b: int| 0 <= a < b < out@.len() implies queued_before(dsv, #[trigger] out@[a] as int, #[trigger] out@[b] as int) by {
                if b < q {
                    assert(out@[a] == before[a] && out@[b] == before[b]);
                } else if a > q {
                    assert(out@[a] == before[a - 1] && out@[b] == before[b - 1]);
                } else if a == q {
                    assert(out@[b] == before[b - 1]);
                } else if b == q {
                    assert(out@[a] == before[a]);
                } else {
                    assert(out@[a] == before[a] && out@[b] == before[b - 1]);
                    assert(dsv[before[a] as int].queue_position <= pos);
                    assert(dsv[before[b - 1] as int].queue_position > pos);
                }
            }
            assert forall|x: int| 0 <= x < j + 1 implies #[trigger] listed(out@, x) by {
                if x == j {
                    assert(out@[q as int] == j);
                } else {
                    assert(listed(before, x));
                    let k = choose|k: int| 0 <= k < before.len() && #[trigger] before[k] == x;
                    if k < q { assert(out@[k] == x); } else { assert(out@[k + 1] == x); }
                }
            }
            assert forall|k: int| 0 <= k < out@.len() implies #[trigger] out@[k] < j + 1 by {
                if k < q { assert(out@[k] == before[k]); } else if k > q { assert(out@[k] == before[k - 1]); }
            }
        }
        j = j + 1;
    }
    proof {
        let o = crate::runtime_dispatch::positions(out@);
        assert forall|a: int, b: int| 0 <= a < b < o.len() implies queued_before(dsv, #[trigger] o[a], #[trigger] o[b]) by {
            assert(o[a] == out@[a] as int && o[b] == out@[b] as int);
        }
        assert forall|k: int| 0 <= k < o.len() implies 0 <= #[trigger] o[k] < dsv.len() by {
            assert(o[k] == out@[k] as int);
        }
    }
    out
}

fn index_in(ord: &Vec<usize>, target: usize) -> (r: usize)
    requires
        exists|k: int| 0 <= k < ord@.len() && #[trigger] ord@[k] == target,
    ensures
        r < ord@.len() && ord@[r as int] == target,
{
    let mut p: usize = 0;
    while p < ord.len()
        invariant
            p <= ord@.len(),
            forall|k: int| 0 <= k < p ==> #[trigger] ord@[k] != target,
            exists|k: int| 0 <= k < ord@.len() && #[trigger] ord@[k] == target,
        decreases ord@.len() - p,
    {
        if ord[p] == target {
            return p;
        }
        p = p + 1;
    }
    proof {
        let k = choose|k: int| 0 <= k < ord@.len() && #[trigger] ord@[k] == target;
        assert(ord@[k] != target);
    }
    0
}

/// The number a download gets at place `k` of the queue order: `k + 1`, capped at `u32::MAX`.
fn place_number(k: usize) -> (n: u32)
    ensures
        n == (if k + 1 <= u32::MAX { k + 1 } else { u32::MAX as int }),
{
    if k < 4294967295usize { (k + 1) as u32 } else { u32::MAX }
}

fn number_in_order(downloads: &mut Vec<DownloadRecord>, ord: &Vec<usize>)
    requires
        crate::runtime_dispatch::positions(ord@).no_duplicates(),
        forall|q: int| 0 <= q < ord@.len() ==> #[trigger] ord@[q] < old(downloads)@.len(),
    ensures
        numbered_by(old(downloads)@, crate::runtime_dispatch::positions(ord@), final(downloads)@),
{
    let ghost ds0 = downloads@;
    let ghost o = crate::runtime_dispatch::positions(ord@);
    let mut k: usize = 0;
    while k < ord.len()
        invariant
            k <= ord@.len(),
            downloads@.len() == ds0.len(),
            o == crate::runtime_dispatch::positions(ord@),
            o.no_duplicates(),
            forall|q: int| 0 <= q < ord@.len() ==> #[trigger] ord@[q] < ds0.len(),
            forall|q: int| 0 <= q < k ==> #[trigger] downloads@[o[q]] == (DownloadRecord {
                queue_position: (if q + 1 <= u32::MAX { q + 1 } else { u32::MAX as int }) as u32,
                ..ds0[o[q]]
            }),
            forall|q: int| k <= q < o.len() ==> #[trigger] downloads@[o[q]] == ds0[o[q]],
        decreases ord@.len() - k,
    {
        let at = ord[k];
        let number = place_number(k);
        let ghost before = downloads@;
        downloads[at].queue_position = number;
        proof {
            assert(o[k as int] == at as int);
            assert(downloads@ =~= before.update(at as int, DownloadRecord { queue_position: number, ..before[at as int] }));
            assert forall|q: int| 0 <= q < o.len() && q != k implies o[q] != at as int by {
                assert(o[q] != o[k as int]);
            }
        }
        k = k + 1;
    }
}

/// Moves download `id` in the queue; returns its former position in the registry.
#[verifier::rlimit(60)]
#[verifier::spinoff_prover]
pub fn reorder_download(registry: &mut RegistrySnapshot, id: &str, direction: ReorderDirection) -> (r: Result<usize, String>)
    ensures
        match id_pos(old(registry).downloads@, id@) {
            None => r matches Err(m) && m@ == not_found_message(id@) && *final(registry) == *old(registry),
            Some(i) => r == Ok::<usize, String>(i as usize)
                && reordered_spec(old(registry).downloads@, final(registry).downloads@, i, direction)
                && *final(registry) == (RegistrySnapshot { downloads: final(registry).downloads, ..*old(registry) }),
        },
{
    proof { lemma_id_pos(registry.downloads@, id@); }
    let i = match find_download(&registry.downloads, id) {
        Some(i) => i,
        None => { return Err(download_not_found(id)); },
    };
    let ghost ds0 = registry.downloads@;
    let mut ord = queue_order_of(&registry.downloads);
    let ghost o0 = crate::runtime_dispatch::positions(ord@);
    assert(listed(ord@, i as int));
    let p = index_in(&ord, i);
    let n = ord.len();
    let tp: usize = match direction {
        ReorderDirection::Up => if p > 0 { p - 1 } else { p },
        ReorderDirection::Down => if p + 1 < n { p + 1 } else { p },
        ReorderDirection::Top => if p > 0 { 0 } else { p },
        ReorderDirection::Bottom => if p + 1 < n { n - 1 } else { p },
    };
    assert(o0[p as int] == i as int);
    if tp == p {
        assert(reordered_spec(ds0, registry.downloads@, i as int, direction));
        return Ok(i);
    }
    let moved = ord.remove(p);
    ord.insert(tp, moved);
    let ghost o2 = crate::runtime_dispatch::positions(ord@);
    proof {
        assert(o2 =~= o0.remove(p as int).insert(tp as int, i as int));
        lemma_order_injective(ds0, o0);
        assert forall|a: int, b: int| 0 <= a < o2.len() && 0 <= b < o2.len() && a != b implies o2[a] != o2[b] by {
            assert(o0.remove(p as int).no_duplicates());
        }
        assert forall|q: int| 0 <= q < ord@.len() implies #[trigger] ord@[q] < ds0.len() by {
            assert(o2[q] == ord@[q] as int);
        }
    }
    number_in_order(&mut registry.downloads, &ord);
    let ghost ds2 = registry.downloads@;
    crate::download_ops::normalize_queue_positions(&mut registry.downloads);
    proof {
        assert(numbered_by(ds0, o2, ds2));
        assert(renumbered(ds2, registry.downloads@));
        assert(queue_order(ds0, o0));
        assert(reordered_spec(ds0, registry.downloads@, i as int, direction));
    }
    Ok(i)
}

} // verus!
