//! What the user interface reads of the engine: the app state, compact download rows, the
//! startup snapshot and the details of one download.

use vstd::prelude::*;
use crate::app_update::AppUpdateStartupHealth;
use crate::download::{DownloadLogEntry, DownloadRecord, DownloadRuntimeCheckpoint, DownloadStatus};
use crate::model::EngineSettings;

verus! {

pub const SNAPSHOT_FILE_NAME: &'static str = "engine-registry.snapshot.db";

/// Whether the queue runs.
#[derive(Clone, Copy, Debug, PartialEq, Eq, Structural)]
pub struct QueueState {
    pub running: bool,
}

/// Whether the engine finished starting, and why it failed if it did.
#[derive(Clone, Debug)]
pub struct EngineBootstrapState {
    pub ready: bool,
    pub error: Option<String>,
}

/// Every download in full, with the settings and the queue state.
#[derive(Clone, Debug)]
pub struct AppStateSnapshot {
    pub downloads: Vec<DownloadRecord>,
    pub settings: EngineSettings,
    pub queue_state: QueueState,
}

/// Every download as a compact row, with the settings and the queue state.
#[derive(Clone, Debug)]
pub struct AppStateRowSnapshot {
    pub downloads: Vec<DownloadRecord>,
    pub settings: EngineSettings,
    pub queue_state: QueueState,
}

/// What the window shows first: the bootstrap state, the settings, the queue, the update
/// health, and the unfinished downloads as compact rows.
#[derive(Clone, Debug)]
pub struct StartupSnapshot {
    pub bootstrap: EngineBootstrapState,
    pub settings: EngineSettings,
    pub queue_state: QueueState,
    pub update_health: Option<AppUpdateStartupHealth>,
    pub active_downloads: Vec<DownloadRecord>,
}

/// The log and runtime checkpoint of one download.
#[derive(Clone, Debug)]
pub struct DownloadDetailSnapshot {
    pub id: String,
    pub engine_log: Vec<DownloadLogEntry>,
    pub runtime_checkpoint: DownloadRuntimeCheckpoint,
}

/// A download as a row: without its log and runtime checkpoint.
pub open spec fn compact_row(d: DownloadRecord, row: DownloadRecord) -> bool {
    &&& row.engine_log@.len() == 0
    &&& row.runtime_checkpoint.segment_samples@.len() == 0
    &&& row.runtime_checkpoint.active_races@.len() == 0
    &&& row == (DownloadRecord { engine_log: row.engine_log, runtime_checkpoint: row.runtime_checkpoint, ..d })
}

pub fn compact_download_for_row(download: DownloadRecord) -> (r: DownloadRecord)
    ensures
        compact_row(download, r),
{
    let mut row = download;
    row.engine_log = Vec::new();
    row.runtime_checkpoint = DownloadRuntimeCheckpoint::default();
    row
}

/// The app state over `downloads`.
pub fn app_state(downloads: Vec<DownloadRecord>, settings: EngineSettings, queue_running: bool) -> (r: AppStateSnapshot)
    ensures
        r.downloads@ == downloads@,
        r.settings == settings,
        r.queue_state.running == queue_running,
{
    AppStateSnapshot { downloads, settings, queue_state: QueueState { running: queue_running } }
}

/// The app state with every download as a compact row, in order.
pub fn app_state_rows(downloads: Vec<DownloadRecord>, settings: EngineSettings, queue_running: bool) -> (r: AppStateRowSnapshot)
    ensures
        r.downloads@.len() == downloads@.len(),
        forall|i: int| 0 <= i < downloads@.len() ==> compact_row(downloads@[i], #[trigger] r.downloads@[i]),
        r.settings == settings,
        r.queue_state.running == queue_running,
{
    let ghost ds0 = downloads@;
    let mut rest = downloads;
    let mut rows: Vec<DownloadRecord> = Vec::new();
    let mut k: usize = 0;
    while rest.len() > 0
        invariant
            rows@.len() + rest@.len() == ds0.len(),
            rest@ == ds0.skip(rows@.len() as int),
            forall|i: int| 0 <= i < rows@.len() ==> compact_row(ds0[i], #[trigger] rows@[i]),
        decreases rest@.len(),
    {
        let ghost before = rest@;
        let d = rest.remove(0);
        assert(d == ds0[rows@.len() as int]) by { assert(before[0] == ds0.skip(rows@.len() as int)[0]); }
        rows.push(compact_download_for_row(d));
        assert(rest@ =~= ds0.skip(rows@.len() as int));
    }
    AppStateRowSnapshot { downloads: rows, settings, queue_state: QueueState { running: queue_running } }
}

/// The unfinished downloads among `ds`, in order.
pub open spec fn unfinished(ds: Seq<DownloadRecord>) -> Seq<DownloadRecord>
    decreases ds.len(),
{
    if ds.len() == 0 {
        ds
    } else if ds.last().status == DownloadStatus::Finished {
        unfinished(ds.drop_last())
    } else {
        unfinished(ds.drop_last()).push(ds.last())
    }
}

/// The startup snapshot: the unfinished downloads as compact rows, in order.
pub fn startup_snapshot(
    bootstrap: EngineBootstrapState,
    settings: EngineSettings,
    queue_running: bool,
    update_health: Option<AppUpdateStartupHealth>,
    downloads: Vec<DownloadRecord>,
) -> (r: StartupSnapshot)
    ensures
        r.active_downloads@.len() == unfinished(downloads@).len(),
        forall|i: int| 0 <= i < unfinished(downloads@).len() ==> compact_row(unfinished(downloads@)[i], #[trigger] r.active_downloads@[i]),
        r.bootstrap == bootstrap,
        r.settings == settings,
        r.queue_state.running == queue_running,
        r.update_health == update_health,
{
    let ghost ds0 = downloads@;
    let mut rest = downloads;
    let mut rows: Vec<DownloadRecord> = Vec::new();
    let ghost mut taken: int = 0;
    assert(ds0.take(0) =~= Seq::<DownloadRecord>::empty());
    while rest.len() > 0
        invariant
            0 <= taken <= ds0.len(),
            rest@ == ds0.skip(taken),
            rows@.len() == unfinished(ds0.take(taken)).len(),
            forall|i: int| 0 <= i < rows@.len() ==> compact_row(unfinished(ds0.take(taken))[i], #[trigger] rows@[i]),
        decreases rest@.len(),
    {
        let ghost before = rest@;
        let d = rest.remove(0);
        proof {
            assert(d == ds0[taken]) by { assert(before[0] == ds0.skip(taken)[0]); }
            assert(ds0.take(taken + 1).drop_last() =~= ds0.take(taken));
            assert(ds0.take(taken + 1).last() == ds0[taken]);
        }
        let ghost u0 = unfinished(ds0.take(taken));
        if d.status != DownloadStatus::Finished {
            rows.push(compact_download_for_row(d));
            proof {
                let u1 = unfinished(ds0.take(taken + 1));
                assert(u1 == u0.push(ds0[taken]));
                assert forall|i: int| 0 <= i < rows@.len() implies compact_row(u1[i], #[trigger] rows@[i]) by {
                    if i < u0.len() { assert(u1[i] == u0[i]); }
                }
            }
        }
        proof {
            taken = taken + 1;
            assert(rest@ =~= ds0.skip(taken));
        }
    }
    proof { assert(ds0.take(taken) =~= ds0); }
    StartupSnapshot { bootstrap, settings, queue_state: QueueState { running: queue_running }, update_health, active_downloads: rows }
}

/// The details of a download: its id, log and runtime checkpoint.
pub fn download_detail(download: DownloadRecord) -> (r: DownloadDetailSnapshot)
    ensures
        r.id == download.id,
        r.engine_log == download.engine_log,
        r.runtime_checkpoint == download.runtime_checkpoint,
{
    DownloadDetailSnapshot { id: download.id, engine_log: download.engine_log, runtime_checkpoint: download.runtime_checkpoint }
}

/// Where the registry snapshot lives under the app's data directory: the snapshot file
/// name pushed onto it. For a directory without a verbatim prefix the path starts with the
/// directory and ends with the file name; the separator is the platform's.
pub fn snapshot_path(base_dir: &str) -> (r: String)
    ensures
        crate::download_identity::plain_base(base_dir@)
            ==> crate::download_identity::joined_under(r@, base_dir@, SNAPSHOT_FILE_NAME@),
{
    proof { reveal_strlit("engine-registry.snapshot.db"); }
    crate::download_identity::join_target_path(base_dir, SNAPSHOT_FILE_NAME)
}

} // verus!
