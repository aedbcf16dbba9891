use velocity_engine::model::{AppUpdateChannel, EngineSettings, TrafficMode};
use velocity_engine::persist_queue::{
    clone_persist_result, DeferredAdmission, PersistBatch, PersistFlushAck, PersistPriority, PersistQueueState, PersistRequest,
    MAX_DEFERRED_QUEUE_DEPTH,
};
use velocity_engine::registry::RegistrySnapshot;

fn snapshot(next_id: u64) -> RegistrySnapshot {
    RegistrySnapshot {
        downloads: Vec::new(),
        settings: EngineSettings {
            experimental_uncapped_mode: false,
            traffic_mode: TrafficMode::High,
            target_chunk_time_seconds: 2,
            min_segment_size_bytes: 1_048_576,
            max_active_downloads: 3,
            speed_limit_bytes_per_second: None,
            skipped_update_version: None,
            update_channel: AppUpdateChannel::Stable,
            late_segment_ratio_percent: 20,
            segment_checkpoint_min_interval_ms: 1_000,
            segment_checkpoint_max_interval_ms: 5_000,
        },
        queue_running: true,
        next_id,
        host_profiles: Vec::new(),
        recent_probes: Vec::new(),
    }
}

#[test]
fn deferred_snapshots_get_increasing_generations() {
    let mut q = PersistQueueState::new();
    for expected in 1..=3u64 {
        match q.admit_deferred(snapshot(expected)) {
            DeferredAdmission::Queued(p) => {
                assert_eq!(p.generation, expected);
                assert_eq!(p.priority, PersistPriority::Deferred);
                assert!(!p.awaits_ack);
            }
            other => panic!("unexpected {other:?}"),
        }
    }
    assert_eq!(q.queued_deferred, 3);
    assert_eq!(q.max_deferred_depth, 3);
    assert_eq!(q.last_enqueued_generation, 3);
    let t = q.telemetry_snapshot();
    assert!(t.pressure_active);
    assert_eq!(t.queued_deferred, 3);
}

#[test]
fn a_saturated_queue_spills_into_one_overflow_slot() {
    let mut q = PersistQueueState::new();
    for i in 0..MAX_DEFERRED_QUEUE_DEPTH as u64 {
        assert!(matches!(q.admit_deferred(snapshot(i)), DeferredAdmission::Queued(_)));
    }
    match q.admit_deferred(snapshot(100)) {
        DeferredAdmission::Spilled { generation, replaced_existing, drain_needed } => {
            assert_eq!(generation, 33);
            assert!(!replaced_existing);
            assert!(drain_needed);
        }
        other => panic!("unexpected {other:?}"),
    }
    match q.admit_deferred(snapshot(101)) {
        DeferredAdmission::Spilled { generation, replaced_existing, drain_needed } => {
            assert_eq!(generation, 34);
            assert!(replaced_existing);
            assert!(!drain_needed);
        }
        other => panic!("unexpected {other:?}"),
    }
    assert_eq!(q.queued_deferred, 32);
    assert_eq!(q.max_deferred_depth, 33);
    let t = q.telemetry_snapshot();
    assert_eq!(t.backpressure_events, 2);
    assert_eq!(t.overflow_replacements, 1);
    assert!(t.overflow_pending);
    let drained = q.accept_request(PersistRequest::DrainOverflow).unwrap();
    assert_eq!(drained.generation, 34);
    assert_eq!(drained.snapshot.next_id, 101);
    assert!(q.accept_request(PersistRequest::DrainOverflow).is_none());
}

#[test]
fn the_writer_releases_deferred_slots_it_receives() {
    let mut q = PersistQueueState::new();
    let p = match q.admit_deferred(snapshot(1)) {
        DeferredAdmission::Queued(p) => p,
        other => panic!("unexpected {other:?}"),
    };
    let got = q.accept_request(PersistRequest::Snapshot(p)).unwrap();
    assert_eq!(got.generation, 1);
    assert_eq!(q.queued_deferred, 0);
    assert!(!q.telemetry_snapshot().pressure_active);
}

#[test]
fn a_flush_needs_an_acknowledgement_at_least_as_new() {
    let mut q = PersistQueueState::new();
    let p = q.begin_flush(snapshot(1));
    assert_eq!(p.generation, 1);
    assert!(p.awaits_ack);
    assert_eq!(p.priority, PersistPriority::Flush);
    let q2 = q.begin_flush(snapshot(2));
    assert_eq!(
        q.finish_flush(q2.generation, Ok(PersistFlushAck { persisted_generation: 1 })),
        Err("Snapshot flush acknowledged generation 1 before requested generation 2.".to_string())
    );
    assert_eq!(q.flush_ack_count, 0);
    assert_eq!(q.finish_flush(2, Err("disk full".to_string())), Err("disk full".to_string()));
    assert_eq!(q.finish_flush(2, Ok(PersistFlushAck { persisted_generation: 5 })), Ok(()));
    assert_eq!(q.flush_ack_count, 1);
    assert_eq!(q.last_flush_ack_generation, 5);
}

#[test]
fn persist_results_move_the_persisted_generation_only_on_success() {
    let mut q = PersistQueueState::new();
    q.note_persist_result(4, &Ok(()));
    assert_eq!(q.last_persisted_generation, 4);
    q.note_persist_result(6, &Err("locked".to_string()));
    assert_eq!(q.last_persisted_generation, 4);
    assert_eq!(q.telemetry_snapshot().last_persist_error.as_deref(), Some("locked"));
    q.note_persist_result(7, &Ok(()));
    assert_eq!(q.last_persist_error, None);
    assert_eq!(clone_persist_result(7, &Ok(())), Ok(PersistFlushAck { persisted_generation: 7 }));
    assert_eq!(clone_persist_result(7, &Err("x".to_string())), Err("x".to_string()));
}

#[test]
fn a_batch_keeps_the_latest_snapshot() {
    let mut q = PersistQueueState::new();
    let first = match q.admit_deferred(snapshot(1)) {
        DeferredAdmission::Queued(p) => p,
        other => panic!("unexpected {other:?}"),
    };
    let mut batch = PersistBatch::start(first);
    assert_eq!(batch.acknowledgements, 0);
    let flush = q.begin_flush(snapshot(2));
    assert!(batch.absorb(flush));
    assert_eq!(batch.latest.generation, 2);
    assert_eq!(batch.acknowledgements, 1);
}
