//! The bookkeeping of the snapshot persist queue: the generation of each snapshot handed to
//! the writer, the depth of the deferred writes waiting for it, the single overflow slot that
//! keeps the latest snapshot while the queue is saturated, the flush acknowledgements, and the
//! pressure telemetry read from all of them. Sending to the writer and writing the snapshot
//! are left to the caller, which hands the outcome back.

use vstd::prelude::*;
use crate::registry::RegistrySnapshot;
use crate::text::{decimal_spec, push_decimal};

verus! {

/// How many deferred writes may wait for the writer before snapshots spill into the overflow slot.
pub const MAX_DEFERRED_QUEUE_DEPTH: usize = 32;

/// Whether a persist request may be coalesced with later ones or must be acknowledged.
#[derive(Clone, Copy, Debug, PartialEq, Eq, Structural)]
pub enum PersistPriority {
    Deferred,
    Flush,
}

/// A snapshot on its way to the writer.
#[derive(Debug)]
pub struct PendingPersist {
    pub snapshot: RegistrySnapshot,
    pub generation: u64,
    pub priority: PersistPriority,
    /// Whether the sender waits for an acknowledgement of this write.
    pub awaits_ack: bool,
}

/// What the writer receives.
#[derive(Debug)]
pub enum PersistRequest {
    Snapshot(PendingPersist),
    DrainOverflow,
}

/// The acknowledgement of a flush: the generation the writer last persisted.
#[derive(Clone, Copy, Debug, PartialEq, Eq, Structural)]
pub struct PersistFlushAck {
    pub persisted_generation: u64,
}

/// The snapshot kept aside while the deferred queue is saturated.
#[derive(Debug)]
pub struct OverflowPersist {
    pub snapshot: RegistrySnapshot,
    pub generation: u64,
}

/// The pressure on the persist queue, as reported to the front end.
#[derive(Clone, Debug, PartialEq, Eq)]
pub struct QueuePersistPressure {
    pub pressure_active: bool,
    pub queued_deferred: u32,
    pub max_deferred_depth: u32,
    pub backpressure_events: u64,
    pub overflow_replacements: u64,
    pub overflow_pending: bool,
    pub last_persist_error: Option<String>,
}

/// The counters of the persist queue.
#[derive(Debug)]
pub struct PersistQueueState {
    pub next_generation: u64,
    pub queued_deferred: usize,
    pub max_deferred_depth: usize,
    pub deferred_backpressure_events: u64,
    pub deferred_overflow_replacements: u64,
    pub last_enqueued_generation: u64,
    pub last_persisted_generation: u64,
    pub last_flush_ack_generation: u64,
    pub flush_ack_count: u64,
    pub overflow_snapshot: Option<OverflowPersist>,
    pub last_persist_error: Option<String>,
}

/// `x + 1`, wrapping to 0 past `u64::MAX`, as an atomic counter does.
pub open spec fn wrap_inc(x: u64) -> u64 {
    if x == u64::MAX { 0 } else { (x + 1) as u64 }
}

fn counter_inc(x: u64) -> (r: u64)
    ensures
        r == wrap_inc(x),
{
    if x == u64::MAX { 0 } else { x + 1 }
}

/// `v` capped at `u32::MAX`.
pub open spec fn capped_u32(v: int) -> u32 {
    if v <= u32::MAX { v as u32 } else { u32::MAX }
}

fn cap_u32(v: usize) -> (r: u32)
    ensures
        r == capped_u32(v as int),
{
    if v <= 4294967295usize { v as u32 } else { u32::MAX }
}

fn copy_text(v: &Option<String>) -> (r: Option<String>)
    ensures
        crate::model::opt_text(r) == crate::model::opt_text(*v),
{
    match v {
        Some(s) => Some(s.clone()),
        None => None,
    }
}

/// The error of a flush whose acknowledgement is older than the generation it waited for.
pub open spec fn flush_behind_message(persisted: u64, requested: u64) -> Seq<char> {
    "Snapshot flush acknowledged generation "@ + decimal_spec(persisted as nat) + " before requested generation "@
        + decimal_spec(requested as nat) + "."@
}

/// The acknowledgement a writer sends for a write of `generation` that ended in `result`.
pub fn clone_persist_result(generation: u64, result: &Result<(), String>) -> (r: Result<PersistFlushAck, String>)
    ensures
        match result {
            Ok(()) => r == Ok::<PersistFlushAck, String>(PersistFlushAck { persisted_generation: generation }),
            Err(e) => r matches Err(m) && m@ == e@,
        },
{
    match result {
        Ok(()) => Ok(PersistFlushAck { persisted_generation: generation }),
        Err(e) => Err(e.clone()),
    }
}

/// What became of a deferred snapshot.
#[derive(Debug)]
pub enum DeferredAdmission {
    /// The caller sends this request to the writer.
    Queued(PendingPersist),
    /// The queue was saturated and the snapshot went to the overflow slot; when the slot was
    /// empty, the caller asks the writer to drain it.
    Spilled { generation: u64, replaced_existing: bool, drain_needed: bool },
}

impl PersistQueueState {
    /// The deferred depth never falls below the deepest it has reached.
    pub open spec fn wf(&self) -> bool {
        self.queued_deferred <= self.max_deferred_depth
    }

    /// `self` with only the generation counters moved to `g`.
    pub open spec fn with_generation(self, g: u64) -> Self {
        PersistQueueState { next_generation: g, last_enqueued_generation: g, ..self }
    }

    /// A queue with nothing sent yet.
    pub fn new() -> (s: Self)
        ensures
            s.next_generation == 0 && s.queued_deferred == 0 && s.max_deferred_depth == 0,
            s.deferred_backpressure_events == 0 && s.deferred_overflow_replacements == 0,
            s.last_enqueued_generation == 0 && s.last_persisted_generation == 0,
            s.last_flush_ack_generation == 0 && s.flush_ack_count == 0,
            s.overflow_snapshot is None && s.last_persist_error is None,
            s.wf(),
    {
        PersistQueueState {
            next_generation: 0,
            queued_deferred: 0,
            max_deferred_depth: 0,
            deferred_backpressure_events: 0,
            deferred_overflow_replacements: 0,
            last_enqueued_generation: 0,
            last_persisted_generation: 0,
            last_flush_ack_generation: 0,
            flush_ack_count: 0,
            overflow_snapshot: None,
            last_persist_error: None,
        }
    }

    /// Hands out the next generation, one above the last, and records it as enqueued.
    pub fn next_generation(&mut self) -> (g: u64)
        requires
            old(self).next_generation < u64::MAX,
        ensures
            g == old(self).next_generation + 1,
            *final(self) == old(self).with_generation(g),
    {
        let g = self.next_generation + 1;
        self.next_generation = g;
        self.last_enqueued_generation = g;
        g
    }

    /// Counts one more deferred write waiting for the writer; returns the new depth.
    pub fn reserve_deferred_slot(&mut self) -> (depth: usize)
        requires
            old(self).queued_deferred < usize::MAX,
        ensures
            depth == old(self).queued_deferred + 1,
            *final(self) == (PersistQueueState {
                queued_deferred: depth,
                max_deferred_depth: if old(self).max_deferred_depth < depth { depth } else { old(self).max_deferred_depth },
                ..*old(self)
            }),
            final(self).wf(),
    {
        let depth = self.queued_deferred + 1;
        self.queued_deferred = depth;
        if self.max_deferred_depth < depth {
            self.max_deferred_depth = depth;
        }
        depth
    }

    /// Counts one deferred write fewer (wrapping below zero, as an atomic counter does).
    pub fn release_deferred_slot(&mut self)
        ensures
            *final(self) == (PersistQueueState {
                queued_deferred: if old(self).queued_deferred == 0 { usize::MAX } else { (old(self).queued_deferred - 1) as usize },
                ..*old(self)
            }),
            old(self).wf() && old(self).queued_deferred > 0 ==> final(self).wf(),
    {
        if self.queued_deferred == 0 {
            self.queued_deferred = usize::MAX;
        } else {
            self.queued_deferred = self.queued_deferred - 1;
        }
    }

    /// Counts a backpressure event, and an overflow replacement when the slot was taken.
    pub fn note_backpressure(&mut self, replaced_existing: bool)
        ensures
            *final(self) == (PersistQueueState {
                deferred_backpressure_events: wrap_inc(old(self).deferred_backpressure_events),
                deferred_overflow_replacements: if replaced_existing {
                    wrap_inc(old(self).deferred_overflow_replacements)
                } else {
                    old(self).deferred_overflow_replacements
                },
                ..*old(self)
            }),
    {
        self.deferred_backpressure_events = counter_inc(self.deferred_backpressure_events);
        if replaced_existing {
            self.deferred_overflow_replacements = counter_inc(self.deferred_overflow_replacements);
        }
    }

    /// Puts `snapshot` in the overflow slot, in place of any snapshot there; returns whether
    /// one was replaced, and counts the backpressure.
    pub fn stash_overflow_snapshot(&mut self, snapshot: RegistrySnapshot, generation: u64) -> (replaced_existing: bool)
        ensures
            replaced_existing == old(self).overflow_snapshot is Some,
            *final(self) == (PersistQueueState {
                overflow_snapshot: Some(OverflowPersist { snapshot, generation }),
                deferred_backpressure_events: wrap_inc(old(self).deferred_backpressure_events),
                deferred_overflow_replacements: if replaced_existing {
                    wrap_inc(old(self).deferred_overflow_replacements)
                } else {
                    old(self).deferred_overflow_replacements
                },
                ..*old(self)
            }),
    {
        let replaced_existing = self.overflow_snapshot.is_some();
        self.overflow_snapshot = Some(OverflowPersist { snapshot, generation });
        self.note_backpressure(replaced_existing);
        replaced_existing
    }

    /// Empties the overflow slot; what it held comes back as a deferred write.
    pub fn take_overflow_snapshot(&mut self) -> (r: Option<PendingPersist>)
        ensures
            *final(self) == (PersistQueueState { overflow_snapshot: None, ..*old(self) }),
            match old(self).overflow_snapshot {
                Some(o) => r == Some(PendingPersist {
                    snapshot: o.snapshot,
                    generation: o.generation,
                    priority: PersistPriority::Deferred,
                    awaits_ack: false,
                }),
                None => r is None,
            },
    {
        match self.overflow_snapshot.take() {
            Some(o) => Some(PendingPersist {
                snapshot: o.snapshot,
                generation: o.generation,
                priority: PersistPriority::Deferred,
                awaits_ack: false,
            }),
            None => None,
        }
    }

    /// Records how the write of `generation` ended: a success moves the persisted
    /// generation; the error, or its absence, becomes the last persist error.
    pub fn note_persist_result(&mut self, generation: u64, result: &Result<(), String>)
        ensures
            final(self).last_persisted_generation == (if result is Ok { generation } else { old(self).last_persisted_generation }),
            crate::model::opt_text(final(self).last_persist_error) == (match result {
                Ok(()) => None,
                Err(e) => Some(e@),
            }),
            *final(self) == (PersistQueueState {
                last_persisted_generation: final(self).last_persisted_generation,
                last_persist_error: final(self).last_persist_error,
                ..*old(self)
            }),
    {
        match result {
            Ok(()) => {
                self.last_persisted_generation = generation;
                self.last_persist_error = None;
            },
            Err(e) => {
                self.last_persist_error = Some(e.clone());
            },
        }
    }

    /// Counts a flush acknowledgement of `generation`.
    pub fn note_flush_ack(&mut self, generation: u64)
        ensures
            *final(self) == (PersistQueueState {
                flush_ack_count: wrap_inc(old(self).flush_ack_count),
                last_flush_ack_generation: generation,
                ..*old(self)
            }),
    {
        self.flush_ack_count = counter_inc(self.flush_ack_count);
        self.last_flush_ack_generation = generation;
    }

    /// Admits a deferred snapshot: it gets the next generation and waits for the writer,
    /// unless the queue already holds its limit of deferred writes; then the snapshot goes to
    /// the overflow slot instead, and the caller asks the writer to drain the slot when it was
    /// empty before.
    pub fn admit_deferred(&mut self, snapshot: RegistrySnapshot) -> (r: DeferredAdmission)
        requires
            old(self).next_generation < u64::MAX,
            old(self).queued_deferred < usize::MAX,
        ensures
            ({
                let g = (old(self).next_generation + 1) as u64;
                let depth = (old(self).queued_deferred + 1) as usize;
                let deepest = if old(self).max_deferred_depth < depth { depth } else { old(self).max_deferred_depth };
                if depth > MAX_DEFERRED_QUEUE_DEPTH {
                    let replaced = old(self).overflow_snapshot is Some;
                    &&& r == DeferredAdmission::Spilled { generation: g, replaced_existing: replaced, drain_needed: !replaced }
                    &&& *final(self) == (PersistQueueState {
                        max_deferred_depth: deepest,
                        overflow_snapshot: Some(OverflowPersist { snapshot, generation: g }),
                        deferred_backpressure_events: wrap_inc(old(self).deferred_backpressure_events),
                        deferred_overflow_replacements: if replaced {
                            wrap_inc(old(self).deferred_overflow_replacements)
                        } else {
                            old(self).deferred_overflow_replacements
                        },
                        ..old(self).with_generation(g)
                    })
                } else {
                    &&& r == DeferredAdmission::Queued(PendingPersist {
                        snapshot,
                        generation: g,
                        priority: PersistPriority::Deferred,
                        awaits_ack: false,
                    })
                    &&& *final(self) == (PersistQueueState {
                        queued_deferred: depth,
                        max_deferred_depth: deepest,
                        ..old(self).with_generation(g)
                    })
                }
            }),
            old(self).wf() ==> final(self).wf(),
    {
        let generation = self.next_generation();
        let depth = self.reserve_deferred_slot();
        if depth > MAX_DEFERRED_QUEUE_DEPTH {
            self.release_deferred_slot();
            let replaced_existing = self.stash_overflow_snapshot(snapshot, generation);
            return DeferredAdmission::Spilled { generation, replaced_existing, drain_needed: !replaced_existing };
        }
        DeferredAdmission::Queued(PendingPersist {
            snapshot,
            generation,
            priority: PersistPriority::Deferred,
            awaits_ack: false,
        })
    }

    /// Starts a flush: the snapshot gets the next generation and waits for an acknowledgement.
    pub fn begin_flush(&mut self, snapshot: RegistrySnapshot) -> (r: PendingPersist)
        requires
            old(self).next_generation < u64::MAX,
        ensures
            r == (PendingPersist {
                snapshot,
                generation: (old(self).next_generation + 1) as u64,
                priority: PersistPriority::Flush,
                awaits_ack: true,
            }),
            *final(self) == old(self).with_generation(r.generation),
    {
        let generation = self.next_generation();
        PendingPersist { snapshot, generation, priority: PersistPriority::Flush, awaits_ack: true }
    }

    /// Ends a flush of `generation` with the writer's answer: it succeeds only when the
    /// writer persisted that generation or a later one, and then counts the acknowledgement.
    pub fn finish_flush(&mut self, generation: u64, answer: Result<PersistFlushAck, String>) -> (r: Result<(), String>)
        ensures
            match answer {
                Err(e) => r matches Err(m) && m@ == e@ && *final(self) == *old(self),
                Ok(ack) => if ack.persisted_generation < generation {
                    r matches Err(m) && m@ == flush_behind_message(ack.persisted_generation, generation)
                        && *final(self) == *old(self)
                } else {
                    r is Ok && *final(self) == (PersistQueueState {
                        flush_ack_count: wrap_inc(old(self).flush_ack_count),
                        last_flush_ack_generation: ack.persisted_generation,
                        ..*old(self)
                    })
                },
            },
    {
        match answer {
            Err(e) => Err(e),
            Ok(ack) => {
                if ack.persisted_generation < generation {
                    let mut m = String::new();
                    let a = "Snapshot flush acknowledged generation ";
                    let b = " before requested generation ";
                    let c = ".";
                    m.append(a);
                    push_decimal(&mut m, ack.persisted_generation);
                    m.append(b);
                    push_decimal(&mut m, generation);
                    m.append(c);
                    assert(m@ =~= flush_behind_message(ack.persisted_generation, generation));
                    Err(m)
                } else {
                    self.note_flush_ack(ack.persisted_generation);
                    Ok(())
                }
            },
        }
    }

    /// What the writer does with a request it received: a snapshot is written (a deferred
    /// one leaves the deferred count); a drain request takes the overflow snapshot, and when
    /// the slot is empty there is nothing to write and the writer waits for the next request.
    pub fn accept_request(&mut self, request: PersistRequest) -> (r: Option<PendingPersist>)
        ensures
            match request {
                PersistRequest::Snapshot(p) => {
                    &&& r == Some(p)
                    &&& *final(self) == (PersistQueueState {
                        queued_deferred: if p.priority == PersistPriority::Deferred {
                            if old(self).queued_deferred == 0 { usize::MAX } else { (old(self).queued_deferred - 1) as usize }
                        } else {
                            old(self).queued_deferred
                        },
                        ..*old(self)
                    })
                },
                PersistRequest::DrainOverflow => {
                    &&& *final(self) == (PersistQueueState { overflow_snapshot: None, ..*old(self) })
                    &&& match old(self).overflow_snapshot {
                        Some(o) => r == Some(PendingPersist {
                            snapshot: o.snapshot,
                            generation: o.generation,
                            priority: PersistPriority::Deferred,
                            awaits_ack: false,
                        }),
                        None => r is None,
                    }
                },
            },
    {
        match request {
            PersistRequest::Snapshot(pending) => {
                if pending.priority == PersistPriority::Deferred {
                    self.release_deferred_slot();
                }
                Some(pending)
            },
            PersistRequest::DrainOverflow => self.take_overflow_snapshot(),
        }
    }

    /// The pressure telemetry: the deferred depths (capped at `u32::MAX`), the counters, and
    /// whether anything waits, in the queue or in the overflow slot.
    pub fn telemetry_snapshot(&self) -> (t: QueuePersistPressure)
        ensures
            t.pressure_active == (self.queued_deferred > 0 || self.overflow_snapshot is Some),
            t.queued_deferred == capped_u32(self.queued_deferred as int),
            t.max_deferred_depth == capped_u32(self.max_deferred_depth as int),
            t.backpressure_events == self.deferred_backpressure_events,
            t.overflow_replacements == self.deferred_overflow_replacements,
            t.overflow_pending == self.overflow_snapshot is Some,
            crate::model::opt_text(t.last_persist_error) == crate::model::opt_text(self.last_persist_error),
    {
        let overflow_pending = self.overflow_snapshot.is_some();
        QueuePersistPressure {
            pressure_active: self.queued_deferred > 0 || overflow_pending,
            queued_deferred: cap_u32(self.queued_deferred),
            max_deferred_depth: cap_u32(self.max_deferred_depth),
            backpressure_events: self.deferred_backpressure_events,
            overflow_replacements: self.deferred_overflow_replacements,
            overflow_pending,
            last_persist_error: copy_text(&self.last_persist_error),
        }
    }
}

/// The writes a writer gathered before persisting: the latest snapshot wins, and the
/// acknowledgements owed are counted.
#[derive(Debug)]
pub struct PersistBatch {
    pub latest: PendingPersist,
    pub acknowledgements: usize,
}

impl PersistBatch {
    /// A batch that starts with `first`.
    pub fn start(first: PendingPersist) -> (b: PersistBatch)
        ensures
            b.latest == first,
            b.acknowledgements == (if first.awaits_ack { 1usize } else { 0usize }),
    {
        let acknowledgements: usize = if first.awaits_ack { 1 } else { 0 };
        PersistBatch { latest: first, acknowledgements }
    }

    /// Takes in a later write: it replaces the latest snapshot; returns whether it awaits an
    /// acknowledgement, which ends the waiting for more writes.
    pub fn absorb(&mut self, next: PendingPersist) -> (owes_ack: bool)
        requires
            old(self).acknowledgements < usize::MAX,
        ensures
            owes_ack == next.awaits_ack,
            final(self).latest == next,
            final(self).acknowledgements == old(self).acknowledgements + (if next.awaits_ack { 1int } else { 0int }),
    {
        let owes_ack = next.awaits_ack;
        if owes_ack {
            self.acknowledgements = self.acknowledgements + 1;
        }
        self.latest = next;
        owes_ack
    }
}

} // verus!
