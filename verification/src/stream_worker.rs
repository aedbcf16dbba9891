//! The decisions of a single-stream worker for a download of unknown size, one step at a
//! time: buffering chunks and writing full buffers at the running offset, asking for a free
//! space check every so many bytes, giving up when a stream drops after bytes arrived, and
//! retrying failed attempts within the retry budget (more of them when the host throttles).
//! The caller makes the requests, reads the chunks, queues the writes, checks the space and
//! sleeps.

use vstd::prelude::*;
use crate::arith::{max_int, min_int, sat_add, sat_sub};
use crate::segment_worker::PendingWrite;
use crate::text::{decimal_spec, push_decimal};

verus! {

/// Where a single-stream worker stands.
#[derive(Clone, Copy, Debug, PartialEq, Eq, Structural)]
pub struct StreamWorkerState {
    /// The offset the stream starts writing at.
    pub starting_offset: u64,
    /// The next byte to write.
    pub offset: u64,
    /// Bytes read and not yet written.
    pub buffered: usize,
    /// Whether the current response delivered any bytes.
    pub downloaded_any: bool,
    /// The offset at which free space is next checked.
    pub next_space_check_at: u64,
    /// How many bytes lie between free space checks.
    pub check_interval: u64,
    /// The attempt being made, from zero.
    pub attempt: u32,
}

/// What to do after a chunk.
#[derive(Clone, Copy, Debug, PartialEq, Eq, Structural)]
pub struct StreamChunkStep {
    /// The write to queue, if any.
    pub write: Option<PendingWrite>,
    /// Check that the volume can take this many more bytes, if asked.
    pub check_space_for: Option<u64>,
}

/// Why an attempt failed.
#[derive(Clone, Debug)]
pub enum AttemptFailure {
    /// The response broke before any byte arrived.
    BeforeBytes(String),
    /// The host answered with a non-success status (`status` as text), possibly throttling.
    Http { status: String, throttled: bool, retry_after_ms: Option<u64> },
    /// The request failed.
    Network(String),
}

/// What to do after a failed attempt.
#[derive(Clone, Debug, PartialEq, Eq)]
pub enum RetryStep {
    /// Wait the retry delay of `attempt` (as throttled, honouring `retry_after_ms`), then try again.
    Retry { attempt: u32, throttled: bool, retry_after_ms: Option<u64> },
    /// Give up with this error.
    GiveUp(String),
}

pub const THROTTLE_EXTRA_RETRIES: u32 = 6;

pub open spec fn dropped_message(bytes: u64, error: Seq<char>) -> Seq<char> {
    "Unknown-size stream dropped after "@ + decimal_spec(bytes as nat)
        + " downloaded; restart is required because the host did not expose a resumable content length: "@ + error
}

pub open spec fn before_bytes_message(error: Seq<char>) -> Seq<char> {
    "Single-stream transfer failed before any bytes were received: "@ + error
}

pub open spec fn network_message(error: Seq<char>) -> Seq<char> {
    "Network error before single-stream transfer could stabilize: "@ + error
}

pub open spec fn http_message(status: Seq<char>, limit: u32, retry_after_ms: Option<u64>) -> Seq<char> {
    let head = "HTTP "@ + status + " for single-stream transfer after "@ + decimal_spec(limit as nat) + " retries"@;
    match retry_after_ms {
        Some(ms) => head + " (retry-after "@ + decimal_spec(ms as nat) + "ms)."@,
        None => head + "."@,
    }
}

/// The retries an attempt may use: the budget, six more when the host throttles.
pub open spec fn retry_limit(failure: AttemptFailure, budget: u32) -> u32 {
    match failure {
        AttemptFailure::Http { throttled, .. } => if throttled { min_int(budget + THROTTLE_EXTRA_RETRIES, u32::MAX as int) as u32 } else { budget },
        _ => budget,
    }
}

/// The error of giving up after `failure` with `limit` retries.
pub open spec fn give_up_message(failure: AttemptFailure, limit: u32) -> Seq<char> {
    match failure {
        AttemptFailure::BeforeBytes(e) => before_bytes_message(e@),
        AttemptFailure::Http { status, retry_after_ms, .. } => http_message(status@, limit, retry_after_ms),
        AttemptFailure::Network(e) => network_message(e@),
    }
}

impl StreamWorkerState {
    /// A worker writing from `starting_offset`, checking free space every
    /// `space_check_interval_bytes` (at least one).
    pub fn new(starting_offset: u64, space_check_interval_bytes: u64) -> (s: Self)
        ensures
            s == (StreamWorkerState {
                starting_offset,
                offset: starting_offset,
                buffered: 0,
                downloaded_any: false,
                next_space_check_at: sat_add(starting_offset as int, max_int(space_check_interval_bytes as int, 1)) as u64,
                check_interval: max_int(space_check_interval_bytes as int, 1) as u64,
                attempt: 0,
            }),
    {
        let interval: u64 = if space_check_interval_bytes < 1 { 1 } else { space_check_interval_bytes };
        StreamWorkerState {
            starting_offset,
            offset: starting_offset,
            buffered: 0,
            downloaded_any: false,
            next_space_check_at: crate::arith::u64_sat_add(starting_offset, interval),
            check_interval: interval,
            attempt: 0,
        }
    }

    /// A successful response starts writing again from the starting offset.
    pub fn begin_response(&mut self)
        ensures
            *final(self) == (StreamWorkerState {
                offset: old(self).starting_offset,
                buffered: 0,
                downloaded_any: false,
                next_space_check_at: sat_add(old(self).starting_offset as int, old(self).check_interval as int) as u64,
                ..*old(self)
            }),
    {
        self.offset = self.starting_offset;
        self.buffered = 0;
        self.downloaded_any = false;
        self.next_space_check_at = crate::arith::u64_sat_add(self.starting_offset, self.check_interval);
    }

    /// After a chunk of `len` bytes: it is buffered; a buffer of `flush_target` bytes or more
    /// is written at the offset (an empty one writes nothing), and, when space is checked, the bytes written since the
    /// start are checked once the offset passes the next check point.
    pub fn chunk(&mut self, len: usize, flush_target: usize, checks_space: bool) -> (r: StreamChunkStep)
        requires
            old(self).buffered + len <= usize::MAX,
        ensures
            ({
                let b = old(self).buffered + len;
                if b >= flush_target {
                    let off = sat_add(old(self).offset as int, b) as u64;
                    let check = checks_space && off >= old(self).next_space_check_at;
                    &&& r.write == (if b > 0 { Some(PendingWrite { offset: old(self).offset, bytes: b as usize }) } else { None })
                    &&& r.check_space_for == (if check { Some(sat_sub(off as int, old(self).starting_offset as int) as u64) } else { None })
                    &&& *final(self) == (StreamWorkerState {
                        offset: off,
                        buffered: 0,
                        downloaded_any: true,
                        next_space_check_at: if check { sat_add(off as int, old(self).check_interval as int) as u64 } else { old(self).next_space_check_at },
                        ..*old(self)
                    })
                } else {
                    &&& r == StreamChunkStep { write: None, check_space_for: None }
                    &&& *final(self) == (StreamWorkerState { buffered: b as usize, downloaded_any: true, ..*old(self) })
                }
            }),
    {
        self.buffered = self.buffered + len;
        self.downloaded_any = true;
        if self.buffered >= flush_target {
            let write = if self.buffered > 0 { Some(PendingWrite { offset: self.offset, bytes: self.buffered }) } else { None };
            self.offset = crate::arith::u64_sat_add(self.offset, self.buffered as u64);
            self.buffered = 0;
            let mut check_space_for: Option<u64> = None;
            if checks_space && self.offset >= self.next_space_check_at {
                check_space_for = Some(crate::arith::u64_sat_sub(self.offset, self.starting_offset));
                self.next_space_check_at = crate::arith::u64_sat_add(self.offset, self.check_interval);
            }
            return StreamChunkStep { write, check_space_for };
        }
        StreamChunkStep { write: None, check_space_for: None }
    }

    /// When the stream breaks with `error`: after bytes arrived the download must restart,
    /// which is this error; before any byte it is a failed attempt (none).
    pub fn stream_broke(&self, error: &str) -> (r: Option<String>)
        ensures
            if self.downloaded_any {
                r matches Some(m) && m@ == dropped_message(sat_sub(self.offset as int, self.starting_offset as int) as u64, error@)
            } else {
                r is None
            },
    {
        if !self.downloaded_any {
            return None;
        }
        let mut m = String::new();
        m.append("Unknown-size stream dropped after ");
        push_decimal(&mut m, crate::arith::u64_sat_sub(self.offset, self.starting_offset));
        m.append(" downloaded; restart is required because the host did not expose a resumable content length: ");
        m.append(error);
        Some(m)
    }

    /// At the end of the stream: what is still buffered is written, and space is checked for
    /// the bytes written since the start when anything was written and space is checked.
    pub fn finish(&mut self, checks_space: bool) -> (r: StreamChunkStep)
        ensures
            if old(self).buffered > 0 {
                let off = sat_add(old(self).offset as int, old(self).buffered as int) as u64;
                &&& r.write == Some(PendingWrite { offset: old(self).offset, bytes: old(self).buffered })
                &&& r.check_space_for == (if checks_space { Some(sat_sub(off as int, old(self).starting_offset as int) as u64) } else { None })
                &&& *final(self) == (StreamWorkerState { offset: off, buffered: 0, ..*old(self) })
            } else {
                r == StreamChunkStep { write: None, check_space_for: None } && *final(self) == *old(self)
            },
    {
        if self.buffered == 0 {
            return StreamChunkStep { write: None, check_space_for: None };
        }
        let write = PendingWrite { offset: self.offset, bytes: self.buffered };
        self.offset = crate::arith::u64_sat_add(self.offset, self.buffered as u64);
        self.buffered = 0;
        let check_space_for = if checks_space { Some(crate::arith::u64_sat_sub(self.offset, self.starting_offset)) } else { None };
        StreamChunkStep { write: Some(write), check_space_for }
    }

    /// After a failed attempt: give up once the attempts reach the retry limit, else retry
    /// (and count the attempt).
    pub fn after_failure(&mut self, failure: AttemptFailure, retry_budget: u32) -> (r: RetryStep)
        ensures
            ({
                let limit = retry_limit(failure, retry_budget);
                if old(self).attempt >= limit {
                    r matches RetryStep::GiveUp(m) && m@ == give_up_message(failure, limit) && *final(self) == *old(self)
                } else {
                    &&& r == (match failure {
                        AttemptFailure::Http { throttled, retry_after_ms, .. } => RetryStep::Retry { attempt: old(self).attempt, throttled, retry_after_ms },
                        _ => RetryStep::Retry { attempt: old(self).attempt, throttled: false, retry_after_ms: None },
                    })
                    &&& *final(self) == (StreamWorkerState { attempt: (old(self).attempt + 1) as u32, ..*old(self) })
                }
            }),
    {
        let limit: u32 = match &failure {
            AttemptFailure::Http { throttled, .. } => if *throttled { crate::arith::u32_sat_add(retry_budget, THROTTLE_EXTRA_RETRIES) } else { retry_budget },
            _ => retry_budget,
        };
        if self.attempt >= limit {
            let mut m = String::new();
            match &failure {
                AttemptFailure::BeforeBytes(e) => {
                    m.append("Single-stream transfer failed before any bytes were received: ");
                    m.append(e.as_str());
                },
                AttemptFailure::Http { status, retry_after_ms, .. } => {
                    m.append("HTTP ");
                    m.append(status.as_str());
                    m.append(" for single-stream transfer after ");
                    push_decimal(&mut m, limit as u64);
                    m.append(" retries");
                    match retry_after_ms {
                        Some(ms) => {
                            m.append(" (retry-after ");
                            push_decimal(&mut m, *ms);
                            m.append("ms).");
                        },
                        None => {
                            m.append(".");
                        },
                    }
                },
                AttemptFailure::Network(e) => {
                    m.append("Network error before single-stream transfer could stabilize: ");
                    m.append(e.as_str());
                },
            }
            return RetryStep::GiveUp(m);
        }
        let step = match &failure {
            AttemptFailure::Http { throttled, retry_after_ms, .. } => RetryStep::Retry { attempt: self.attempt, throttled: *throttled, retry_after_ms: *retry_after_ms },
            _ => RetryStep::Retry { attempt: self.attempt, throttled: false, retry_after_ms: None },
        };
        self.attempt = self.attempt + 1;
        step
    }
}


/// A download after a progress report of its single stream at `now`: its byte count (never
/// negative) and speed (when measured) follow the report, it has no time estimate, its writer
/// backpressure is the disk's pressure (a new pressure episode is counted), and the report
/// counts as a checkpoint flush when `max_interval_ms` passed since the last one, else as a
/// skip.
pub open spec fn stream_progress_applied(d: crate::download::DownloadRecord, downloaded: i64, throughput: u64,
    under_pressure: bool, flush: bool, after: crate::download::DownloadRecord) -> bool
{
    let diag = d.diagnostics;
    after == (crate::download::DownloadRecord {
        downloaded: if downloaded < 0 { 0 } else { downloaded },
        speed: if throughput > 0 { throughput } else { d.speed },
        time_left: None,
        writer_backpressure: under_pressure,
        diagnostics: crate::download::DownloadDiagnostics {
            checkpoint_disk_pressure_events: if under_pressure && !d.writer_backpressure {
                min_int(diag.checkpoint_disk_pressure_events + 1, u64::MAX as int) as u64
            } else {
                diag.checkpoint_disk_pressure_events
            },
            checkpoint_flushes: if flush { min_int(diag.checkpoint_flushes + 1, u64::MAX as int) as u64 } else { diag.checkpoint_flushes },
            checkpoint_skips: if flush { diag.checkpoint_skips } else { min_int(diag.checkpoint_skips + 1, u64::MAX as int) as u64 },
            ..diag
        },
        ..d
    })
}

/// Applies a progress report of a single stream to its download; returns whether the
/// registry is to be persisted (a checkpoint flush), which is when `max_interval_ms` passed
/// since `last_checkpoint_at`.
pub fn apply_stream_progress(d: &mut crate::download::DownloadRecord, downloaded: i64, throughput: u64, under_pressure: bool,
    now: i64, last_checkpoint_at: i64, max_interval_ms: i64) -> (flush: bool)
    ensures
        flush == (crate::arith::sat_sub_i64(now as int, last_checkpoint_at as int) >= max_interval_ms),
        stream_progress_applied(*old(d), downloaded, throughput, under_pressure, flush, *final(d)),
{
    d.downloaded = if downloaded < 0 { 0 } else { downloaded };
    if throughput > 0 {
        d.speed = throughput;
    }
    d.time_left = None;
    if under_pressure && !d.writer_backpressure {
        d.diagnostics.checkpoint_disk_pressure_events = crate::arith::u64_sat_add(d.diagnostics.checkpoint_disk_pressure_events, 1);
    }
    d.writer_backpressure = under_pressure;
    let flush = crate::arith::i64_sat_sub(now, last_checkpoint_at) >= max_interval_ms;
    if flush {
        d.diagnostics.checkpoint_flushes = crate::arith::u64_sat_add(d.diagnostics.checkpoint_flushes, 1);
    } else {
        d.diagnostics.checkpoint_skips = crate::arith::u64_sat_add(d.diagnostics.checkpoint_skips, 1);
    }
    flush
}

pub open spec fn length_mismatch_message(written: u64, on_disk: u64) -> Seq<char> {
    "Unknown-size transfer wrote "@ + decimal_spec(written as nat) + " bytes but the temp file reports "@
        + decimal_spec(on_disk as nat) + " bytes after disk flush."@
}

pub open spec fn reported_mismatch_message(on_disk: u64, reported: u64) -> Seq<char> {
    "Unknown-size transfer reached EOF at "@ + decimal_spec(on_disk as nat) + " bytes but the final stream reported Content-Length "@
        + decimal_spec(reported as nat) + "."@
}

/// The result of a single stream once the disk queue drained and the file was synced: a
/// stream error yields to a drain, sync or disk error (in that order); a finished stream
/// fails on the first of those errors, then on an unreadable length, then when the file's
/// length differs from the bytes written or from a reported Content-Length; else it is the
/// file's length.
pub fn resolve_stream_result(
    stream: Result<(u64, Option<u64>), String>,
    drained: Result<(), String>,
    synced: Result<(), String>,
    disk: Result<(), String>,
    file_len: Result<u64, String>,
) -> (r: Result<u64, String>)
    ensures
        match stream {
            Err(e) => match (drained, synced, disk) {
                (Err(x), _, _) => r == Err::<u64, String>(x),
                (Ok(()), Err(x), _) => r == Err::<u64, String>(x),
                (Ok(()), Ok(()), Err(x)) => r == Err::<u64, String>(x),
                (Ok(()), Ok(()), Ok(())) => r == Err::<u64, String>(e),
            },
            Ok((written, reported)) => match (drained, synced, disk, file_len) {
                (Err(x), _, _, _) => r == Err::<u64, String>(x),
                (Ok(()), Err(x), _, _) => r == Err::<u64, String>(x),
                (Ok(()), Ok(()), Err(x), _) => r == Err::<u64, String>(x),
                (Ok(()), Ok(()), Ok(()), Err(x)) => r == Err::<u64, String>(x),
                (Ok(()), Ok(()), Ok(()), Ok(len)) => if len != written {
                    r matches Err(m) && m@ == length_mismatch_message(written, len)
                } else if reported matches Some(c) && c != len {
                    r matches Err(m) && m@ == reported_mismatch_message(len, reported->0)
                } else {
                    r == Ok::<u64, String>(len)
                },
            },
        },
{
    match stream {
        Err(e) => {
            if let Err(x) = drained { return Err(x); }
            if let Err(x) = synced { return Err(x); }
            if let Err(x) = disk { return Err(x); }
            Err(e)
        },
        Ok((written, reported)) => {
            if let Err(x) = drained { return Err(x); }
            if let Err(x) = synced { return Err(x); }
            if let Err(x) = disk { return Err(x); }
            let len = match file_len { Ok(l) => l, Err(x) => { return Err(x); } };
            if len != written {
                let mut m = String::new();
                m.append("Unknown-size transfer wrote ");
                push_decimal(&mut m, written);
                m.append(" bytes but the temp file reports ");
                push_decimal(&mut m, len);
                m.append(" bytes after disk flush.");
                return Err(m);
            }
            match reported {
                Some(c) => if c != len {
                    let mut m = String::new();
                    m.append("Unknown-size transfer reached EOF at ");
                    push_decimal(&mut m, len);
                    m.append(" bytes but the final stream reported Content-Length ");
                    push_decimal(&mut m, c);
                    m.append(".");
                    return Err(m);
                },
                None => {},
            }
            Ok(len)
        },
    }
}

} // verus!
