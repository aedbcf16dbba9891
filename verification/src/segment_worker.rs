//! The decisions of a segment worker, one step at a time: before each request (stop when
//! canceled, finish when the range is done, else fetch the rest of the range up to its
//! current end, which work stealing may have moved), after each chunk of the response
//! (buffer it, write what falls inside the range when the buffer is full or the range end is
//! reached, stop reading at the end), and when a response ends (write what is left, then
//! go on, back off after a dropped stream, or give up past the retry budget). The caller
//! makes the requests, reads the chunks, queues the writes and sleeps.

use vstd::prelude::*;
use crate::arith::{max_int, min_int, sat_add, sat_add_i64};
use crate::model::DownloadSegment;
use crate::runtime_transfer::{buffered_write_spec, plan_buffered_write};
use crate::text::{decimal_spec, push_decimal};

verus! {

/// Where a segment worker stands.
#[derive(Clone, Copy, Debug, PartialEq, Eq, Structural)]
pub struct SegmentWorkerState {
    /// The first byte of the segment.
    pub seg_start: i64,
    /// The next byte to write.
    pub pos: u64,
    /// The inclusive end of the range as last read.
    pub end: i64,
    /// Bytes written so far.
    pub downloaded: i64,
    pub retry_attempts: u32,
    pub stream_drops: u32,
    /// Bytes read and not yet written.
    pub buffered: usize,
    /// Requests made so far.
    pub requests: u64,
}

/// What to do before a request.
#[derive(Clone, Copy, Debug, PartialEq, Eq, Structural)]
pub enum WorkerPoll {
    /// The worker was canceled.
    Canceled,
    /// The range is done.
    Finished,
    /// Fetch bytes `start..=end`; `reused` hints that the connection is a reused one.
    Fetch { start: u64, end: u64, reused: bool },
}

/// A write to queue: `bytes` buffered bytes at `offset`.
#[derive(Clone, Copy, Debug, PartialEq, Eq, Structural)]
pub struct PendingWrite {
    pub offset: u64,
    pub bytes: usize,
}

/// What to do after a chunk.
#[derive(Clone, Copy, Debug, PartialEq, Eq, Structural)]
pub struct ChunkStep {
    /// The write to queue, if any.
    pub write: Option<PendingWrite>,
    /// Stop reading this response.
    pub stop: bool,
}

/// What to do once a response ended.
#[derive(Clone, Debug, PartialEq, Eq)]
pub enum StreamNext {
    /// Go back to the next request.
    Poll,
    /// Wait the stream recovery delay of this attempt, then go back to the next request.
    Backoff { attempt: u32 },
    /// Give up with this error.
    GiveUp(String),
}

/// The error of a worker whose stream dropped more often than its retry budget allows.
pub open spec fn drops_message(drops: u32) -> Seq<char> {
    "Stream dropped "@ + decimal_spec(drops as nat) + " times, exceeding retry budget."@
}

pub const SEGMENT_CANCELED: &'static str = "segment-canceled";

/// The end of the range a worker reads: the control's end, but never before the segment's start.
pub open spec fn range_end(seg_start: i64, control_end: i64) -> int {
    max_int(control_end as int, seg_start as int)
}

/// `s` after `bytes` more were written: position and count move on, the buffer is empty.
pub open spec fn after_write(s: SegmentWorkerState, bytes: int) -> SegmentWorkerState {
    SegmentWorkerState {
        pos: sat_add(s.pos as int, bytes) as u64,
        downloaded: sat_add_i64(s.downloaded as int, min_int(bytes, i64::MAX as int)) as i64,
        buffered: 0,
        ..s
    }
}

impl SegmentWorkerState {
    /// A worker's start over `segment`: it resumes after the bytes already written (positions
    /// are unsigned, so a negative start wraps as a cast to `u64` does).
    pub fn new(segment: &DownloadSegment) -> (s: Self)
        ensures
            s == (SegmentWorkerState {
                seg_start: segment.start,
                pos: max_int(sat_add_i64(segment.start as int, max_int(segment.downloaded as int, 0)), segment.start as int) as u64,
                end: segment.end,
                downloaded: segment.downloaded,
                retry_attempts: segment.retry_attempts,
                stream_drops: 0,
                buffered: 0,
                requests: 0,
            }),
    {
        let d: i64 = if segment.downloaded < 0 { 0 } else { segment.downloaded };
        let p: i64 = crate::arith::i64_sat_add(segment.start, d);
        let p2: i64 = if p < segment.start { segment.start } else { p };
        SegmentWorkerState {
            seg_start: segment.start,
            pos: p2 as u64,
            end: segment.end,
            downloaded: segment.downloaded,
            retry_attempts: segment.retry_attempts,
            stream_drops: 0,
            buffered: 0,
            requests: 0,
        }
    }

    /// Before a request: stop when canceled; else read the range end and finish when the
    /// next byte is past it, or fetch the rest of the range.
    pub fn poll(&mut self, canceled: bool, control_end: i64, pooled_client_reused: bool) -> (r: WorkerPoll)
        ensures
            if canceled {
                r == WorkerPoll::Canceled && *final(self) == *old(self)
            } else {
                let ei = range_end(old(self).seg_start, control_end);
                let e = ei as u64;
                &&& *final(self) == (SegmentWorkerState { end: ei as i64, ..*old(self) })
                &&& r == (if old(self).pos > e {
                    WorkerPoll::Finished
                } else {
                    WorkerPoll::Fetch { start: old(self).pos, end: e, reused: pooled_client_reused || old(self).requests > 0 }
                })
            },
    {
        if canceled {
            return WorkerPoll::Canceled;
        }
        let e: i64 = if control_end < self.seg_start { self.seg_start } else { control_end };
        self.end = e;
        let eu = e as u64;
        if self.pos > eu {
            WorkerPoll::Finished
        } else {
            WorkerPoll::Fetch { start: self.pos, end: eu, reused: pooled_client_reused || self.requests > 0 }
        }
    }

    /// A request was answered after `retries_used` retries.
    pub fn fetched(&mut self, retries_used: u32)
        ensures
            *final(self) == (SegmentWorkerState {
                requests: min_int(old(self).requests + 1, u64::MAX as int) as u64,
                retry_attempts: min_int(old(self).retry_attempts + retries_used, u32::MAX as int) as u32,
                ..*old(self)
            }),
    {
        self.requests = if self.requests == u64::MAX { u64::MAX } else { self.requests + 1 };
        self.retry_attempts = crate::arith::u32_sat_add(self.retry_attempts, retries_used);
    }

    /// After a chunk of `len` bytes: it is buffered; when the buffer reaches `flush_target`
    /// or the range end, what falls inside the range is written (and the rest dropped), and
    /// reading stops at the range end; reading also stops once the next byte reaches it.
    pub fn chunk(&mut self, len: usize, control_end: i64, flush_target: usize) -> (r: ChunkStep)
        requires
            old(self).buffered + len <= usize::MAX,
        ensures
            ({
                let ei = range_end(old(self).seg_start, control_end);
                let e = ei as u64;
                let b = old(self).buffered + len;
                let plan = buffered_write_spec(old(self).pos as int, e as int, b);
                if b >= flush_target || plan.boundary_reached {
                    if plan.bytes_to_write == 0 {
                        &&& r == ChunkStep { write: None, stop: true }
                        &&& *final(self) == (SegmentWorkerState { end: ei as i64, buffered: 0, ..*old(self) })
                    } else {
                        let s2 = after_write(SegmentWorkerState { end: ei as i64, ..*old(self) }, plan.bytes_to_write as int);
                        &&& *final(self) == s2
                        &&& r == ChunkStep {
                            write: Some(PendingWrite { offset: old(self).pos, bytes: plan.bytes_to_write }),
                            stop: plan.boundary_reached || s2.pos >= e,
                        }
                    }
                } else {
                    &&& *final(self) == (SegmentWorkerState { buffered: b as usize, ..*old(self) })
                    &&& r == ChunkStep { write: None, stop: old(self).pos >= e }
                }
            }),
    {
        let e: i64 = if control_end < self.seg_start { self.seg_start } else { control_end };
        let eu = e as u64;
        self.buffered = self.buffered + len;
        let plan = plan_buffered_write(self.pos, eu, self.buffered);
        if self.buffered >= flush_target || plan.boundary_reached {
            self.end = e;
            if plan.bytes_to_write == 0 {
                self.buffered = 0;
                return ChunkStep { write: None, stop: true };
            }
            let offset = self.pos;
            self.write_out(plan.bytes_to_write);
            return ChunkStep { write: Some(PendingWrite { offset, bytes: plan.bytes_to_write }), stop: plan.boundary_reached || self.pos >= eu };
        }
        ChunkStep { write: None, stop: self.pos >= eu }
    }

    fn write_out(&mut self, bytes: usize)
        ensures
            *final(self) == after_write(*old(self), bytes as int),
    {
        let delta: i64 = if bytes as u64 > 9223372036854775807u64 { i64::MAX } else { bytes as i64 };
        self.downloaded = crate::arith::i64_sat_add(self.downloaded, delta);
        self.pos = crate::arith::u64_sat_add(self.pos, bytes as u64);
        self.buffered = 0;
    }

    /// Once a response ended (`failed` when the stream dropped): what is still buffered and
    /// inside the range is written; then a dropped stream counts as a drop and a retry, and
    /// past `retry_budget` drops the worker gives up, else it backs off; an ended stream goes
    /// back to the next request.
    pub fn stream_end(&mut self, failed: bool, control_end: i64, retry_budget: u32) -> (r: (Option<PendingWrite>, StreamNext))
        ensures
            ({
                let ei = range_end(old(self).seg_start, control_end);
                let e = ei as u64;
                let plan = buffered_write_spec(old(self).pos as int, e as int, old(self).buffered as int);
                let s1 = if old(self).buffered == 0 {
                    *old(self)
                } else if plan.bytes_to_write == 0 {
                    SegmentWorkerState { end: ei as i64, buffered: 0, ..*old(self) }
                } else {
                    after_write(SegmentWorkerState { end: ei as i64, ..*old(self) }, plan.bytes_to_write as int)
                };
                &&& r.0 == (if old(self).buffered > 0 && plan.bytes_to_write > 0 { Some(PendingWrite { offset: old(self).pos, bytes: plan.bytes_to_write }) } else { None })
                &&& if failed {
                    let drops = min_int(s1.stream_drops + 1, u32::MAX as int) as u32;
                    &&& *final(self) == (SegmentWorkerState {
                        stream_drops: drops,
                        retry_attempts: min_int(s1.retry_attempts + 1, u32::MAX as int) as u32,
                        ..s1
                    })
                    &&& if drops > retry_budget {
                        r.1 matches StreamNext::GiveUp(m) && m@ == drops_message(drops)
                    } else {
                        r.1 == StreamNext::Backoff { attempt: (drops - 1) as u32 }
                    }
                } else {
                    *final(self) == s1 && r.1 == StreamNext::Poll
                }
            }),
    {
        let mut written: Option<PendingWrite> = None;
        if self.buffered > 0 {
            let e: i64 = if control_end < self.seg_start { self.seg_start } else { control_end };
            let plan = plan_buffered_write(self.pos, e as u64, self.buffered);
            self.end = e;
            if plan.bytes_to_write == 0 {
                self.buffered = 0;
            } else {
                written = Some(PendingWrite { offset: self.pos, bytes: plan.bytes_to_write });
                self.write_out(plan.bytes_to_write);
            }
        }
        if !failed {
            return (written, StreamNext::Poll);
        }
        self.stream_drops = crate::arith::u32_sat_add(self.stream_drops, 1);
        self.retry_attempts = crate::arith::u32_sat_add(self.retry_attempts, 1);
        if self.stream_drops > retry_budget {
            let mut m = String::new();
            m.append("Stream dropped ");
            push_decimal(&mut m, self.stream_drops as u64);
            m.append(" times, exceeding retry budget.");
            assert(m@ =~= drops_message(self.stream_drops));
            return (written, StreamNext::GiveUp(m));
        }
        (written, StreamNext::Backoff { attempt: self.stream_drops - 1 })
    }
}

} // verus!
