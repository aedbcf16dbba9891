//! Per-segment transfer control: dynamic segment ends, retry delays and buffer sizing.

use vstd::prelude::*;
use crate::arith::{sat_mul, sat_add, sat_sub, ceil_div, max_int, min_int, clamp_int, u64_sat_mul, u64_sat_add, u64_sat_sub, u64_div_ceil, u64_max, u64_min, u32_max};
use crate::disk_pool::clamp_usize;
use crate::model::DownloadSegmentStatus;

verus! {

pub const THROTTLE_EXTRA_RETRIES: u32 = 6;
pub const THROTTLE_BACKOFF_MAX_MS: u64 = 30_000;
pub const RETRY_AFTER_MAX_SECONDS: u64 = 120;
pub const DEFAULT_RETRY_JITTER_PERCENT: u8 = 15;
pub const ADAPTIVE_CHUNK_BUFFER_FLOOR_BYTES: usize = 262_144;
pub const ADAPTIVE_CHUNK_BUFFER_CEILING_BYTES: usize = 8_388_608;

/// Progress a segment worker reports.
#[derive(Clone, Debug)]
pub struct SegmentRuntimeProgress {
    pub segment_id: u32,
    pub downloaded: i64,
    pub status: DownloadSegmentStatus,
    pub throughput_bytes_per_second: u64,
    pub retry_attempts: u32,
    pub terminal_failure_reason: Option<String>,
    pub telemetry: Option<SegmentNetworkTelemetry>,
}

/// Connection facts observed when a segment's response arrived.
#[derive(Clone, Debug)]
pub struct SegmentNetworkTelemetry {
    pub ttfb_ms: Option<u64>,
    pub connection_reused: Option<bool>,
    pub negotiated_protocol: Option<String>,
}

/// Result of streaming a download whose size was not known.
#[derive(Clone, Copy, Debug)]
pub struct UnknownSizeStreamOutcome {
    pub downloaded: u64,
    pub reported_content_length: Option<u64>,
}

/// Options of a stream whose size is not known.
#[derive(Clone, Debug)]
pub struct UnknownSizeStreamOptions {
    pub starting_offset: u64,
    pub space_check_path: Option<String>,
    pub space_check_interval_bytes: u64,
    pub space_safety_margin_bytes: u64,
}

/// Progress of a stream whose size was not known.
#[derive(Clone, Debug)]
pub struct UnknownSizeStreamProgress {
    pub downloaded: i64,
    pub throughput_bytes_per_second: u64,
    pub telemetry: Option<SegmentNetworkTelemetry>,
}

/// A handle to the control a scheduler holds over one running segment worker. The state it
/// names (the end of the worker's range, which work stealing may move, and whether the worker
/// was canceled) lives in a [`SegmentControlTable`] that every holder reads and writes
/// through: clones of a handle name the same state, so an end moved through one of them is the
/// end every other holder sees.
#[derive(Clone, Copy, Debug, PartialEq, Eq, Structural)]
pub struct SegmentRuntimeControl {
    pub slot: usize,
}

/// The shared state of the segment controls of one transfer, one entry per control.
#[derive(Debug)]
pub struct SegmentControlTable {
    pub ends: Vec<i64>,
    pub canceled: Vec<bool>,
}

/// The state of all controls: for each, its end and whether it was canceled.
pub open spec fn controls_view(t: SegmentControlTable) -> Seq<(i64, bool)> {
    Seq::new(t.ends@.len(), |i: int| (t.ends@[i], t.canceled@[i]))
}

impl SegmentControlTable {
    /// Every control has both an end and a cancel flag.
    pub open spec fn wf(&self) -> bool {
        self.ends@.len() == self.canceled@.len()
    }

    /// Whether `c` names a control of this table.
    pub open spec fn holds(&self, c: SegmentRuntimeControl) -> bool {
        c.slot < self.ends@.len()
    }

    /// The end seen through `c`.
    pub open spec fn end_of(&self, c: SegmentRuntimeControl) -> i64 {
        self.ends@[c.slot as int]
    }

    /// Whether the control named by `c` was canceled.
    pub open spec fn canceled_of(&self, c: SegmentRuntimeControl) -> bool {
        self.canceled@[c.slot as int]
    }

    /// A table with no controls.
    pub fn new() -> (t: Self)
        ensures
            t.wf(),
            controls_view(t) == Seq::<(i64, bool)>::empty(),
    {
        let t = SegmentControlTable { ends: Vec::new(), canceled: Vec::new() };
        assert(controls_view(t) =~= Seq::<(i64, bool)>::empty());
        t
    }
}

impl SegmentRuntimeControl {
    /// A new control in `table` whose range ends at `initial_end`, not canceled.
    pub fn new(table: &mut SegmentControlTable, initial_end: i64) -> (c: Self)
        requires
            old(table).wf(),
        ensures
            final(table).wf(),
            c.slot == old(table).ends@.len(),
            controls_view(*final(table)) == controls_view(*old(table)).push((initial_end, false)),
    {
        let slot = table.ends.len();
        table.ends.push(initial_end);
        table.canceled.push(false);
        assert(controls_view(*table) =~= controls_view(*old(table)).push((initial_end, false)));
        SegmentRuntimeControl { slot }
    }

    /// The current end of this control's range.
    pub fn current_end(&self, table: &SegmentControlTable) -> (r: i64)
        requires
            table.wf(),
            table.holds(*self),
        ensures
            r == table.end_of(*self),
    {
        table.ends[self.slot]
    }

    /// Moves the end of this control's range; every holder of the control sees it.
    pub fn set_end(&self, table: &mut SegmentControlTable, end: i64)
        requires
            old(table).wf(),
            old(table).holds(*self),
        ensures
            final(table).wf(),
            controls_view(*final(table)) == controls_view(*old(table)).update(self.slot as int, (end, old(table).canceled_of(*self))),
            forall|h: SegmentRuntimeControl| #[trigger] final(table).end_of(h) == end && final(table).canceled_of(h) == old(table).canceled_of(h)
                <== h.slot == self.slot,
            forall|h: SegmentRuntimeControl| old(table).holds(h) && h.slot != self.slot
                ==> #[trigger] final(table).end_of(h) == old(table).end_of(h) && final(table).canceled_of(h) == old(table).canceled_of(h),
    {
        table.ends.set(self.slot, end);
        assert(controls_view(*table) =~= controls_view(*old(table)).update(self.slot as int, (end, old(table).canceled_of(*self))));
    }

    /// Cancels this control; its end stays.
    pub fn cancel(&self, table: &mut SegmentControlTable)
        requires
            old(table).wf(),
            old(table).holds(*self),
        ensures
            final(table).wf(),
            controls_view(*final(table)) == controls_view(*old(table)).update(self.slot as int, (old(table).end_of(*self), true)),
    {
        table.canceled.set(self.slot, true);
        assert(controls_view(*table) =~= controls_view(*old(table)).update(self.slot as int, (old(table).end_of(*self), true)));
    }

    /// Whether this control was canceled.
    pub fn is_canceled(&self, table: &SegmentControlTable) -> (r: bool)
        requires
            table.wf(),
            table.holds(*self),
        ensures
            r == table.canceled_of(*self),
    {
        table.canceled[self.slot]
    }
}

/// Clones of a control share its state: after the end is moved through one holder to `end`,
/// every holder of a clone sees `end`, and the cancel flag is what it was.
pub proof fn lemma_clones_share_end(before: SegmentControlTable, after: SegmentControlTable, c: SegmentRuntimeControl, holder: SegmentRuntimeControl, end: i64)
    requires
        before.wf(),
        after.wf(),
        before.holds(c),
        holder == c,
        controls_view(after) == controls_view(before).update(holder.slot as int, (end, before.canceled_of(holder))),
    ensures
        after.end_of(c) == end,
        after.canceled_of(c) == before.canceled_of(c),
{
    let i = c.slot as int;
    assert(controls_view(before).len() == before.ends@.len());
    assert(controls_view(after).len() == after.ends@.len());
    assert(controls_view(after)[i] == (after.ends@[i], after.canceled@[i]));
    assert(controls_view(after)[i] == (end, before.canceled_of(holder)));
}

/// How a transfer retries failed requests.
#[derive(Clone, Copy, Debug)]
pub struct RetryPolicy {
    pub budget: u32,
    pub backoff_base_ms: u64,
    pub backoff_max_ms: u64,
    pub jitter_percent: u8,
}

impl RetryPolicy {
    pub fn from_config(retry_budget: u32, backoff_base_ms: u64, backoff_max_ms: u64) -> (p: Self)
        ensures
            p.budget == max_int(retry_budget as int, 1),
            p.backoff_base_ms == max_int(backoff_base_ms as int, 10),
            p.backoff_max_ms == max_int(backoff_max_ms as int, p.backoff_base_ms as int),
            p.jitter_percent == DEFAULT_RETRY_JITTER_PERCENT,
    {
        let base = u64_max(backoff_base_ms, 10);
        RetryPolicy {
            budget: u32_max(retry_budget, 1),
            backoff_base_ms: base,
            backoff_max_ms: u64_max(backoff_max_ms, base),
            jitter_percent: DEFAULT_RETRY_JITTER_PERCENT,
        }
    }

    /// The delay before retry `attempt` without jitter: exponential backoff (capped higher
    /// when throttled), no shorter than a server's retry-after hint.
    pub open spec fn retry_base_spec(self, attempt: int, throttled: bool, retry_after_ms: Option<u64>) -> int {
        max_int(
            backoff_spec(self.backoff_base_ms as int, if throttled { THROTTLE_BACKOFF_MAX_MS as int } else { self.backoff_max_ms as int }, attempt),
            match retry_after_ms { Some(v) => v as int, None => 0 },
        )
    }

    /// The delay before retry `attempt`: exponential backoff (capped higher when throttled),
    /// no shorter than a server's retry-after hint, plus random jitter.
    pub fn delay_ms(self, attempt: u32, throttled: bool, retry_after_ms: Option<u64>) -> (r: u64)
        ensures
            exists|entropy: u64| r == #[trigger] jitter_spec(self.retry_base_spec(attempt as int, throttled, retry_after_ms), self.jitter_percent as int, entropy as int),
    {
        let backoff_cap = if throttled { THROTTLE_BACKOFF_MAX_MS } else { self.backoff_max_ms };
        let base_delay = exponential_backoff_ms(self.backoff_base_ms, backoff_cap, attempt);
        let hint = match retry_after_ms { Some(v) => v, None => 0 };
        let base = u64_max(base_delay, hint);
        assert(base == self.retry_base_spec(attempt as int, throttled, retry_after_ms));
        let r = jittered_retry_delay_ms(base, self.jitter_percent);
        proof {
            let e = choose|e: u64| r == jitter_spec(base as int, self.jitter_percent as int, e as int);
            assert(r == jitter_spec(self.retry_base_spec(attempt as int, throttled, retry_after_ms), self.jitter_percent as int, e as int));
        }
        r
    }

    /// The delay before resuming a broken stream.
    pub fn stream_recovery_delay_ms(self, attempt: u32) -> (r: u64)
        ensures
            exists|entropy: u64| r == #[trigger] jitter_spec(
                backoff_spec(self.backoff_base_ms as int, self.backoff_max_ms as int, attempt as int),
                self.jitter_percent as int,
                entropy as int,
            ),
    {
        jittered_retry_delay_ms(exponential_backoff_ms(self.backoff_base_ms, self.backoff_max_ms, attempt), self.jitter_percent)
    }
}

pub open spec fn pow2(e: nat) -> int
    decreases e,
{
    if e == 0 { 1 } else { 2 * pow2((e - 1) as nat) }
}

/// The base delay doubled per attempt (at most eight doublings), capped at `max_delay`.
pub open spec fn backoff_spec(base_delay: int, max_delay: int, attempt: int) -> int {
    min_int(sat_mul(base_delay, pow2(min_int(attempt, 8) as nat)), max_delay)
}

pub fn exponential_backoff_ms(base_delay_ms: u64, max_delay_ms: u64, attempt: u32) -> (r: u64)
    ensures
        r == backoff_spec(base_delay_ms as int, max_delay_ms as int, attempt as int),
        r <= max_delay_ms,
{
    let exponent: u32 = if attempt < 8 { attempt } else { 8 };
    let mut factor: u64 = 1;
    let mut i: u32 = 0;
    while i < exponent
        invariant
            i <= exponent <= 8,
            factor == pow2(i as nat),
            factor <= 256,
        decreases exponent - i,
    {
        proof {
            assert(pow2((i + 1) as nat) == 2 * pow2(i as nat));
            if i < 8 {
                lemma_pow2_small(i as nat);
            }
        }
        factor = factor * 2;
        i = i + 1;
    }
    u64_min(u64_sat_mul(base_delay_ms, factor), max_delay_ms)
}

proof fn lemma_pow2_small(e: nat)
    requires
        e < 8,
    ensures
        pow2(e) <= 128,
{
    reveal_with_fuel(pow2, 9);
    if e == 0 {} else if e == 1 {} else if e == 2 {} else if e == 3 {} else if e == 4 {} else if e == 5 {} else if e == 6 {} else {}
}

/// The base delay plus `entropy` modulo one more than the jitter share of the base delay.
pub open spec fn jitter_spec(base_delay: int, jitter_percent: int, entropy: int) -> int {
    let max_extra = sat_mul(base_delay, jitter_percent) / 100;
    if base_delay == 0 || jitter_percent == 0 || max_extra == 0 {
        base_delay
    } else {
        sat_add(base_delay, entropy % sat_add(max_extra, 1))
    }
}

pub fn jittered_retry_delay_with_entropy(base_delay_ms: u64, jitter_percent: u8, entropy: u64) -> (r: u64)
    ensures
        r == jitter_spec(base_delay_ms as int, jitter_percent as int, entropy as int),
{
    if base_delay_ms == 0 || jitter_percent == 0 {
        return base_delay_ms;
    }
    let max_extra_ms = u64_sat_mul(base_delay_ms, jitter_percent as u64) / 100;
    if max_extra_ms == 0 {
        return base_delay_ms;
    }
    let extra_ms = entropy % u64_sat_add(max_extra_ms, 1);
    u64_sat_add(base_delay_ms, extra_ms)
}

/// Eight random bytes from the operating system, read as a little-endian number; `None`
/// when the system source fails. Calls `getrandom::getrandom`; nothing is promised of the value.
#[verifier::external_body]
fn retry_jitter_entropy() -> Option<u64> {
    let mut bytes = [0_u8; 8];
    getrandom::getrandom(&mut bytes).ok()?;
    Some(u64::from_le_bytes(bytes))
}

/// The base delay with random jitter of at most `jitter_percent` percent added.
pub fn jittered_retry_delay_ms(base_delay_ms: u64, jitter_percent: u8) -> (r: u64)
    ensures
        exists|entropy: u64| r == #[trigger] jitter_spec(base_delay_ms as int, jitter_percent as int, entropy as int),
{
    let entropy = match retry_jitter_entropy() {
        Some(e) => e,
        None => base_delay_ms,
    };
    jittered_retry_delay_with_entropy(base_delay_ms, jitter_percent, entropy)
}

/// How much of a buffer may be written without passing the segment's current end.
#[derive(Clone, Copy, Debug, PartialEq, Eq, Structural)]
pub struct BufferedWritePlan {
    pub bytes_to_write: usize,
    pub boundary_reached: bool,
}

/// Writing `buffered_len` bytes at `current_pos` stops at the inclusive `dynamic_end`.
pub open spec fn buffered_write_spec(current_pos: int, dynamic_end: int, buffered_len: int) -> BufferedWritePlan {
    if buffered_len == 0 {
        BufferedWritePlan { bytes_to_write: 0, boundary_reached: false }
    } else if current_pos > dynamic_end {
        BufferedWritePlan { bytes_to_write: 0, boundary_reached: true }
    } else {
        BufferedWritePlan {
            bytes_to_write: min_int(sat_add(dynamic_end - current_pos, 1), buffered_len) as usize,
            boundary_reached: sat_add(current_pos, buffered_len) > dynamic_end,
        }
    }
}

pub fn plan_buffered_write(current_pos: u64, dynamic_end: u64, buffered_len: usize) -> (plan: BufferedWritePlan)
    ensures
        plan == buffered_write_spec(current_pos as int, dynamic_end as int, buffered_len as int),
        plan.bytes_to_write <= buffered_len,
        plan.bytes_to_write > 0 ==> current_pos + plan.bytes_to_write <= dynamic_end + 1,
{
    if buffered_len == 0 {
        return BufferedWritePlan { bytes_to_write: 0, boundary_reached: false };
    }
    if current_pos > dynamic_end {
        return BufferedWritePlan { bytes_to_write: 0, boundary_reached: true };
    }
    let writable = u64_min(u64_sat_add(dynamic_end - current_pos, 1), buffered_len as u64);
    BufferedWritePlan {
        bytes_to_write: writable as usize,
        boundary_reached: u64_sat_add(current_pos, buffered_len as u64) > dynamic_end,
    }
}

/// Smallest read buffer a worker uses for a base size.
pub open spec fn buffer_floor_spec(base: int) -> int {
    max_int(base / 4, ADAPTIVE_CHUNK_BUFFER_FLOOR_BYTES as int)
}

/// Largest read buffer a worker uses for a base size.
pub open spec fn buffer_ceiling_spec(base: int) -> int {
    clamp_int(min_int(base * 2, usize::MAX as int), buffer_floor_spec(base), ADAPTIVE_CHUNK_BUFFER_CEILING_BYTES as int)
}

pub fn adaptive_chunk_buffer_floor(base_chunk_buffer_size: usize) -> (r: usize)
    ensures
        r == buffer_floor_spec(base_chunk_buffer_size as int),
{
    let quarter = base_chunk_buffer_size / 4;
    if quarter > ADAPTIVE_CHUNK_BUFFER_FLOOR_BYTES { quarter } else { ADAPTIVE_CHUNK_BUFFER_FLOOR_BYTES }
}

pub fn adaptive_chunk_buffer_ceiling(base_chunk_buffer_size: usize) -> (r: usize)
    requires
        buffer_floor_spec(base_chunk_buffer_size as int) <= ADAPTIVE_CHUNK_BUFFER_CEILING_BYTES,
    ensures
        r == buffer_ceiling_spec(base_chunk_buffer_size as int),
        buffer_floor_spec(base_chunk_buffer_size as int) <= r <= ADAPTIVE_CHUNK_BUFFER_CEILING_BYTES,
{
    let floor = adaptive_chunk_buffer_floor(base_chunk_buffer_size);
    let doubled: usize = match base_chunk_buffer_size.checked_mul(2) {
        Some(v) => v,
        None => usize::MAX,
    };
    clamp_usize(doubled, floor, ADAPTIVE_CHUNK_BUFFER_CEILING_BYTES)
}

/// The window (ms) of data a worker buffers: shorter the fuller the disk queue is.
pub open spec fn worker_window_spec(utilization: int) -> int {
    if 85 <= utilization <= 100 {
        16
    } else if 70 <= utilization <= 84 {
        24
    } else if 55 <= utilization <= 69 {
        40
    } else if 0 <= utilization <= 34 {
        72
    } else {
        56
    }
}

/// A worker's read buffer: the bytes its throughput delivers in the window, kept between
/// the floor and ceiling of its base size; the clamped base size without throughput.
pub open spec fn buffer_target_spec(base: int, throughput: int, utilization: int) -> int {
    if throughput == 0 {
        clamp_int(base, buffer_floor_spec(base), buffer_ceiling_spec(base))
    } else {
        clamp_int(ceil_div(sat_mul(throughput, worker_window_spec(utilization)), 1000), buffer_floor_spec(base), buffer_ceiling_spec(base))
    }
}

pub fn adaptive_chunk_buffer_target(
    base_chunk_buffer_size: usize,
    observed_throughput_bytes_per_second: u64,
    queue_utilization_percent: usize,
) -> (r: usize)
    requires
        buffer_floor_spec(base_chunk_buffer_size as int) <= ADAPTIVE_CHUNK_BUFFER_CEILING_BYTES,
    ensures
        r == buffer_target_spec(base_chunk_buffer_size as int, observed_throughput_bytes_per_second as int, queue_utilization_percent as int),
{
    let floor = adaptive_chunk_buffer_floor(base_chunk_buffer_size);
    let ceiling = adaptive_chunk_buffer_ceiling(base_chunk_buffer_size);
    if observed_throughput_bytes_per_second == 0 {
        return clamp_usize(base_chunk_buffer_size, floor, ceiling);
    }
    let u = queue_utilization_percent;
    let target_window_ms: u64 = if 85 <= u && u <= 100 {
        16
    } else if 70 <= u && u <= 84 {
        24
    } else if 55 <= u && u <= 69 {
        40
    } else if u <= 34 {
        72
    } else {
        56
    };
    let target = u64_div_ceil(u64_sat_mul(observed_throughput_bytes_per_second, target_window_ms), 1000);
    if target > ceiling as u64 {
        ceiling
    } else {
        clamp_usize(target as usize, floor, ceiling)
    }
}

} // verus!
