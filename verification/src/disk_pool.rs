//! Pressure signals of the disk write queue and the decisions taken from them.

use vstd::prelude::*;
use crate::arith::{sat_mul, sat_add, sat_sub, ceil_div, max_int, min_int, clamp_int, u64_sat_mul, u64_div_ceil, u32_max};

verus! {

pub const DISK_QUEUE_PRESSURE_WARM_PERCENT: usize = 55;
pub const DISK_QUEUE_PRESSURE_ELEVATED_PERCENT: usize = 70;
pub const DISK_QUEUE_PRESSURE_HIGH_PERCENT: usize = 85;
pub const DISK_QUEUE_PRESSURE_CRITICAL_PERCENT: usize = 92;
pub const DISK_WRITE_LATENCY_WARM_US: u64 = 12_000;
pub const DISK_WRITE_LATENCY_ELEVATED_US: u64 = 24_000;
pub const DISK_WRITE_LATENCY_HIGH_US: u64 = 60_000;
pub const DISK_WRITE_LATENCY_CRITICAL_US: u64 = 150_000;
pub const DISK_WRITE_LATENCY_SUSTAINED_STREAK: usize = 4;
pub const DISK_WRITE_LATENCY_STREAK_FAST_DECAY_STEP: usize = 2;
pub const DISK_WRITE_LATENCY_STREAK_MAX: usize = 16;

/// How far behind the disk writers are, from no pressure to critical.
#[derive(Debug, Clone, Copy, PartialEq, Eq, PartialOrd, Ord, Structural)]
pub enum QueuePressureTier {
    Normal,
    Warm,
    Elevated,
    High,
    Critical,
}

/// The tiers in increasing order of pressure.
pub open spec fn tier_rank(tier: QueuePressureTier) -> int {
    match tier {
        QueuePressureTier::Normal => 0,
        QueuePressureTier::Warm => 1,
        QueuePressureTier::Elevated => 2,
        QueuePressureTier::High => 3,
        QueuePressureTier::Critical => 4,
    }
}

pub fn pressure_rank(tier: QueuePressureTier) -> (r: u8)
    ensures
        r == tier_rank(tier),
{
    match tier {
        QueuePressureTier::Normal => 0,
        QueuePressureTier::Warm => 1,
        QueuePressureTier::Elevated => 2,
        QueuePressureTier::High => 3,
        QueuePressureTier::Critical => 4,
    }
}

/// The higher of two tiers.
pub fn max_tier(a: QueuePressureTier, b: QueuePressureTier) -> (r: QueuePressureTier)
    ensures
        tier_rank(r) == max_int(tier_rank(a), tier_rank(b)),
        r == a || r == b,
{
    if pressure_rank(a) >= pressure_rank(b) { a } else { b }
}

/// Percentage of the queue capacity in use, at most 100; 0 for a queue without capacity.
pub open spec fn utilization_spec(queue_depth: int, capacity: int) -> int {
    if capacity == 0 { 0 } else { min_int(min_int(queue_depth * 100, usize::MAX as int) / capacity, 100) }
}

pub fn queue_utilization_percent_from_counts(queue_depth: usize, capacity: usize) -> (r: usize)
    ensures
        r == utilization_spec(queue_depth as int, capacity as int),
{
    if capacity == 0 {
        return 0;
    }
    let scaled: usize = match queue_depth.checked_mul(100) {
        Some(v) => v,
        None => usize::MAX,
    };
    let v = scaled / capacity;
    if v > 100 { 100 } else { v }
}

/// The tier a queue utilization falls in.
pub open spec fn utilization_tier_spec(utilization: int) -> QueuePressureTier {
    if utilization >= DISK_QUEUE_PRESSURE_CRITICAL_PERCENT && utilization <= 100 {
        QueuePressureTier::Critical
    } else if utilization >= DISK_QUEUE_PRESSURE_HIGH_PERCENT {
        QueuePressureTier::High
    } else if utilization >= DISK_QUEUE_PRESSURE_ELEVATED_PERCENT {
        QueuePressureTier::Elevated
    } else if utilization >= DISK_QUEUE_PRESSURE_WARM_PERCENT {
        QueuePressureTier::Warm
    } else {
        QueuePressureTier::Normal
    }
}

pub fn queue_pressure_tier_from_utilization(utilization_percent: usize) -> (r: QueuePressureTier)
    ensures
        r == utilization_tier_spec(utilization_percent as int),
{
    if utilization_percent >= DISK_QUEUE_PRESSURE_CRITICAL_PERCENT && utilization_percent <= 100 {
        QueuePressureTier::Critical
    } else if utilization_percent >= DISK_QUEUE_PRESSURE_HIGH_PERCENT {
        QueuePressureTier::High
    } else if utilization_percent >= DISK_QUEUE_PRESSURE_ELEVATED_PERCENT {
        QueuePressureTier::Elevated
    } else if utilization_percent >= DISK_QUEUE_PRESSURE_WARM_PERCENT {
        QueuePressureTier::Warm
    } else {
        QueuePressureTier::Normal
    }
}

/// The tier write latency indicates; only a backlog beyond the workers or a sustained streak
/// of slow writes counts.
pub open spec fn latency_tier_spec(pending: int, workers: int, average: int, last: int, streak: int) -> QueuePressureTier {
    let has_backlog = pending > max_int(workers, 1);
    let sustained = streak >= DISK_WRITE_LATENCY_SUSTAINED_STREAK;
    if pending == 0 || (!has_backlog && !sustained) {
        QueuePressureTier::Normal
    } else if average >= DISK_WRITE_LATENCY_CRITICAL_US || (last >= DISK_WRITE_LATENCY_CRITICAL_US && streak >= 2) {
        QueuePressureTier::Critical
    } else if average >= DISK_WRITE_LATENCY_HIGH_US || (last >= DISK_WRITE_LATENCY_HIGH_US && sustained) {
        QueuePressureTier::High
    } else if average >= DISK_WRITE_LATENCY_ELEVATED_US || streak >= 2 * DISK_WRITE_LATENCY_SUSTAINED_STREAK {
        QueuePressureTier::Elevated
    } else if average >= DISK_WRITE_LATENCY_WARM_US || sustained {
        QueuePressureTier::Warm
    } else {
        QueuePressureTier::Normal
    }
}

pub fn write_latency_pressure_tier(
    pending_writes: usize,
    worker_count: usize,
    average_write_micros: u64,
    last_write_micros: u64,
    slow_write_streak: usize,
) -> (r: QueuePressureTier)
    ensures
        r == latency_tier_spec(pending_writes as int, worker_count as int, average_write_micros as int, last_write_micros as int, slow_write_streak as int),
{
    if pending_writes == 0 {
        return QueuePressureTier::Normal;
    }
    let workers: usize = if worker_count > 1 { worker_count } else { 1 };
    let has_backlog = pending_writes > workers;
    let sustained_pressure = slow_write_streak >= DISK_WRITE_LATENCY_SUSTAINED_STREAK;
    if !has_backlog && !sustained_pressure {
        return QueuePressureTier::Normal;
    }
    if average_write_micros >= DISK_WRITE_LATENCY_CRITICAL_US
        || (last_write_micros >= DISK_WRITE_LATENCY_CRITICAL_US && slow_write_streak >= 2) {
        return QueuePressureTier::Critical;
    }
    if average_write_micros >= DISK_WRITE_LATENCY_HIGH_US
        || (last_write_micros >= DISK_WRITE_LATENCY_HIGH_US && sustained_pressure) {
        return QueuePressureTier::High;
    }
    if average_write_micros >= DISK_WRITE_LATENCY_ELEVATED_US
        || slow_write_streak >= DISK_WRITE_LATENCY_SUSTAINED_STREAK * 2 {
        return QueuePressureTier::Elevated;
    }
    if average_write_micros >= DISK_WRITE_LATENCY_WARM_US || sustained_pressure {
        return QueuePressureTier::Warm;
    }
    QueuePressureTier::Normal
}

/// The pool's tier: the higher of the queue-fill tier and the write-latency tier.
pub fn pool_pressure_tier(
    queue_depth: usize,
    capacity: usize,
    pending_writes: usize,
    worker_count: usize,
    average_write_micros: u64,
    last_write_micros: u64,
    slow_write_streak: usize,
) -> (r: QueuePressureTier)
    ensures
        tier_rank(r) == max_int(
            tier_rank(utilization_tier_spec(utilization_spec(queue_depth as int, capacity as int))),
            tier_rank(latency_tier_spec(pending_writes as int, worker_count as int, average_write_micros as int, last_write_micros as int, slow_write_streak as int)),
        ),
{
    max_tier(
        queue_pressure_tier_from_utilization(queue_utilization_percent_from_counts(queue_depth, capacity)),
        write_latency_pressure_tier(pending_writes, worker_count, average_write_micros, last_write_micros, slow_write_streak),
    )
}

/// The slow-write streak after a write that took `elapsed` microseconds: slow writes add to
/// it by how slow they were, fast ones let it decay, and it never exceeds its cap.
pub open spec fn next_streak_spec(previous: int, elapsed: int) -> int {
    let next = if elapsed >= DISK_WRITE_LATENCY_CRITICAL_US {
        min_int(previous + 3, usize::MAX as int)
    } else if elapsed >= DISK_WRITE_LATENCY_HIGH_US {
        min_int(previous + 2, usize::MAX as int)
    } else if elapsed >= DISK_WRITE_LATENCY_ELEVATED_US {
        min_int(previous + 1, usize::MAX as int)
    } else if elapsed >= DISK_WRITE_LATENCY_WARM_US {
        sat_sub(previous, 1)
    } else {
        sat_sub(previous, DISK_WRITE_LATENCY_STREAK_FAST_DECAY_STEP as int)
    };
    min_int(next, DISK_WRITE_LATENCY_STREAK_MAX as int)
}

pub fn next_slow_write_streak(previous: usize, elapsed_micros: u64) -> (r: usize)
    ensures
        r == next_streak_spec(previous as int, elapsed_micros as int),
        r <= DISK_WRITE_LATENCY_STREAK_MAX,
{
    let next: usize = if elapsed_micros >= DISK_WRITE_LATENCY_CRITICAL_US {
        previous.saturating_add(3)
    } else if elapsed_micros >= DISK_WRITE_LATENCY_HIGH_US {
        previous.saturating_add(2)
    } else if elapsed_micros >= DISK_WRITE_LATENCY_ELEVATED_US {
        previous.saturating_add(1)
    } else if elapsed_micros >= DISK_WRITE_LATENCY_WARM_US {
        previous.saturating_sub(1)
    } else {
        previous.saturating_sub(DISK_WRITE_LATENCY_STREAK_FAST_DECAY_STEP)
    };
    if next > DISK_WRITE_LATENCY_STREAK_MAX { DISK_WRITE_LATENCY_STREAK_MAX } else { next }
}

/// The running average write time after a new write: the new sample alone at first,
/// then seven parts old to one part new.
pub open spec fn next_average_spec(previous: int, elapsed: int) -> int {
    if previous == 0 { elapsed } else { sat_add(sat_mul(previous, 7), elapsed) / 8 }
}

pub fn next_average_write_micros(previous: u64, elapsed_micros: u64) -> (r: u64)
    ensures
        r == next_average_spec(previous as int, elapsed_micros as int),
{
    if previous == 0 {
        elapsed_micros
    } else {
        crate::arith::u64_sat_add(u64_sat_mul(previous, 7), elapsed_micros) / 8
    }
}

/// The time window of data one read buffer should hold: the larger of what queue
/// utilization and the pressure tier call for.
pub open spec fn target_window_spec(utilization: int, tier: QueuePressureTier) -> int {
    let queue_window = if 85 <= utilization <= 100 {
        128
    } else if 70 <= utilization <= 84 {
        96
    } else if 55 <= utilization <= 69 {
        64
    } else if 0 <= utilization <= 34 {
        32
    } else {
        48
    };
    let pressure_window = match tier {
        QueuePressureTier::Normal => 32,
        QueuePressureTier::Warm => 64,
        QueuePressureTier::Elevated => 96,
        QueuePressureTier::High | QueuePressureTier::Critical => 128,
    };
    max_int(queue_window, pressure_window)
}

pub fn chunk_buffer_target_window_ms_for_signals(queue_utilization_percent: usize, pressure_tier: QueuePressureTier) -> (r: u64)
    ensures
        r == target_window_spec(queue_utilization_percent as int, pressure_tier),
        32 <= r <= 128,
{
    let u = queue_utilization_percent;
    let queue_window_ms: u64 = if 85 <= u && u <= 100 {
        128
    } else if 70 <= u && u <= 84 {
        96
    } else if 55 <= u && u <= 69 {
        64
    } else if u <= 34 {
        32
    } else {
        48
    };
    let pressure_window_ms: u64 = match pressure_tier {
        QueuePressureTier::Normal => 32,
        QueuePressureTier::Warm => 64,
        QueuePressureTier::Elevated => 96,
        QueuePressureTier::High | QueuePressureTier::Critical => 128,
    };
    if queue_window_ms >= pressure_window_ms { queue_window_ms } else { pressure_window_ms }
}

/// The read buffer size: the bytes arriving during the target window at the observed
/// throughput, kept within `[floor, ceiling]`; the base size (clamped) when nothing arrives.
pub open spec fn adaptive_buffer_spec(base: int, throughput: int, floor: int, ceiling: int, utilization: int, tier: QueuePressureTier) -> int {
    if throughput == 0 {
        clamp_int(base, floor, ceiling)
    } else {
        clamp_int(ceil_div(sat_mul(throughput, target_window_spec(utilization, tier)), 1000), floor, ceiling)
    }
}

pub fn adaptive_chunk_buffer_size(
    base_chunk_buffer_size: usize,
    throughput_bytes_per_second: u64,
    floor: usize,
    ceiling: usize,
    queue_utilization_percent: usize,
    pressure_tier: QueuePressureTier,
) -> (r: usize)
    requires
        floor <= ceiling,
    ensures
        r == adaptive_buffer_spec(base_chunk_buffer_size as int, throughput_bytes_per_second as int, floor as int, ceiling as int, queue_utilization_percent as int, pressure_tier),
        floor <= r <= ceiling,
{
    if throughput_bytes_per_second == 0 {
        return clamp_usize(base_chunk_buffer_size, floor, ceiling);
    }
    let target_window_ms = chunk_buffer_target_window_ms_for_signals(queue_utilization_percent, pressure_tier);
    let target = u64_div_ceil(u64_sat_mul(throughput_bytes_per_second, target_window_ms), 1000);
    if target > ceiling as u64 {
        ceiling
    } else {
        clamp_usize(target as usize, floor, ceiling)
    }
}

/// `value.clamp(floor, ceiling)`.
pub fn clamp_usize(value: usize, floor: usize, ceiling: usize) -> (r: usize)
    requires
        floor <= ceiling,
    ensures
        r == clamp_int(value as int, floor as int, ceiling as int),
{
    if value < floor { floor } else if value > ceiling { ceiling } else { value }
}

/// Workers a transfer may keep under the given pressure: all of them under normal or warm
/// pressure, one fewer when elevated, a third fewer when high and a single one when critical.
pub open spec fn parallelism_spec(requested: int, tier: QueuePressureTier) -> int {
    let requested = max_int(requested, 1);
    match tier {
        QueuePressureTier::Normal | QueuePressureTier::Warm => requested,
        QueuePressureTier::Elevated => max_int(requested - 1, 1),
        QueuePressureTier::High => max_int(requested - ceil_div(requested, 3), 1),
        QueuePressureTier::Critical => 1,
    }
}

pub fn recommended_parallelism_for_pressure(requested_parallelism: u32, pressure_tier: QueuePressureTier) -> (r: u32)
    ensures
        r == parallelism_spec(requested_parallelism as int, pressure_tier),
        1 <= r <= max_int(requested_parallelism as int, 1),
{
    let requested = u32_max(requested_parallelism, 1);
    match pressure_tier {
        QueuePressureTier::Normal | QueuePressureTier::Warm => requested,
        QueuePressureTier::Elevated => if requested - 1 > 1 { requested - 1 } else { 1 },
        QueuePressureTier::High => {
            let reduction = ((requested as u64 + 2) / 3) as u32;
            assert(reduction == ceil_div(requested as int, 3));
            if requested - reduction > 1 { requested - reduction } else { 1 }
        },
        QueuePressureTier::Critical => 1,
    }
}

/// Number of disk writer threads for the machine's parallelism: a quarter of it, between one and four.
pub fn disk_worker_count_from_parallelism(parallelism: usize) -> (r: usize)
    ensures
        r == clamp_int(parallelism as int / 4, 1, 4),
{
    let quarter = parallelism / 4;
    if quarter < 1 { 1 } else if quarter > 4 { 4 } else { quarter }
}

/// Higher pressure never allows more parallel workers.
pub proof fn lemma_parallelism_monotone(requested: int, lower: QueuePressureTier, higher: QueuePressureTier)
    requires
        tier_rank(lower) <= tier_rank(higher),
    ensures
        parallelism_spec(requested, higher) <= parallelism_spec(requested, lower),
        1 <= parallelism_spec(requested, higher),
{
}

/// A fuller queue never falls into a lower tier.
pub proof fn lemma_utilization_tier_monotone(a: int, b: int)
    requires
        0 <= a <= b <= 100,
    ensures
        tier_rank(utilization_tier_spec(a)) <= tier_rank(utilization_tier_spec(b)),
{
}

} // verus!
