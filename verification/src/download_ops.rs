//! Bookkeeping on a download: progress resets, queue positions, the engine log and the
//! runtime checkpoint.

use vstd::prelude::*;
use crate::arith::u32_sat_add;
use crate::chars::{string_from_chars, trim_chars, trim_ws, TrimClass};
use crate::download::{
    DownloadIntegrity, DownloadLogEntry, DownloadLogLevel, DownloadRecord, DownloadRuntimeCheckpoint,
    DownloadRuntimeRaceState, DownloadRuntimeSegmentSample, IntegrityState,
};
use crate::host_planner::unix_epoch_millis;
use crate::model::{opt_text, DownloadSegment, DownloadSegmentStatus};
use crate::text::chars_of;

verus! {

pub const RUNTIME_SEGMENT_RETRY_BUDGET: u32 = 6;
pub const ENGINE_LOG_LIMIT: usize = 64;

/// A text trimmed, or `None` when nothing is left.
pub open spec fn non_empty_spec(value: Seq<char>) -> Option<Seq<char>> {
    if trim_ws(value).len() == 0 { None } else { Some(trim_ws(value)) }
}

pub fn non_empty(value: String) -> (r: Option<String>)
    ensures
        opt_text(r) == non_empty_spec(value@),
{
    let all = chars_of(value.as_str());
    let t = trim_chars(all.as_slice(), TrimClass::WhiteSpace);
    if t.len() == 0 { None } else { Some(string_from_chars(t.as_slice())) }
}

/// A segment rewound to its start, with a fresh retry count (and the default budget when it had none).
pub open spec fn rewound_segment(s: DownloadSegment) -> DownloadSegment {
    DownloadSegment {
        downloaded: 0,
        retry_attempts: 0,
        retry_budget: if s.retry_budget == 0 { RUNTIME_SEGMENT_RETRY_BUDGET } else { s.retry_budget },
        status: DownloadSegmentStatus::Pending,
        ..s
    }
}

pub open spec fn rewound_segments(segs: Seq<DownloadSegment>) -> Seq<DownloadSegment> {
    segs.map_values(|s: DownloadSegment| rewound_segment(s))
}

/// What a reset leaves of an integrity check: the expectation, without any observation.
pub open spec fn reset_integrity_spec(i: DownloadIntegrity) -> DownloadIntegrity {
    DownloadIntegrity { actual: None, checked_at: None, state: IntegrityState::NoChecksum, message: None, ..i }
}

/// Progress discarded: nothing downloaded, the integrity observation dropped, every segment rewound.
pub open spec fn reset_progress_spec(d: DownloadRecord) -> DownloadRecord {
    DownloadRecord { downloaded: 0, integrity: reset_integrity_spec(d.integrity), ..d }
}

pub fn reset_download_progress(download: &mut DownloadRecord)
    ensures
        final(download).segments@ == rewound_segments(old(download).segments@),
        *final(download) == (DownloadRecord { segments: final(download).segments, ..reset_progress_spec(*old(download)) }),
{
    download.downloaded = 0;
    download.integrity.actual = None;
    download.integrity.checked_at = None;
    download.integrity.state = IntegrityState::NoChecksum;
    download.integrity.message = None;
    let ghost before = download.segments@;
    let mut i: usize = 0;
    while i < download.segments.len()
        invariant
            *download == (DownloadRecord { segments: download.segments, ..reset_progress_spec(*old(download)) }),
            before == old(download).segments@,
            i <= download.segments@.len(),
            download.segments@.len() == before.len(),
            forall|k: int| 0 <= k < i ==> download.segments@[k] == rewound_segment(before[k]),
            forall|k: int| i <= k < before.len() ==> download.segments@[k] == before[k],
        decreases before.len() - i,
    {
        let mut s = download.segments[i];
        s.downloaded = 0;
        s.retry_attempts = 0;
        if s.retry_budget == 0 {
            s.retry_budget = RUNTIME_SEGMENT_RETRY_BUDGET;
        }
        s.status = DownloadSegmentStatus::Pending;
        download.segments.set(i, s);
        i = i + 1;
    }
    assert(download.segments@ =~= rewound_segments(before));
}

pub fn reset_download_transient_state(download: &mut DownloadRecord)
    ensures
        *final(download) == (DownloadRecord { speed: 0, time_left: None, writer_backpressure: false, ..*old(download) }),
{
    download.speed = 0;
    download.time_left = None;
    download.writer_backpressure = false;
}

pub open spec fn clear_terminal_spec(d: DownloadRecord) -> DownloadRecord {
    DownloadRecord {
        error_message: None,
        diagnostics: crate::download::DownloadDiagnostics { terminal_reason: None, ..d.diagnostics },
        ..d
    }
}

pub fn clear_download_terminal_state(download: &mut DownloadRecord)
    ensures
        *final(download) == clear_terminal_spec(*old(download)),
{
    download.error_message = None;
    download.diagnostics.terminal_reason = None;
}

/// The largest queue position among `downloads[..n]` (0 when there is none).
pub open spec fn max_position(downloads: Seq<DownloadRecord>, n: int) -> u32
    decreases n,
{
    if n <= 0 {
        0
    } else {
        let m = max_position(downloads, n - 1);
        if downloads[n - 1].queue_position > m { downloads[n - 1].queue_position } else { m }
    }
}

/// The position after every queued download.
pub fn next_queue_position(downloads: &Vec<DownloadRecord>) -> (r: u32)
    ensures
        r == crate::host_planner::sat_add_u32(max_position(downloads@, downloads@.len() as int) as int, 1),
{
    let mut m: u32 = 0;
    let mut i: usize = 0;
    while i < downloads.len()
        invariant
            i <= downloads@.len(),
            m == max_position(downloads@, i as int),
        decreases downloads@.len() - i,
    {
        if downloads[i].queue_position > m {
            m = downloads[i].queue_position;
        }
        i = i + 1;
    }
    u32_sat_add(m, 1)
}

/// The position of the download at index `i` in a normalized queue.
pub open spec fn normalized_position(i: int) -> int {
    if i >= u32::MAX { u32::MAX as int } else { i + 1 }
}

/// Whether the downloads hold positions 1, 2, 3, ... in order.
pub open spec fn positions_normalized(downloads: Seq<DownloadRecord>) -> bool {
    forall|i: int| 0 <= i < downloads.len() ==> #[trigger] downloads[i].queue_position == normalized_position(i)
}

pub fn queue_positions_are_normalized(downloads: &Vec<DownloadRecord>) -> (r: bool)
    ensures
        r == positions_normalized(downloads@),
{
    let mut i: usize = 0;
    while i < downloads.len()
        invariant
            i <= downloads@.len(),
            forall|k: int| 0 <= k < i ==> #[trigger] downloads@[k].queue_position == normalized_position(k),
        decreases downloads@.len() - i,
    {
        let expected: u32 = if i >= 0xffff_ffff { 0xffff_ffff } else { i as u32 + 1 };
        if downloads[i].queue_position != expected {
            return false;
        }
        i = i + 1;
    }
    true
}

/// Whether text `a` sorts before text `b` (character by character, a prefix first).
pub open spec fn text_less(a: Seq<char>, b: Seq<char>) -> bool
    decreases a.len(),
{
    if b.len() == 0 {
        false
    } else if a.len() == 0 {
        true
    } else if a[0] != b[0] {
        a[0] < b[0]
    } else {
        text_less(a.drop_first(), b.drop_first())
    }
}

pub(crate) fn text_less_exec(a: &[char], b: &[char]) -> (r: bool)
    ensures
        r == text_less(a@, b@),
{
    let mut i: usize = 0;
    assert(a@.skip(0) =~= a@);
    assert(b@.skip(0) =~= b@);
    while i < a.len() && i < b.len() && a[i] == b[i]
        invariant
            i <= a@.len() && i <= b@.len(),
            text_less(a@, b@) == text_less(a@.skip(i as int), b@.skip(i as int)),
        decreases a@.len() - i,
    {
        assert(a@.skip(i as int).drop_first() =~= a@.skip(i + 1));
        assert(b@.skip(i as int).drop_first() =~= b@.skip(i + 1));
        i = i + 1;
    }
    if i == b.len() {
        return false;
    }
    if i == a.len() {
        return true;
    }
    a[i] < b[i]
}

/// The order of a queue: by position, then by when added, then by id.
pub open spec fn queue_before(x: DownloadRecord, y: DownloadRecord) -> bool {
    x.queue_position < y.queue_position
        || (x.queue_position == y.queue_position && (x.date_added < y.date_added
            || (x.date_added == y.date_added && text_less(x.id@, y.id@))))
}

fn queue_before_exec(x: &DownloadRecord, y: &DownloadRecord) -> (r: bool)
    ensures
        r == queue_before(*x, *y),
{
    if x.queue_position != y.queue_position {
        return x.queue_position < y.queue_position;
    }
    if x.date_added != y.date_added {
        return x.date_added < y.date_added;
    }
    let a = chars_of(x.id.as_str());
    let b = chars_of(y.id.as_str());
    text_less_exec(a.as_slice(), b.as_slice())
}

/// No download sorts before an earlier one.
pub open spec fn queue_sorted(s: Seq<DownloadRecord>) -> bool {
    forall|i: int, j: int| 0 <= i < j < s.len() ==> !queue_before(#[trigger] s[j], #[trigger] s[i])
}

/// Sorts the downloads by position, time added and id, then numbers them 1, 2, 3, ...
pub fn normalize_queue_positions(downloads: &mut Vec<DownloadRecord>)
    ensures
        final(downloads)@.len() == old(downloads)@.len(),
        positions_normalized(final(downloads)@),
        exists|sorted: Seq<DownloadRecord>| {
            &&& sorted.to_multiset() == old(downloads)@.to_multiset()
            &&& queue_sorted(sorted)
            &&& sorted.len() == final(downloads)@.len()
            &&& forall|i: int| 0 <= i < sorted.len() ==> #[trigger] final(downloads)@[i]
                == (DownloadRecord { queue_position: normalized_position(i) as u32, ..sorted[i] })
        },
{
    broadcast use vstd::seq_lib::group_to_multiset_ensures;
    let ghost original = downloads@;
    let mut sorted: Vec<DownloadRecord> = Vec::new();
    while downloads.len() > 0
        invariant
            sorted@.to_multiset().add(downloads@.to_multiset()) == original.to_multiset(),
            queue_sorted(sorted@),
            sorted@.len() + downloads@.len() == original.len(),
        decreases downloads@.len(),
    {
        let ghost d_before = downloads@;
        let ghost s_before = sorted@;
        let item = downloads.remove(0);
        let mut pos: usize = sorted.len();
        while pos > 0 && queue_before_exec(&item, &sorted[pos - 1])
            invariant
                pos <= sorted@.len(),
                forall|k: int| pos <= k < sorted@.len() ==> queue_before(item, #[trigger] sorted@[k]),
            decreases pos,
        {
            pos = pos - 1;
        }
        let ghost before = sorted@;
        sorted.insert(pos, item);
        proof {
            assert(d_before[0] == item);
            assert(d_before.contains(item));
            vstd::seq_lib::to_multiset_contains(d_before, item);
            vstd::seq_lib::to_multiset_insert(before, pos as int, item);
            vstd::seq_lib::to_multiset_remove(d_before, 0);
            assert(sorted@ == before.insert(pos as int, item));
            assert(downloads@ == d_before.remove(0));
            assert(sorted@.to_multiset() =~= s_before.to_multiset().insert(item));
            assert(downloads@.to_multiset() =~= d_before.to_multiset().remove(item));
            assert(sorted@.to_multiset().add(downloads@.to_multiset()) =~= s_before.to_multiset().add(d_before.to_multiset()));
            assert forall|i: int, j: int| 0 <= i < j < sorted@.len() implies !queue_before(#[trigger] sorted@[j], #[trigger] sorted@[i]) by {
                lemma_queue_order(before, pos as int, item, i, j);
            }
        }
    }
    let ghost sorted_view = sorted@;
    let mut i: usize = 0;
    while i < sorted.len()
        invariant
            i <= sorted@.len(),
            sorted@.len() == sorted_view.len(),
            forall|k: int| 0 <= k < i ==> #[trigger] sorted@[k]
                == (DownloadRecord { queue_position: normalized_position(k) as u32, ..sorted_view[k] }),
            forall|k: int| i <= k < sorted@.len() ==> sorted@[k] == sorted_view[k],
        decreases sorted@.len() - i,
    {
        let position: u32 = if i >= 0xffff_ffff { 0xffff_ffff } else { i as u32 + 1 };
        let mut d = sorted.remove(i);
        d.queue_position = position;
        sorted.insert(i, d);
        i = i + 1;
    }
    *downloads = sorted;
    assert(original.to_multiset() == sorted_view.to_multiset()) by {
        assert(Seq::<DownloadRecord>::empty().to_multiset() =~= vstd::multiset::Multiset::empty());
    }
}

/// Inserting an item before every item it sorts before (and after the rest, which are
/// sorted) keeps a sorted list sorted.
proof fn lemma_queue_order(before: Seq<DownloadRecord>, pos: int, item: DownloadRecord, i: int, j: int)
    requires
        0 <= pos <= before.len(),
        queue_sorted(before),
        forall|k: int| pos <= k < before.len() ==> queue_before(item, #[trigger] before[k]),
        pos > 0 ==> !queue_before(item, before[pos - 1]),
        0 <= i < j < before.len() + 1,
    ensures
        !queue_before(before.insert(pos, item)[j], before.insert(pos, item)[i]),
{
    let s = before.insert(pos, item);
    if i == pos {
        assert(s[j] == before[j - 1]);
        assert(queue_before(item, before[j - 1]));
        lemma_queue_before_asym(item, before[j - 1]);
    } else if j == pos {
        assert(s[i] == before[i]);
        if i < pos - 1 {
            assert(!queue_before(before[pos - 1], before[i]));
        } else {
            lemma_queue_before_asym(before[i], before[i]);
        }
        lemma_queue_le_trans(before[i], before[pos - 1], item);
    } else {
        let bi = if i < pos { i } else { i - 1 };
        let bj = if j < pos { j } else { j - 1 };
        assert(s[i] == before[bi]);
        assert(s[j] == before[bj]);
    }
}

pub(crate) proof fn lemma_text_less_irrefl(a: Seq<char>)
    ensures
        !text_less(a, a),
    decreases a.len(),
{
    if a.len() > 0 {
        lemma_text_less_irrefl(a.drop_first());
    }
}

pub(crate) proof fn lemma_text_less_asym(a: Seq<char>, b: Seq<char>)
    ensures
        !(text_less(a, b) && text_less(b, a)),
    decreases a.len(),
{
    if a.len() > 0 && b.len() > 0 && a[0] == b[0] {
        lemma_text_less_asym(a.drop_first(), b.drop_first());
    }
}

pub(crate) proof fn lemma_text_less_total(a: Seq<char>, b: Seq<char>)
    ensures
        a == b || text_less(a, b) || text_less(b, a),
    decreases a.len(),
{
    if a.len() == 0 && b.len() == 0 {
        assert(a =~= b);
    } else if a.len() > 0 && b.len() > 0 {
        if a[0] == b[0] {
            lemma_text_less_total(a.drop_first(), b.drop_first());
            if a.drop_first() == b.drop_first() {
                assert(a =~= seq![a[0]] + a.drop_first());
                assert(b =~= seq![b[0]] + b.drop_first());
                assert(a =~= b);
            }
        }
    }
}

pub(crate) proof fn lemma_text_less_trans(a: Seq<char>, b: Seq<char>, c: Seq<char>)
    requires
        text_less(a, b),
        text_less(b, c),
    ensures
        text_less(a, c),
    decreases a.len(),
{
    if a.len() > 0 && b.len() > 0 && c.len() > 0 && a[0] == b[0] && b[0] == c[0] {
        lemma_text_less_trans(a.drop_first(), b.drop_first(), c.drop_first());
    }
}

/// `a <= b <= c` in text order, so `a <= c`.
proof fn lemma_text_le_trans(a: Seq<char>, b: Seq<char>, c: Seq<char>)
    requires
        !text_less(b, a),
        !text_less(c, b),
    ensures
        !text_less(c, a),
{
    lemma_text_less_total(a, b);
    if text_less(c, a) && text_less(a, b) {
        lemma_text_less_trans(c, a, b);
    }
}

proof fn lemma_queue_before_asym(x: DownloadRecord, y: DownloadRecord)
    ensures
        queue_before(x, y) ==> !queue_before(y, x),
        !queue_before(x, x),
{
    lemma_text_less_asym(x.id@, y.id@);
    lemma_text_less_irrefl(x.id@);
}

/// `x <= y <= z` in queue order, so `x <= z`.
proof fn lemma_queue_le_trans(x: DownloadRecord, y: DownloadRecord, z: DownloadRecord)
    requires
        !queue_before(y, x),
        !queue_before(z, y),
    ensures
        !queue_before(z, x),
{
    if x.queue_position == y.queue_position && y.queue_position == z.queue_position && x.date_added == y.date_added
        && y.date_added == z.date_added {
        lemma_text_le_trans(x.id@, y.id@, z.id@);
    }
}

/// A log line as values.
pub open spec fn entry_view(e: DownloadLogEntry) -> (i64, DownloadLogLevel, Seq<char>, Seq<char>) {
    (e.timestamp, e.level, e.code@, e.message@)
}

pub open spec fn log_view(log: Seq<DownloadLogEntry>) -> Seq<(i64, DownloadLogLevel, Seq<char>, Seq<char>)> {
    log.map_values(|e: DownloadLogEntry| entry_view(e))
}

/// A log after a line: the same line as the last one only has its time updated; a new line
/// is appended, and the oldest lines are dropped beyond the limit.
pub open spec fn log_append_spec(
    log: Seq<(i64, DownloadLogLevel, Seq<char>, Seq<char>)>,
    level: DownloadLogLevel,
    code: Seq<char>,
    message: Seq<char>,
    now: i64,
) -> Seq<(i64, DownloadLogLevel, Seq<char>, Seq<char>)> {
    if log.len() > 0 && log.last().1 == level && log.last().2 == code && log.last().3 == message {
        log.update(log.len() - 1, (now, level, code, message))
    } else {
        let pushed = log.push((now, level, code, message));
        if pushed.len() > ENGINE_LOG_LIMIT { pushed.skip(pushed.len() - ENGINE_LOG_LIMIT) } else { pushed }
    }
}

/// Appends a line to an engine log, stamped `now`.
pub fn append_log_line(log: &mut Vec<DownloadLogEntry>, level: DownloadLogLevel, code: &str, message: &str, now: i64)
    ensures
        log_view(final(log)@) == log_append_spec(log_view(old(log)@), level, code@, message@, now),
{
    let ghost before = log@;
    let len = log.len();
    if len > 0 {
        let last = &log[len - 1];
        if last.level == level && crate::text::str_equal(last.code.as_str(), code)
            && crate::text::str_equal(last.message.as_str(), message) {
            let entry = DownloadLogEntry { timestamp: now, level, code: last.code.clone(), message: last.message.clone() };
            log.set(len - 1, entry);
            assert(log_view(log@) =~= log_view(before).update(len - 1, (now, level, code@, message@)));
            return;
        }
    }
    let entry = DownloadLogEntry { timestamp: now, level, code: code.to_owned(), message: message.to_owned() };
    log.push(entry);
    assert(log_view(log@) =~= log_view(before).push((now, level, code@, message@)));
    let ghost pushed = log@;
    assert(log_view(pushed).skip(0) =~= log_view(pushed));
    while log.len() > ENGINE_LOG_LIMIT
        invariant
            log@.len() <= pushed.len(),
            log@.len() >= ENGINE_LOG_LIMIT || log@.len() == pushed.len(),
            log_view(log@) == log_view(pushed).skip(pushed.len() - log@.len()),
        decreases log@.len(),
    {
        let ghost cur = log@;
        log.remove(0);
        assert(log_view(cur.remove(0)) =~= log_view(cur).skip(1));
        assert(log_view(pushed).skip(pushed.len() - cur.len()).skip(1) =~= log_view(pushed).skip(pushed.len() - cur.len() + 1));
        assert(log_view(log@) =~= log_view(pushed).skip(pushed.len() - log@.len()));
    }
}

/// Appends a line to a download's engine log, stamped `now`.
pub fn append_download_log_at(download: &mut DownloadRecord, level: DownloadLogLevel, code: &str, message: &str, now: i64)
    ensures
        log_view(final(download).engine_log@) == log_append_spec(log_view(old(download).engine_log@), level, code@, message@, now),
        *final(download) == (DownloadRecord { engine_log: final(download).engine_log, ..*old(download) }),
{
    append_log_line(&mut download.engine_log, level, code, message, now);
}

/// Appends a line to a download's engine log, stamped with the current time.
pub fn append_download_log(download: &mut DownloadRecord, level: DownloadLogLevel, code: &str, message: &str)
    ensures
        exists|now: i64| log_view(final(download).engine_log@)
            == log_append_spec(log_view(old(download).engine_log@), level, code@, message@, now),
        *final(download) == (DownloadRecord { engine_log: final(download).engine_log, ..*old(download) }),
{
    let now = unix_epoch_millis();
    append_download_log_at(download, level, code, message, now);
}

pub fn clear_runtime_checkpoint(download: &mut DownloadRecord)
    ensures
        final(download).runtime_checkpoint.segment_samples@.len() == 0,
        final(download).runtime_checkpoint.active_races@.len() == 0,
        *final(download) == (DownloadRecord { runtime_checkpoint: final(download).runtime_checkpoint, ..*old(download) }),
{
    download.runtime_checkpoint = DownloadRuntimeCheckpoint::default();
}

/// Index of the first sample of segment `id` in `samples[i..]`.
pub open spec fn sample_index_from(samples: Seq<DownloadRuntimeSegmentSample>, id: u32, i: int) -> Option<int>
    decreases samples.len() - i,
{
    if i < 0 || i >= samples.len() {
        None
    } else if samples[i].segment_id == id {
        Some(i)
    } else {
        sample_index_from(samples, id, i + 1)
    }
}

pub proof fn lemma_sample_index_bounds(samples: Seq<DownloadRuntimeSegmentSample>, id: u32, i: int)
    ensures
        sample_index_from(samples, id, i) matches Some(j) ==> i <= j < samples.len() && samples[j].segment_id == id,
    decreases samples.len() - i,
{
    if 0 <= i < samples.len() && samples[i].segment_id != id {
        lemma_sample_index_bounds(samples, id, i + 1);
    }
}

fn find_sample(samples: &Vec<DownloadRuntimeSegmentSample>, id: u32) -> (r: Option<usize>)
    ensures
        match r {
            Some(i) => sample_index_from(samples@, id, 0) == Some(i as int) && i < samples@.len(),
            None => sample_index_from(samples@, id, 0) is None,
        },
{
    let mut i: usize = 0;
    while i < samples.len()
        invariant
            i <= samples@.len(),
            sample_index_from(samples@, id, 0) == sample_index_from(samples@, id, i as int),
        decreases samples@.len() - i,
    {
        if samples[i].segment_id == id {
            return Some(i);
        }
        i = i + 1;
    }
    None
}

/// The samples after recording what the runtime measured of a segment: its first sample is
/// updated (keeping its retry state), or a new one is appended.
pub open spec fn sample_upsert_spec(samples: Seq<DownloadRuntimeSegmentSample>, s: crate::scheduler::SegmentRuntimeSample) -> Seq<DownloadRuntimeSegmentSample> {
    match sample_index_from(samples, s.segment_id, 0) {
        Some(i) => samples.update(i, DownloadRuntimeSegmentSample {
            remaining_bytes: s.remaining_bytes,
            eta_seconds: s.eta_seconds,
            throughput_bytes_per_second: s.throughput_bytes_per_second,
            ..samples[i]
        }),
        None => samples.push(DownloadRuntimeSegmentSample {
            segment_id: s.segment_id,
            remaining_bytes: s.remaining_bytes,
            eta_seconds: s.eta_seconds,
            throughput_bytes_per_second: s.throughput_bytes_per_second,
            retry_attempts: 0,
            terminal_failure_reason: None,
        }),
    }
}

pub fn upsert_runtime_segment_sample(checkpoint: &mut DownloadRuntimeCheckpoint, sample: &crate::scheduler::SegmentRuntimeSample)
    ensures
        final(checkpoint).segment_samples@ == sample_upsert_spec(old(checkpoint).segment_samples@, *sample),
        final(checkpoint).active_races == old(checkpoint).active_races,
{
    proof { lemma_sample_index_bounds(checkpoint.segment_samples@, sample.segment_id, 0); }
    match find_sample(&checkpoint.segment_samples, sample.segment_id) {
        Some(i) => {
            let existing = &checkpoint.segment_samples[i];
            let updated = DownloadRuntimeSegmentSample {
                segment_id: existing.segment_id,
                remaining_bytes: sample.remaining_bytes,
                eta_seconds: sample.eta_seconds,
                throughput_bytes_per_second: sample.throughput_bytes_per_second,
                retry_attempts: existing.retry_attempts,
                terminal_failure_reason: crate::scopes::copy_opt_string(&existing.terminal_failure_reason),
            };
            checkpoint.segment_samples.set(i, updated);
        },
        None => {
            checkpoint.segment_samples.push(DownloadRuntimeSegmentSample {
                segment_id: sample.segment_id,
                remaining_bytes: sample.remaining_bytes,
                eta_seconds: sample.eta_seconds,
                throughput_bytes_per_second: sample.throughput_bytes_per_second,
                retry_attempts: 0,
                terminal_failure_reason: None,
            });
        },
    }
}

/// The samples after recording a segment's retry state.
pub open spec fn health_upsert_spec(samples: Seq<DownloadRuntimeSegmentSample>, id: u32, retry_attempts: u32, reason: Option<String>) -> Seq<DownloadRuntimeSegmentSample> {
    match sample_index_from(samples, id, 0) {
        Some(i) => samples.update(i, DownloadRuntimeSegmentSample { retry_attempts, terminal_failure_reason: reason, ..samples[i] }),
        None => samples.push(DownloadRuntimeSegmentSample {
            segment_id: id,
            remaining_bytes: 0,
            eta_seconds: None,
            throughput_bytes_per_second: None,
            retry_attempts,
            terminal_failure_reason: reason,
        }),
    }
}

pub fn upsert_runtime_segment_health(checkpoint: &mut DownloadRuntimeCheckpoint, segment_id: u32, retry_attempts: u32, terminal_failure_reason: Option<String>)
    ensures
        final(checkpoint).segment_samples@ == health_upsert_spec(old(checkpoint).segment_samples@, segment_id, retry_attempts, terminal_failure_reason),
        final(checkpoint).active_races == old(checkpoint).active_races,
{
    proof { lemma_sample_index_bounds(checkpoint.segment_samples@, segment_id, 0); }
    match find_sample(&checkpoint.segment_samples, segment_id) {
        Some(i) => {
            let existing = &checkpoint.segment_samples[i];
            let updated = DownloadRuntimeSegmentSample {
                segment_id: existing.segment_id,
                remaining_bytes: existing.remaining_bytes,
                eta_seconds: existing.eta_seconds,
                throughput_bytes_per_second: existing.throughput_bytes_per_second,
                retry_attempts,
                terminal_failure_reason,
            };
            checkpoint.segment_samples.set(i, updated);
        },
        None => {
            checkpoint.segment_samples.push(DownloadRuntimeSegmentSample {
                segment_id,
                remaining_bytes: 0,
                eta_seconds: None,
                throughput_bytes_per_second: None,
                retry_attempts,
                terminal_failure_reason,
            });
        },
    }
}

/// A slow segment and its challenger, as seen from one of the two.
#[derive(Clone, Copy, Debug, PartialEq, Eq, Structural)]
pub struct RuntimeRaceState {
    pub companion_segment_id: u32,
    pub slow_segment_id: u32,
    pub slow_baseline_downloaded: i64,
}

/// The races of a transfer by segment id, kept in increasing id order.
#[derive(Clone, Debug)]
pub struct RaceMap {
    pub entries: Vec<(u32, RuntimeRaceState)>,
}

pub open spec fn keys_increasing(s: Seq<(u32, RuntimeRaceState)>) -> bool {
    forall|i: int, j: int| 0 <= i < j < s.len() ==> #[trigger] s[i].0 < #[trigger] s[j].0
}

/// The race recorded for segment `k`.
pub open spec fn race_lookup(s: Seq<(u32, RuntimeRaceState)>, k: u32) -> Option<RuntimeRaceState>
    decreases s.len(),
{
    if s.len() == 0 {
        None
    } else if s.last().0 == k {
        Some(s.last().1)
    } else {
        race_lookup(s.drop_last(), k)
    }
}

/// Number of entries with keys below `k`.
pub open spec fn count_below(s: Seq<(u32, RuntimeRaceState)>, k: u32) -> int
    decreases s.len(),
{
    if s.len() == 0 { 0 } else if s.last().0 < k { count_below(s.drop_last(), k) + 1 } else { count_below(s.drop_last(), k) }
}

impl RaceMap {
    pub open spec fn wf(&self) -> bool {
        keys_increasing(self.entries@)
    }

    pub open spec fn get_spec(&self, k: u32) -> Option<RuntimeRaceState> {
        race_lookup(self.entries@, k)
    }

    pub fn new() -> (r: Self)
        ensures
            r.wf(),
            r.entries@.len() == 0,
    {
        RaceMap { entries: Vec::new() }
    }

    fn position(&self, k: u32) -> (r: (usize, bool))
        requires
            self.wf(),
        ensures
            r.0 <= self.entries@.len(),
            forall|i: int| 0 <= i < r.0 ==> self.entries@[i].0 < k,
            forall|i: int| r.0 <= i < self.entries@.len() ==> self.entries@[i].0 >= k,
            r.1 == (r.0 < self.entries@.len() && self.entries@[r.0 as int].0 == k),
    {
        let mut i: usize = 0;
        while i < self.entries.len() && self.entries[i].0 < k
            invariant
                i <= self.entries@.len(),
                self.wf(),
                forall|j: int| 0 <= j < i ==> self.entries@[j].0 < k,
            decreases self.entries@.len() - i,
        {
            i = i + 1;
        }
        proof {
            assert forall|j: int| i <= j < self.entries@.len() implies self.entries@[j].0 >= k by {
                if j > i {
                    assert(self.entries@[i as int].0 < self.entries@[j].0);
                }
            }
        }
        (i, i < self.entries.len() && self.entries[i].0 == k)
    }

    pub fn get(&self, k: u32) -> (r: Option<RuntimeRaceState>)
        requires
            self.wf(),
        ensures
            r == self.get_spec(k),
    {
        let (i, found) = self.position(k);
        proof { lemma_race_lookup_sorted(self.entries@, k); }
        if found { Some(self.entries[i].1) } else { None }
    }

    pub fn contains_key(&self, k: u32) -> (r: bool)
        requires
            self.wf(),
        ensures
            r == self.get_spec(k) is Some,
    {
        self.get(k).is_some()
    }

    /// Records `v` for `k`, replacing what was there.
    pub fn insert(&mut self, k: u32, v: RuntimeRaceState)
        requires
            old(self).wf(),
        ensures
            final(self).wf(),
            forall|x: u32| #[trigger] final(self).get_spec(x) == (if x == k { Some(v) } else { old(self).get_spec(x) }),
    {
        let (i, found) = self.position(k);
        let ghost before = self.entries@;
        if found {
            self.entries.set(i, (k, v));
        } else {
            self.entries.insert(i, (k, v));
        }
        proof {
            let after = self.entries@;
            if found {
                assert(after == before.update(i as int, (k, v)));
            } else {
                assert(after == before.insert(i as int, (k, v)));
            }
            assert forall|a: int, b: int| 0 <= a < b < after.len() implies #[trigger] after[a].0 < #[trigger] after[b].0 by {
                if found {
                    if a != i && b != i {
                        assert(before[a].0 < before[b].0);
                    }
                } else {
                    if b < i {
                        assert(before[a].0 < before[b].0);
                    } else if a > i {
                        assert(before[a - 1].0 < before[b - 1].0);
                    } else if a < i && b > i {
                        assert(before[a].0 < k);
                        assert(before[b - 1].0 >= k);
                    } else if a == i {
                        assert(before[b - 1].0 >= k);
                        assert(before[b - 1].0 != k);
                    }
                }
            }
            assert(keys_increasing(after));
            assert forall|x: u32| #[trigger] race_lookup(self.entries@, x) == (if x == k { Some(v) } else { race_lookup(before, x) }) by {
                lemma_race_lookup_sorted(after, x);
                lemma_race_lookup_sorted(before, x);
                if x == k {
                    assert(after[i as int].0 == k);
                } else if race_lookup(before, x) is Some {
                    let j = choose|j: int| 0 <= j < before.len() && before[j].0 == x;
                    if found {
                        assert(after[j] == before[j]);
                    } else if j < i {
                        assert(after[j] == before[j]);
                    } else {
                        assert(after[j + 1] == before[j]);
                    }
                } else {
                    assert forall|j: int| 0 <= j < after.len() implies after[j].0 != x by {
                        if found {
                            if j != i {
                                assert(after[j] == before[j]);
                            }
                        } else if j < i {
                            assert(after[j] == before[j]);
                        } else if j > i {
                            assert(after[j] == before[j - 1]);
                        }
                    }
                }
            }
        }
    }

    /// Removes and returns the race recorded for `k`.
    pub fn remove(&mut self, k: u32) -> (r: Option<RuntimeRaceState>)
        requires
            old(self).wf(),
        ensures
            final(self).wf(),
            r == old(self).get_spec(k),
            forall|x: u32| #[trigger] final(self).get_spec(x) == (if x == k { None } else { old(self).get_spec(x) }),
    {
        let (i, found) = self.position(k);
        let ghost before = self.entries@;
        proof { lemma_race_lookup_sorted(before, k); }
        if !found {
            proof {
                assert forall|x: u32| #[trigger] race_lookup(self.entries@, x) == (if x == k { None } else { race_lookup(before, x) }) by {
                    lemma_race_lookup_sorted(before, x);
                }
            }
            return None;
        }
        let (_, v) = self.entries.remove(i);
        proof {
            let after = self.entries@;
            assert(after == before.remove(i as int));
            assert forall|a: int, b: int| 0 <= a < b < after.len() implies #[trigger] after[a].0 < #[trigger] after[b].0 by {
                if b < i {
                    assert(before[a].0 < before[b].0);
                } else if a >= i {
                    assert(before[a + 1].0 < before[b + 1].0);
                } else {
                    assert(before[a].0 < before[b + 1].0);
                }
            }
            assert(keys_increasing(after));
            assert(before[i as int].0 == k);
            assert forall|x: u32| #[trigger] race_lookup(self.entries@, x) == (if x == k { None } else { race_lookup(before, x) }) by {
                lemma_race_lookup_sorted(after, x);
                lemma_race_lookup_sorted(before, x);
                if x == k {
                    assert forall|j: int| 0 <= j < after.len() implies after[j].0 != x by {
                        if j < i {
                            assert(before[j].0 < before[i as int].0);
                        } else {
                            assert(before[i as int].0 < before[j + 1].0);
                        }
                    }
                } else if race_lookup(before, x) is Some {
                    let j = choose|j: int| 0 <= j < before.len() && before[j].0 == x;
                    if j < i {
                        assert(after[j] == before[j]);
                    } else {
                        assert(j != i);
                        assert(after[j - 1] == before[j]);
                    }
                } else {
                    assert forall|j: int| 0 <= j < after.len() implies after[j].0 != x by {
                        if j < i {
                            assert(after[j] == before[j]);
                        } else {
                            assert(after[j] == before[j + 1]);
                        }
                    }
                }
            }
        }
        Some(v)
    }
}

/// In a list with increasing keys, the lookup finds the one entry with that key.
pub proof fn lemma_race_lookup_sorted(s: Seq<(u32, RuntimeRaceState)>, k: u32)
    requires
        keys_increasing(s),
    ensures
        race_lookup(s, k) is None <==> (forall|i: int| 0 <= i < s.len() ==> s[i].0 != k),
        forall|i: int| 0 <= i < s.len() && s[i].0 == k ==> race_lookup(s, k) == Some(s[i].1),
    decreases s.len(),
{
    if s.len() > 0 {
        lemma_race_lookup_sorted(s.drop_last(), k);
        assert forall|i: int| 0 <= i < s.len() && s[i].0 == k implies race_lookup(s, k) == Some(s[i].1) by {
            if i < s.len() - 1 {
                assert(s[i].0 < s.last().0);
                assert(s.drop_last()[i] == s[i]);
            }
        }
        if race_lookup(s, k) is None {
            assert forall|i: int| 0 <= i < s.len() implies s[i].0 != k by {
                if i < s.len() - 1 {
                    assert(s.drop_last()[i] == s[i]);
                }
            }
        }
    }
}

} // verus!
