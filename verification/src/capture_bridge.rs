//! The browser capture bridge: its status, the captures waiting for a window to pick them
//! up, and the checks a request from the browser extension must pass.

use hmac::Mac;
use sha2::Digest;
use vstd::prelude::*;
use vstd::string::StringSliceAdditionalSpecFns;
use crate::download_ops::{lemma_text_less_asym, lemma_text_less_irrefl, lemma_text_less_total, lemma_text_less_trans, text_less};
use crate::model::{opt_text, DownloadRequestField, DownloadRequestMethod};

verus! {

pub const CAPTURE_PORT: u16 = 17780;
pub const CAPTURE_BRIDGE_URL: &'static str = "http://127.0.0.1:17780";
pub const PENDING_CAPTURE_TTL_MS: i64 = 180000;
pub const MAX_PENDING_CAPTURES: usize = 64;

/// A download the browser extension handed over.
#[derive(Clone, Debug)]
pub struct CapturePayload {
    pub url: String,
    pub referrer: Option<String>,
    pub filename: Option<String>,
    pub size_hint: Option<u64>,
    pub mime: Option<String>,
    pub request_cookies: Option<String>,
    pub request_method: DownloadRequestMethod,
    pub request_form_fields: Vec<DownloadRequestField>,
    pub source: Option<String>,
}

/// Where the bridge's listener stands.
#[derive(Clone, Copy, Debug, PartialEq, Eq, Structural)]
pub enum CaptureBridgePhase {
    Starting,
    Ready,
    Failed,
}

impl Default for CaptureBridgePhase {
    fn default() -> (r: Self)
        ensures
            r == CaptureBridgePhase::Starting,
    {
        CaptureBridgePhase::Starting
    }
}

/// What the user interface shows of the bridge.
#[derive(Clone, Debug)]
pub struct CaptureBridgeStatus {
    pub phase: CaptureBridgePhase,
    pub bridge_url: String,
    pub port: u16,
    pub auth_required: bool,
    pub pending_captures: u32,
    pub last_capture_at: Option<i64>,
    pub last_capture_source: Option<String>,
    pub last_error: Option<String>,
    pub rotated_at: i64,
}

/// The bridge's state: its phase and last capture, and its pairing secret, session nonce
/// and the request nonces it has seen.
#[derive(Clone, Debug)]
pub struct CaptureBridgeState {
    pub phase: CaptureBridgePhase,
    pub last_capture_at: Option<i64>,
    pub last_capture_source: Option<String>,
    pub last_error: Option<String>,
    pub pairing_secret: String,
    pub session_nonce: String,
    pub rotated_at: i64,
    pub seen_request_nonces: Vec<(String, i64)>,
}

/// A capture waiting for the window labelled `label`.
#[derive(Clone, Debug)]
pub struct PendingCaptureEntry {
    pub label: String,
    pub payload: CapturePayload,
    pub captured_at_ms: i64,
}

/// The captures waiting for their windows, one per window label.
#[derive(Clone, Debug)]
pub struct PendingCaptures {
    pub entries: Vec<PendingCaptureEntry>,
}

pub open spec fn labels_distinct(es: Seq<PendingCaptureEntry>) -> bool {
    forall|a: int, b: int| 0 <= a < es.len() && 0 <= b < es.len() && a != b ==> es[a].label@ != es[b].label@
}

impl PendingCaptures {
    /// No window label occurs twice.
    pub open spec fn wf(&self) -> bool {
        labels_distinct(self.entries@)
    }

    pub fn new() -> (r: Self)
        ensures
            r.wf(),
            r.entries@.len() == 0,
    {
        PendingCaptures { entries: Vec::new() }
    }
}

impl CaptureBridgeState {
    /// A fresh bridge state for a pairing secret rotated at `rotated_at` and a session nonce.
    pub fn new(pairing_secret: String, session_nonce: String, rotated_at: i64) -> (r: Self)
        ensures
            r.phase == CaptureBridgePhase::Starting,
            r.last_capture_at is None && r.last_capture_source is None && r.last_error is None,
            r.pairing_secret@ == pairing_secret@,
            r.session_nonce@ == session_nonce@,
            r.rotated_at == rotated_at,
            r.seen_request_nonces@.len() == 0,
    {
        CaptureBridgeState {
            phase: CaptureBridgePhase::Starting,
            last_capture_at: None,
            last_capture_source: None,
            last_error: None,
            pairing_secret,
            session_nonce,
            rotated_at,
            seen_request_nonces: Vec::new(),
        }
    }

    /// The bridge as the user interface shows it, with `pending` captures waiting.
    pub fn status(&self, pending: &PendingCaptures) -> (r: CaptureBridgeStatus)
        ensures
            status_reports(*self, pending.entries@, r),
    {
        let n = pending.entries.len();
        CaptureBridgeStatus {
            phase: self.phase,
            bridge_url: CAPTURE_BRIDGE_URL.to_string(),
            port: CAPTURE_PORT,
            auth_required: true,
            pending_captures: if n <= 4294967295usize { n as u32 } else { u32::MAX },
            last_capture_at: self.last_capture_at,
            last_capture_source: crate::scopes::copy_opt_string(&self.last_capture_source),
            last_error: crate::scopes::copy_opt_string(&self.last_error),
            rotated_at: self.rotated_at,
        }
    }

    /// Notes a capture accepted at `now`, from the payload's source; clears the last error.
    pub fn record_capture_at(&mut self, payload: &CapturePayload, now: i64)
        ensures
            final(self).last_capture_at == Some(now),
            opt_text(final(self).last_capture_source) == opt_text(payload.source),
            final(self).last_error is None,
            final(self).phase == old(self).phase,
            final(self).pairing_secret == old(self).pairing_secret,
            final(self).session_nonce == old(self).session_nonce,
            final(self).rotated_at == old(self).rotated_at,
            final(self).seen_request_nonces == old(self).seen_request_nonces,
    {
        self.last_capture_at = Some(now);
        self.last_capture_source = crate::scopes::copy_opt_string(&payload.source);
        self.last_error = None;
    }

    /// Moves the bridge to `phase`, with `error` as its last error.
    pub fn set_phase(&mut self, phase: CaptureBridgePhase, error: Option<String>)
        ensures
            *final(self) == (CaptureBridgeState { phase, last_error: error, ..*old(self) }),
    {
        self.phase = phase;
        self.last_error = error;
    }
}

/// `v` is the entry with the smallest label.
pub open spec fn is_first_label(es: Seq<PendingCaptureEntry>, v: int) -> bool {
    &&& 0 <= v < es.len()
    &&& forall|k: int| 0 <= k < es.len() && k != v ==> text_less(es[v].label@, #[trigger] es[k].label@)
}

/// `v` is the oldest entry; among equally old ones, the one with the smallest label.
pub open spec fn is_oldest(es: Seq<PendingCaptureEntry>, v: int) -> bool {
    &&& 0 <= v < es.len()
    &&& forall|k: int| 0 <= k < es.len() && k != v ==> es[v].captured_at_ms < #[trigger] es[k].captured_at_ms
        || (es[v].captured_at_ms == es[k].captured_at_ms && text_less(es[v].label@, es[k].label@))
}

pub proof fn lemma_first_label_unique(es: Seq<PendingCaptureEntry>, a: int, b: int)
    requires
        is_first_label(es, a),
        is_first_label(es, b),
    ensures
        a == b,
{
    if a != b {
        lemma_text_less_asym(es[a].label@, es[b].label@);
        assert(text_less(es[a].label@, es[b].label@));
        assert(text_less(es[b].label@, es[a].label@));
    }
}

pub proof fn lemma_oldest_unique(es: Seq<PendingCaptureEntry>, a: int, b: int)
    requires
        is_oldest(es, a),
        is_oldest(es, b),
    ensures
        a == b,
{
    if a != b {
        lemma_text_less_asym(es[a].label@, es[b].label@);
        assert(es[a].captured_at_ms < es[b].captured_at_ms
            || (es[a].captured_at_ms == es[b].captured_at_ms && text_less(es[a].label@, es[b].label@)));
        assert(es[b].captured_at_ms < es[a].captured_at_ms
            || (es[b].captured_at_ms == es[a].captured_at_ms && text_less(es[b].label@, es[a].label@)));
    }
}

fn first_label_index(es: &Vec<PendingCaptureEntry>) -> (v: usize)
    requires
        es@.len() > 0,
        labels_distinct(es@),
    ensures
        is_first_label(es@, v as int),
{
    let mut m: usize = 0;
    let mut i: usize = 1;
    while i < es.len()
        invariant
            labels_distinct(es@),
            0 <= m < i <= es@.len(),
            forall|k: int| 0 <= k < i && k != m ==> text_less(es@[m as int].label@, #[trigger] es@[k].label@),
        decreases es@.len() - i,
    {
        let a = crate::text::chars_of(es[i].label.as_str());
        let b = crate::text::chars_of(es[m].label.as_str());
        if crate::download_ops::text_less_exec(a.as_slice(), b.as_slice()) {
            proof {
                assert forall|k: int| 0 <= k < i + 1 && k != i implies text_less(es@[i as int].label@, #[trigger] es@[k].label@) by {
                    if k != m {
                        lemma_text_less_trans(es@[i as int].label@, es@[m as int].label@, es@[k].label@);
                    }
                }
            }
            m = i;
        } else {
            proof {
                lemma_text_less_total(es@[i as int].label@, es@[m as int].label@);
            }
        }
        i = i + 1;
    }
    m
}

fn oldest_index(es: &Vec<PendingCaptureEntry>) -> (v: usize)
    requires
        es@.len() > 0,
        labels_distinct(es@),
    ensures
        is_oldest(es@, v as int),
{
    let mut m: usize = 0;
    let mut i: usize = 1;
    while i < es.len()
        invariant
            labels_distinct(es@),
            0 <= m < i <= es@.len(),
            forall|k: int| 0 <= k < i && k != m ==> es@[m as int].captured_at_ms < #[trigger] es@[k].captured_at_ms
                || (es@[m as int].captured_at_ms == es@[k].captured_at_ms && text_less(es@[m as int].label@, es@[k].label@)),
        decreases es@.len() - i,
    {
        let a = crate::text::chars_of(es[i].label.as_str());
        let b = crate::text::chars_of(es[m].label.as_str());
        let older = es[i].captured_at_ms < es[m].captured_at_ms
            || (es[i].captured_at_ms == es[m].captured_at_ms && crate::download_ops::text_less_exec(a.as_slice(), b.as_slice()));
        if older {
            proof {
                assert forall|k: int| 0 <= k < i + 1 && k != i implies es@[i as int].captured_at_ms < #[trigger] es@[k].captured_at_ms
                    || (es@[i as int].captured_at_ms == es@[k].captured_at_ms && text_less(es@[i as int].label@, es@[k].label@)) by {
                    if k != m && es@[i as int].captured_at_ms == es@[k].captured_at_ms {
                        lemma_text_less_trans(es@[i as int].label@, es@[m as int].label@, es@[k].label@);
                    }
                }
            }
            m = i;
        } else {
            proof {
                lemma_text_less_total(es@[i as int].label@, es@[m as int].label@);
            }
        }
        i = i + 1;
    }
    m
}

proof fn lemma_remove_distinct(es: Seq<PendingCaptureEntry>, v: int)
    requires
        labels_distinct(es),
        0 <= v < es.len(),
    ensures
        labels_distinct(es.remove(v)),
{
    let r = es.remove(v);
    assert forall|a: int, b: int| 0 <= a < r.len() && 0 <= b < r.len() && a != b implies r[a].label@ != r[b].label@ by {
        let a0 = if a < v { a } else { a + 1 };
        let b0 = if b < v { b } else { b + 1 };
        assert(r[a] == es[a0] && r[b] == es[b0]);
    }
}

/// Whether an entry captured at `captured` is still fresh at `now`.
pub open spec fn fresh_at(captured: i64, now: i64) -> bool {
    now - captured <= PENDING_CAPTURE_TTL_MS
}

/// The entries still fresh at `now`, in order.
pub open spec fn fresh_entries(es: Seq<PendingCaptureEntry>, now: i64) -> Seq<PendingCaptureEntry>
    decreases es.len(),
{
    if es.len() == 0 {
        es
    } else {
        let rest = fresh_entries(es.drop_last(), now);
        if fresh_at(es.last().captured_at_ms, now) { rest.push(es.last()) } else { rest }
    }
}

/// The entries once the oldest ones are evicted down to the cap.
pub open spec fn capped_entries(es: Seq<PendingCaptureEntry>) -> Seq<PendingCaptureEntry>
    decreases es.len(),
{
    if es.len() <= MAX_PENDING_CAPTURES {
        es
    } else {
        let v = choose|v: int| is_oldest(es, v);
        if 0 <= v < es.len() { capped_entries(es.remove(v)) } else { es }
    }
}

/// The pending captures after pruning at `now`: stale ones dropped, then the oldest evicted
/// while more than the cap remain.
pub open spec fn pruned_entries(es: Seq<PendingCaptureEntry>, now: i64) -> Seq<PendingCaptureEntry> {
    capped_entries(fresh_entries(es, now))
}

proof fn lemma_fresh_distinct(es: Seq<PendingCaptureEntry>, now: i64)
    requires
        labels_distinct(es),
    ensures
        labels_distinct(fresh_entries(es, now)),
        forall|k: int| 0 <= k < fresh_entries(es, now).len() ==> es.contains(#[trigger] fresh_entries(es, now)[k]),
    decreases es.len(),
{
    if es.len() > 0 {
        let d = es.drop_last();
        assert(labels_distinct(d)) by {
            assert forall|a: int, b: int| 0 <= a < d.len() && 0 <= b < d.len() && a != b implies d[a].label@ != d[b].label@ by {
                assert(d[a] == es[a] && d[b] == es[b]);
            }
        }
        lemma_fresh_distinct(d, now);
        let rest = fresh_entries(d, now);
        assert forall|k: int| 0 <= k < rest.len() implies es.contains(#[trigger] rest[k]) by {
            let j = choose|j: int| 0 <= j < d.len() && d[j] == rest[k];
            assert(es[j] == rest[k]);
        }
        if fresh_at(es.last().captured_at_ms, now) {
            let f = rest.push(es.last());
            assert(es[es.len() - 1] == es.last());
            assert forall|k: int| 0 <= k < f.len() implies es.contains(#[trigger] f[k]) by {
                if k < rest.len() { assert(f[k] == rest[k]); } else { assert(f[k] == es[es.len() - 1]); }
            }
            assert forall|a: int, b: int| 0 <= a < f.len() && 0 <= b < f.len() && a != b implies f[a].label@ != f[b].label@ by {
                if a < rest.len() && b < rest.len() {
                    assert(f[a] == rest[a] && f[b] == rest[b]);
                } else if a < rest.len() {
                    let j = choose|j: int| 0 <= j < d.len() && d[j] == rest[a];
                    assert(es[j] == f[a] && f[b] == es[es.len() - 1]);
                } else {
                    let j = choose|j: int| 0 <= j < d.len() && d[j] == rest[b];
                    assert(es[j] == f[b] && f[a] == es[es.len() - 1]);
                }
            }
        }
    }
}

fn keep_fresh(entries: &mut Vec<PendingCaptureEntry>, now: i64)
    ensures
        final(entries)@ == fresh_entries(old(entries)@, now),
{
    let ghost es0 = entries@;
    let mut i: usize = 0;
    let ghost mut k: int = 0;
    assert(es0.take(0) =~= Seq::<PendingCaptureEntry>::empty());
    assert(es0.skip(0) =~= es0);
    assert(entries@.take(0) =~= Seq::<PendingCaptureEntry>::empty());
    while i < entries.len()
        invariant
            0 <= k <= es0.len(),
            i <= entries@.len(),
            entries@.len() - i == es0.len() - k,
            entries@.take(i as int) == fresh_entries(es0.take(k), now),
            entries@.skip(i as int) == es0.skip(k),
        decreases es0.len() - k,
    {
        let ghost before = entries@;
        assert(entries@[i as int] == es0[k]) by {
            assert(entries@.skip(i as int)[0] == es0.skip(k)[0]);
        }
        assert(es0.take(k + 1).drop_last() =~= es0.take(k));
        assert(es0.take(k + 1).last() == es0[k]);
        let fresh = (now as i128) - (entries[i].captured_at_ms as i128) <= (PENDING_CAPTURE_TTL_MS as i128);
        if !fresh {
            let _ = entries.remove(i);
            proof {
                assert(entries@.take(i as int) =~= before.take(i as int));
                assert forall|j: int| 0 <= j < entries@.skip(i as int).len() implies #[trigger] entries@.skip(i as int)[j] == es0.skip(k + 1)[j] by {
                    assert(before.skip(i as int)[j + 1] == es0.skip(k)[j + 1]);
                }
                assert(entries@.skip(i as int) =~= es0.skip(k + 1));
                k = k + 1;
            }
        } else {
            proof {
                assert(entries@.take(i + 1) =~= before.take(i as int).push(es0[k]));
                assert forall|j: int| 0 <= j < entries@.skip(i + 1).len() implies #[trigger] entries@.skip(i + 1)[j] == es0.skip(k + 1)[j] by {
                    assert(before.skip(i as int)[j + 1] == es0.skip(k)[j + 1]);
                }
                assert(entries@.skip(i + 1) =~= es0.skip(k + 1));
                k = k + 1;
            }
            i = i + 1;
        }
    }
    proof {
        assert(es0.take(k) =~= es0);
        assert(entries@.take(i as int) =~= entries@);
    }
}

fn evict_to_cap(entries: &mut Vec<PendingCaptureEntry>)
    requires
        labels_distinct(old(entries)@),
    ensures
        final(entries)@ == capped_entries(old(entries)@),
        labels_distinct(final(entries)@),
{
    while entries.len() > MAX_PENDING_CAPTURES
        invariant
            labels_distinct(entries@),
            capped_entries(entries@) == capped_entries(old(entries)@),
        decreases entries@.len(),
    {
        let v = oldest_index(entries);
        proof {
            let c = choose|c: int| is_oldest(entries@, c);
            lemma_oldest_unique(entries@, v as int, c);
            lemma_remove_distinct(entries@, v as int);
        }
        let _ = entries.remove(v);
    }
}

/// Drops the captures that went stale by `now`, then evicts the oldest beyond the cap.
pub fn prune_pending_capture_entries(pending: &mut PendingCaptures, now: i64)
    requires
        old(pending).wf(),
    ensures
        final(pending).wf(),
        final(pending).entries@ == pruned_entries(old(pending).entries@, now),
{
    proof { lemma_fresh_distinct(pending.entries@, now); }
    keep_fresh(&mut pending.entries, now);
    evict_to_cap(&mut pending.entries);
}

fn find_label(es: &Vec<PendingCaptureEntry>, label: &str) -> (r: Option<usize>)
    ensures
        match r {
            Some(i) => i < es@.len() && es@[i as int].label@ == label@,
            None => forall|k: int| 0 <= k < es@.len() ==> #[trigger] es@[k].label@ != label@,
        },
{
    let mut i: usize = 0;
    while i < es.len()
        invariant
            i <= es@.len(),
            forall|k: int| 0 <= k < i ==> #[trigger] es@[k].label@ != label@,
        decreases es@.len() - i,
    {
        if crate::text::str_equal(es[i].label.as_str(), label) {
            return Some(i);
        }
        i = i + 1;
    }
    None
}

/// Whether some entry carries `label`.
pub open spec fn has_label(es: Seq<PendingCaptureEntry>, label: Seq<char>) -> bool {
    exists|k: int| 0 <= k < es.len() && #[trigger] es[k].label@ == label
}

/// What taking a capture from `es` (already pruned) gives and leaves: the one for the
/// window `label`, or with no label the one with the smallest label.
pub open spec fn taken_from(
    es: Seq<PendingCaptureEntry>,
    label: Option<Seq<char>>,
    r: Option<CapturePayload>,
    after: Seq<PendingCaptureEntry>,
) -> bool {
    match label {
        Some(l) => if has_label(es, l) {
            exists|i: int| 0 <= i < es.len() && #[trigger] es[i].label@ == l && r == Some(es[i].payload) && after == es.remove(i)
        } else {
            r is None && after == es
        },
        None => if es.len() == 0 {
            r is None && after == es
        } else {
            exists|v: int| #[trigger] is_first_label(es, v) && r == Some(es[v].payload) && after == es.remove(v)
        },
    }
}

pub open spec fn opt_label(label: Option<&str>) -> Option<Seq<char>> {
    match label {
        Some(l) => Some(l@),
        None => None,
    }
}

/// Takes the capture waiting for window `window_label` (or, with none, the one whose label
/// comes first) after pruning at `now`.
pub fn take_pending_capture_at(pending: &mut PendingCaptures, window_label: Option<&str>, now: i64) -> (r: Option<CapturePayload>)
    requires
        old(pending).wf(),
    ensures
        final(pending).wf(),
        taken_from(pruned_entries(old(pending).entries@, now), opt_label(window_label), r, final(pending).entries@),
{
    prune_pending_capture_entries(pending, now);
    let ghost p = pending.entries@;
    match window_label {
        Some(label) => {
            match find_label(&pending.entries, label) {
                Some(i) => {
                    proof { lemma_remove_distinct(pending.entries@, i as int); }
                    let e = pending.entries.remove(i);
                    Some(e.payload)
                },
                None => None,
            }
        },
        None => {
            if pending.entries.len() == 0 {
                return None;
            }
            let v = first_label_index(&pending.entries);
            proof { lemma_remove_distinct(pending.entries@, v as int); }
            let e = pending.entries.remove(v);
            Some(e.payload)
        },
    }
}

/// Takes the capture waiting for window `window_label`, pruning at the current time.
pub fn take_pending_capture(pending: &mut PendingCaptures, window_label: Option<&str>) -> (r: Option<CapturePayload>)
    requires
        old(pending).wf(),
    ensures
        final(pending).wf(),
        exists|now: i64| #[trigger] taken_from(pruned_entries(old(pending).entries@, now), opt_label(window_label), r, final(pending).entries@),
{
    let now = crate::host_planner::unix_epoch_millis();
    take_pending_capture_at(pending, window_label, now)
}

/// The capture for a window that reports it is ready.
pub fn capture_window_ready(pending: &mut PendingCaptures, window_label: &str) -> (r: Option<CapturePayload>)
    requires
        old(pending).wf(),
    ensures
        final(pending).wf(),
        exists|now: i64| #[trigger] taken_from(pruned_entries(old(pending).entries@, now), Some(window_label@), r, final(pending).entries@),
{
    take_pending_capture(pending, Some(window_label))
}

/// `es` with `e` stored under its label: replacing the entry with that label, else appended.
pub open spec fn stored(es: Seq<PendingCaptureEntry>, e: PendingCaptureEntry) -> Seq<PendingCaptureEntry> {
    if has_label(es, e.label@) {
        let i = choose|i: int| 0 <= i < es.len() && #[trigger] es[i].label@ == e.label@;
        es.update(i, e)
    } else {
        es.push(e)
    }
}

/// Stores `payload` for window `window_label` at `now`, pruning before and after.
pub fn set_pending_capture_at(pending: &mut PendingCaptures, window_label: &str, payload: CapturePayload, now: i64)
    requires
        old(pending).wf(),
    ensures
        final(pending).wf(),
        exists|e: PendingCaptureEntry| e.label@ == window_label@ && e.payload == payload && e.captured_at_ms == now
            && final(pending).entries@ == pruned_entries(#[trigger] stored(pruned_entries(old(pending).entries@, now), e), now),
{
    prune_pending_capture_entries(pending, now);
    let ghost p = pending.entries@;
    let e = PendingCaptureEntry { label: window_label.to_owned(), payload, captured_at_ms: now };
    let ghost ge = e;
    match find_label(&pending.entries, window_label) {
        Some(i) => {
            proof {
                let c = choose|c: int| 0 <= c < p.len() && #[trigger] p[c].label@ == ge.label@;
                assert(c == i as int);
            }
            pending.entries.set(i, e);
            proof {
                assert(labels_distinct(pending.entries@)) by {
                    assert forall|a: int, b: int| 0 <= a < pending.entries@.len() && 0 <= b < pending.entries@.len() && a != b
                        implies pending.entries@[a].label@ != pending.entries@[b].label@ by {
                        if a != i as int && b != i as int {
                            assert(pending.entries@[a] == p[a] && pending.entries@[b] == p[b]);
                        } else if a == i as int {
                            assert(p[b].label@ != p[i as int].label@);
                        } else {
                            assert(p[a].label@ != p[i as int].label@);
                        }
                    }
                }
                assert(pending.entries@ == stored(p, ge));
            }
        },
        None => {
            pending.entries.push(e);
            proof {
                assert(!has_label(p, ge.label@));
                assert(labels_distinct(pending.entries@)) by {
                    assert forall|a: int, b: int| 0 <= a < pending.entries@.len() && 0 <= b < pending.entries@.len() && a != b
                        implies pending.entries@[a].label@ != pending.entries@[b].label@ by {
                        if a < p.len() && b < p.len() {
                            assert(pending.entries@[a] == p[a] && pending.entries@[b] == p[b]);
                        } else if a < p.len() {
                            assert(pending.entries@[a] == p[a]);
                        } else {
                            assert(pending.entries@[b] == p[b]);
                        }
                    }
                }
                assert(pending.entries@ == stored(p, ge));
            }
        },
    }
    prune_pending_capture_entries(pending, now);
}

/// Drops the capture waiting for window `window_label`, if any.
pub fn clear_pending_capture(pending: &mut PendingCaptures, window_label: &str)
    requires
        old(pending).wf(),
    ensures
        final(pending).wf(),
        has_label(old(pending).entries@, window_label@) ==> exists|i: int| 0 <= i < old(pending).entries@.len()
            && #[trigger] old(pending).entries@[i].label@ == window_label@ && final(pending).entries@ == old(pending).entries@.remove(i),
        !has_label(old(pending).entries@, window_label@) ==> final(pending).entries@ == old(pending).entries@,
{
    match find_label(&pending.entries, window_label) {
        Some(i) => {
            proof { lemma_remove_distinct(pending.entries@, i as int); }
            let _ = pending.entries.remove(i);
        },
        None => {},
    }
}

/// Prunes at `now`; tells whether any capture was dropped.
pub fn cleanup_pending_captures_at(pending: &mut PendingCaptures, now: i64) -> (changed: bool)
    requires
        old(pending).wf(),
    ensures
        final(pending).wf(),
        final(pending).entries@ == pruned_entries(old(pending).entries@, now),
        changed == (final(pending).entries@.len() != old(pending).entries@.len()),
{
    let before = pending.entries.len();
    prune_pending_capture_entries(pending, now);
    pending.entries.len() != before
}

pub const AUTH_REQUEST_NONCE_TTL_MS: i64 = 300000;
pub const AUTH_TIMESTAMP_SKEW_MS: i64 = 300000;
pub const AUTH_HEADER_CLIENT: &'static str = "x-vdm-client";
pub const AUTH_HEADER_TIMESTAMP: &'static str = "x-vdm-timestamp";
pub const AUTH_HEADER_REQUEST_NONCE: &'static str = "x-vdm-request-nonce";
pub const AUTH_HEADER_SIGNATURE: &'static str = "x-vdm-auth";
pub const AUTH_HEADER_EXTENSION_ORIGIN: &'static str = "x-vdm-extension-origin";

/// A request read from the bridge's socket: header names lower-cased, in arrival order.
#[derive(Clone, Debug)]
pub struct HttpRequest {
    pub method: String,
    pub path: String,
    pub headers: Vec<(String, String)>,
    pub body: Vec<u8>,
}

/// The value of header `name`; the last one wins when it came twice.
pub open spec fn header_of(hs: Seq<(String, String)>, name: Seq<char>) -> Option<Seq<char>>
    decreases hs.len(),
{
    if hs.len() == 0 {
        None
    } else if hs.last().0@ == name {
        Some(hs.last().1@)
    } else {
        header_of(hs.drop_last(), name)
    }
}

/// The trimmed value of header `name`, when it is there and not blank.
pub open spec fn nonempty_header(hs: Seq<(String, String)>, name: Seq<char>) -> Option<Seq<char>> {
    match header_of(hs, name) {
        Some(v) => crate::download_ops::non_empty_spec(v),
        None => None,
    }
}

pub fn header_value<'a>(headers: &'a Vec<(String, String)>, name: &str) -> (r: Option<&'a String>)
    ensures
        match r {
            Some(v) => header_of(headers@, name@) == Some(v@),
            None => header_of(headers@, name@) is None,
        },
{
    let mut i: usize = headers.len();
    assert(headers@.take(i as int) =~= headers@);
    while i > 0
        invariant
            i <= headers@.len(),
            header_of(headers@, name@) == header_of(headers@.take(i as int), name@),
        decreases i,
    {
        proof {
            assert(headers@.take(i as int).drop_last() =~= headers@.take(i - 1));
            assert(headers@.take(i as int).last() == headers@[i - 1]);
        }
        if crate::text::str_equal(headers[i - 1].0.as_str(), name) {
            return Some(&headers[i - 1].1);
        }
        i = i - 1;
    }
    None
}

fn nonempty_header_value(headers: &Vec<(String, String)>, name: &str) -> (r: Option<String>)
    ensures
        opt_text(r) == nonempty_header(headers@, name@),
{
    match header_value(headers, name) {
        Some(v) => crate::download_ops::non_empty(v.clone()),
        None => None,
    }
}

/// Seen request nonces as values.
pub open spec fn nonces_view(v: Seq<(String, i64)>) -> Seq<(Seq<char>, i64)> {
    v.map_values(|e: (String, i64)| (e.0@, e.1))
}

/// How many of the oldest seen nonces have expired by `now`.
pub open spec fn stale_nonce_count(es: Seq<(Seq<char>, i64)>, now: i64) -> nat
    decreases es.len(),
{
    if es.len() > 0 && now - es[0].1 > AUTH_REQUEST_NONCE_TTL_MS {
        1 + stale_nonce_count(es.drop_first(), now)
    } else {
        0
    }
}

/// Forgets the seen request nonces that expired by `now`, oldest first.
pub fn prune_seen_request_nonces(entries: &mut Vec<(String, i64)>, now: i64)
    ensures
        nonces_view(final(entries)@) == nonces_view(old(entries)@).skip(stale_nonce_count(nonces_view(old(entries)@), now) as int),
{
    let ghost v0 = nonces_view(entries@);
    let mut n: usize = 0;
    assert(v0.skip(0) =~= v0);
    while n < entries.len() && (now as i128) - (entries[n].1 as i128) > (AUTH_REQUEST_NONCE_TTL_MS as i128)
        invariant
            n <= entries@.len(),
            v0 == nonces_view(entries@),
            stale_nonce_count(v0, now) == n + stale_nonce_count(v0.skip(n as int), now),
        decreases entries@.len() - n,
    {
        proof {
            assert(v0.skip(n as int).drop_first() =~= v0.skip(n + 1));
            assert(v0.skip(n as int)[0] == v0[n as int]);
        }
        n = n + 1;
    }
    proof {
        assert(stale_nonce_count(v0.skip(n as int), now) == 0) by {
            if n < v0.len() { assert(v0.skip(n as int)[0] == v0[n as int]); }
        }
    }
    let mut k: usize = 0;
    while k < n
        invariant
            k <= n <= v0.len(),
            nonces_view(entries@) == v0.skip(k as int),
        decreases n - k,
    {
        let ghost before = nonces_view(entries@);
        assert(entries@.len() == nonces_view(entries@).len());
        let _ = entries.remove(0);
        assert(nonces_view(entries@) =~= before.drop_first());
        assert(v0.skip(k as int).drop_first() =~= v0.skip(k + 1));
        k = k + 1;
    }
}

pub open spec fn upper_char(c: char) -> char {
    if 'a' <= c <= 'z' { ((c as u32) - 32) as char } else { c }
}

/// `to_ascii_uppercase`.
pub open spec fn upper_chars(s: Seq<char>) -> Seq<char> {
    s.map_values(|c: char| upper_char(c))
}

fn upper_text(s: &str) -> (r: String)
    ensures
        r@ == upper_chars(s@),
{
    let cs = crate::text::chars_of(s);
    let mut out: Vec<char> = Vec::new();
    let mut i: usize = 0;
    while i < cs.len()
        invariant
            i <= cs@.len(),
            cs@ == s@,
            out@ == upper_chars(cs@.take(i as int)),
        decreases cs@.len() - i,
    {
        let c = cs[i];
        let u = if 'a' <= c && c <= 'z' { (((c as u32) - 32) as u8) as char } else { c };
        out.push(u);
        assert(upper_chars(cs@.take(i + 1)) =~= upper_chars(cs@.take(i as int)).push(upper_char(c)));
        i = i + 1;
    }
    assert(cs@.take(cs@.len() as int) =~= cs@);
    crate::chars::string_from_chars(out.as_slice())
}

/// The SHA-256 digest of some bytes (a name for what the hash crate computes).
pub uninterp spec fn sha256_of(data: Seq<u8>) -> Seq<u8>;

/// The HMAC-SHA256 tag of a message under a key (a name for what the MAC crate computes).
pub uninterp spec fn hmac_sha256_of(key: Seq<u8>, message: Seq<u8>) -> Seq<u8>;

/// `sha2::Sha256::digest`: the digest of `data`, 32 bytes long.
#[verifier::external_body]
pub(crate) fn sha256_digest(data: &[u8]) -> (r: Vec<u8>)
    ensures
        r@ == sha256_of(data@),
        r@.len() == 32,
{
    sha2::Sha256::digest(data).to_vec()
}

/// `hmac::Hmac<Sha256>`: keyed with `key` (any length is accepted), fed `message`, then
/// `verify_slice(tag)`, which accepts exactly the tag the MAC computes.
#[verifier::external_body]
fn hmac_sha256_verifies(key: &[u8], message: &[u8], tag: &[u8]) -> (r: bool)
    ensures
        r == (tag@ == hmac_sha256_of(key@, message@)),
{
    match <hmac::Hmac<sha2::Sha256> as Mac>::new_from_slice(key) {
        Ok(mut mac) => {
            mac.update(message);
            mac.verify_slice(tag).is_ok()
        },
        Err(_) => false,
    }
}

/// The text a request's signature covers: the method upper-cased, the path, the session
/// nonce, the timestamp, the request nonce, the client and the hex SHA-256 of the body,
/// one per line.
pub open spec fn auth_message(
    method: Seq<char>,
    path: Seq<char>,
    session_nonce: Seq<char>,
    timestamp: i64,
    request_nonce: Seq<char>,
    client: Seq<char>,
    body: Seq<u8>,
) -> Seq<char> {
    upper_chars(method) + "\n"@ + path + "\n"@ + session_nonce + "\n"@ + crate::runtime_race::signed_decimal_spec(timestamp as int)
        + "\n"@ + request_nonce + "\n"@ + client + "\n"@ + crate::hex::hex_text(sha256_of(body))
}

fn auth_payload(
    method: &str,
    path: &str,
    session_nonce: &str,
    timestamp: i64,
    request_nonce: &str,
    client: &str,
    body: &[u8],
) -> (r: String)
    ensures
        r@ == auth_message(method@, path@, session_nonce@, timestamp, request_nonce@, client@, body@),
{
    let digest = sha256_digest(body);
    let hash = crate::hex::hex_encode(digest.as_slice());
    let mut out = upper_text(method);
    out.append("\n");
    out.append(path);
    out.append("\n");
    out.append(session_nonce);
    out.append("\n");
    crate::runtime_race::push_signed_decimal(&mut out, timestamp);
    out.append("\n");
    out.append(request_nonce);
    out.append("\n");
    out.append(client);
    out.append("\n");
    out.append(hash.as_str());
    out
}

/// What a bridge with pairing secret `secret`, session nonce `session` and seen nonces
/// `seen` answers a request at `now`, and the seen nonces it keeps: each authentication
/// header must be there (the client, nonce and signature not blank, the timestamp a
/// number within the allowed skew of `now`), the nonce must be new once expired ones are
/// forgotten, and the signature, in hex, must be the HMAC of the request under the secret.
/// An accepted nonce is remembered.
pub open spec fn auth_check(
    secret: Seq<char>,
    session: Seq<char>,
    seen: Seq<(Seq<char>, i64)>,
    req: HttpRequest,
    now: i64,
) -> (Result<(), Seq<char>>, Seq<(Seq<char>, i64)>) {
    let hs = req.headers@;
    match nonempty_header(hs, AUTH_HEADER_CLIENT@) {
        None => (Err("missing auth client"@), seen),
        Some(client) => match header_of(hs, AUTH_HEADER_TIMESTAMP@) {
            None => (Err("missing auth timestamp"@), seen),
            Some(raw) => match crate::numbers::parse_i64_spec(raw) {
                None => (Err("invalid auth timestamp"@), seen),
                Some(ts) => match nonempty_header(hs, AUTH_HEADER_REQUEST_NONCE@) {
                    None => (Err("missing auth request nonce"@), seen),
                    Some(nonce) => match nonempty_header(hs, AUTH_HEADER_SIGNATURE@) {
                        None => (Err("missing auth signature"@), seen),
                        Some(sig) => if now - ts > AUTH_TIMESTAMP_SKEW_MS || ts - now > AUTH_TIMESTAMP_SKEW_MS {
                            (Err("stale auth timestamp"@), seen)
                        } else {
                            let kept = seen.skip(stale_nonce_count(seen, now) as int);
                            if exists|k: int| 0 <= k < kept.len() && #[trigger] kept[k].0 == nonce {
                                (Err("replayed auth nonce"@), kept)
                            } else {
                                match crate::hex::decode_hex_spec(vstd::utf8::encode_utf8(sig)) {
                                    None => (Err("invalid signature format"@), kept),
                                    Some(tag) => if tag == hmac_sha256_of(vstd::utf8::encode_utf8(secret),
                                        vstd::utf8::encode_utf8(auth_message(req.method@, req.path@, session, ts, nonce, client, req.body@))) {
                                        (Ok(()), kept.push((nonce, now)))
                                    } else {
                                        (Err("invalid auth signature"@), kept)
                                    },
                                }
                            }
                        },
                    },
                },
            },
        },
    }
}

fn nonce_seen(entries: &Vec<(String, i64)>, nonce: &str) -> (r: bool)
    ensures
        r == exists|k: int| 0 <= k < entries@.len() && #[trigger] nonces_view(entries@)[k].0 == nonce@,
{
    let mut i: usize = 0;
    while i < entries.len()
        invariant
            i <= entries@.len(),
            forall|k: int| 0 <= k < i ==> #[trigger] nonces_view(entries@)[k].0 != nonce@,
        decreases entries@.len() - i,
    {
        if crate::text::str_equal(entries[i].0.as_str(), nonce) {
            assert(nonces_view(entries@)[i as int].0 == nonce@);
            return true;
        }
        i = i + 1;
    }
    false
}

impl CaptureBridgeState {
    /// Checks a request's authentication at `now`, remembering its nonce when accepted.
    pub fn authorize_request_at(&mut self, request: &HttpRequest, now: i64) -> (r: Result<(), &'static str>)
        ensures
            auth_answered(*old(self), *final(self), *request, now, r),
    {
        let client = match nonempty_header_value(&request.headers, AUTH_HEADER_CLIENT) {
            Some(c) => c,
            None => { return Err("missing auth client"); },
        };
        let raw = match header_value(&request.headers, AUTH_HEADER_TIMESTAMP) {
            Some(t) => t,
            None => { return Err("missing auth timestamp"); },
        };
        let timestamp = match crate::numbers::parse_i64(raw.as_str()) {
            Some(t) => t,
            None => { return Err("invalid auth timestamp"); },
        };
        let nonce = match nonempty_header_value(&request.headers, AUTH_HEADER_REQUEST_NONCE) {
            Some(n) => n,
            None => { return Err("missing auth request nonce"); },
        };
        let signature = match nonempty_header_value(&request.headers, AUTH_HEADER_SIGNATURE) {
            Some(s) => s,
            None => { return Err("missing auth signature"); },
        };
        let diff: i128 = (now as i128) - (timestamp as i128);
        if diff > (AUTH_TIMESTAMP_SKEW_MS as i128) || -diff > (AUTH_TIMESTAMP_SKEW_MS as i128) {
            return Err("stale auth timestamp");
        }
        prune_seen_request_nonces(&mut self.seen_request_nonces, now);
        if nonce_seen(&self.seen_request_nonces, nonce.as_str()) {
            return Err("replayed auth nonce");
        }
        let message = auth_payload(request.method.as_str(), request.path.as_str(), self.session_nonce.as_str(), timestamp,
            nonce.as_str(), client.as_str(), request.body.as_slice());
        let tag = match crate::hex::decode_hex(signature.as_str()) {
            Ok(t) => t,
            Err(_) => { return Err("invalid signature format"); },
        };
        if !hmac_sha256_verifies(self.pairing_secret.as_str().as_bytes(), message.as_str().as_bytes(), tag.as_slice()) {
            return Err("invalid auth signature");
        }
        let ghost before = nonces_view(self.seen_request_nonces@);
        self.seen_request_nonces.push((nonce, now));
        assert(nonces_view(self.seen_request_nonces@) =~= before.push((nonce@, now)));
        Ok(())
    }

    /// Checks a request's authentication at the current time.
    pub fn authorize_request(&mut self, request: &HttpRequest) -> (r: Result<(), &'static str>)
        ensures
            exists|now: i64| #[trigger] auth_answered(*old(self), *final(self), *request, now, r),
    {
        let now = crate::host_planner::unix_epoch_millis();
        self.authorize_request_at(request, now)
    }
}

/// The answer to a request at `now` and the bridge state it leaves.
pub open spec fn auth_answered(before: CaptureBridgeState, after: CaptureBridgeState, request: HttpRequest, now: i64, r: Result<(), &'static str>) -> bool {
    let (res, kept) = auth_check(before.pairing_secret@, before.session_nonce@, nonces_view(before.seen_request_nonces@), request, now);
    &&& match r {
        Ok(()) => res is Ok,
        Err(m) => res == Err::<(), Seq<char>>(m@),
    }
    &&& nonces_view(after.seen_request_nonces@) == kept
    &&& after.phase == before.phase
    &&& after.last_capture_at == before.last_capture_at
    &&& after.last_capture_source == before.last_capture_source
    &&& after.last_error == before.last_error
    &&& after.pairing_secret == before.pairing_secret
    &&& after.session_nonce == before.session_nonce
    &&& after.rotated_at == before.rotated_at
}

proof fn lemma_stale_count_bound(es: Seq<(Seq<char>, i64)>, now: i64)
    requires
        es.len() > 0,
        now - es[es.len() - 1].1 <= AUTH_REQUEST_NONCE_TTL_MS,
    ensures
        stale_nonce_count(es, now) < es.len(),
    decreases es.len(),
{
    if es.len() > 1 && now - es[0].1 > AUTH_REQUEST_NONCE_TTL_MS {
        let d = es.drop_first();
        assert(d[d.len() - 1] == es[es.len() - 1]);
        lemma_stale_count_bound(d, now);
    }
}

/// A request the bridge accepted is refused when presented again, at the same time or
/// later, until its nonce expires.
pub proof fn lemma_replay_refused(
    secret: Seq<char>,
    session: Seq<char>,
    seen: Seq<(Seq<char>, i64)>,
    req: HttpRequest,
    now: i64,
    later: i64,
)
    requires
        auth_check(secret, session, seen, req, now).0 is Ok,
        now <= later,
        later - now <= AUTH_REQUEST_NONCE_TTL_MS,
    ensures
        auth_check(secret, session, auth_check(secret, session, seen, req, now).1, req, later).0 is Err,
        auth_check(secret, session, auth_check(secret, session, seen, req, now).1, req, later).0 == Err::<(), Seq<char>>("replayed auth nonce"@)
            || auth_check(secret, session, auth_check(secret, session, seen, req, now).1, req, later).0 == Err::<(), Seq<char>>("stale auth timestamp"@),
{
    let hs = req.headers@;
    let seen2 = auth_check(secret, session, seen, req, now).1;
    let nonce = nonempty_header(hs, AUTH_HEADER_REQUEST_NONCE@)->0;
    let kept = seen.skip(stale_nonce_count(seen, now) as int);
    assert(seen2 == kept.push((nonce, now)));
    lemma_stale_count_bound(seen2, later);
    let c = stale_nonce_count(seen2, later) as int;
    let kept2 = seen2.skip(c);
    let k = seen2.len() - 1 - c;
    assert(kept2[k] == seen2[seen2.len() - 1]);
    assert(kept2[k].0 == nonce);
}


/// An accepted request records its nonce at `now` after the expired ones are dropped; a
/// refused one records nothing: what is kept is what was seen, less any expired nonces.
pub proof fn lemma_nonces_after_answer(
    secret: Seq<char>,
    session: Seq<char>,
    seen: Seq<(Seq<char>, i64)>,
    req: HttpRequest,
    now: i64,
)
    ensures
        ({
            let (res, kept) = auth_check(secret, session, seen, req, now);
            let pruned = seen.skip(stale_nonce_count(seen, now) as int);
            match res {
                Ok(()) => nonempty_header(req.headers@, AUTH_HEADER_REQUEST_NONCE@) matches Some(n)
                    && kept == pruned.push((n, now)),
                Err(_) => kept == seen || kept == pruned,
            }
        }),
{
}

/// A request whose timestamp is more than the allowed skew away from `now` is refused as
/// stale, whatever else it holds, once its headers are all present and well formed.
pub proof fn lemma_stale_refused(
    secret: Seq<char>,
    session: Seq<char>,
    seen: Seq<(Seq<char>, i64)>,
    req: HttpRequest,
    now: i64,
    ts: i64,
)
    requires
        nonempty_header(req.headers@, AUTH_HEADER_CLIENT@) is Some,
        header_of(req.headers@, AUTH_HEADER_TIMESTAMP@) matches Some(raw) && crate::numbers::parse_i64_spec(raw) == Some(ts),
        nonempty_header(req.headers@, AUTH_HEADER_REQUEST_NONCE@) is Some,
        nonempty_header(req.headers@, AUTH_HEADER_SIGNATURE@) is Some,
        now - ts > AUTH_TIMESTAMP_SKEW_MS || ts - now > AUTH_TIMESTAMP_SKEW_MS,
    ensures
        auth_check(secret, session, seen, req, now) == (Err::<(), Seq<char>>("stale auth timestamp"@), seen),
{
}


proof fn lemma_fresh_entries_fresh(es: Seq<PendingCaptureEntry>, now: i64)
    ensures
        forall|k: int| 0 <= k < fresh_entries(es, now).len() ==> fresh_at(#[trigger] fresh_entries(es, now)[k].captured_at_ms, now),
        forall|k: int| 0 <= k < fresh_entries(es, now).len() ==> es.contains(#[trigger] fresh_entries(es, now)[k]),
    decreases es.len(),
{
    if es.len() > 0 {
        let d = es.drop_last();
        lemma_fresh_entries_fresh(d, now);
        let rest = fresh_entries(d, now);
        assert forall|k: int| 0 <= k < rest.len() implies es.contains(#[trigger] rest[k]) by {
            let j = choose|j: int| 0 <= j < d.len() && d[j] == rest[k];
            assert(es[j] == rest[k]);
        }
        if fresh_at(es.last().captured_at_ms, now) {
            let f = rest.push(es.last());
            assert(es[es.len() - 1] == es.last());
            assert forall|k: int| 0 <= k < f.len() implies es.contains(#[trigger] f[k]) && fresh_at(f[k].captured_at_ms, now) by {
                if k < rest.len() { assert(f[k] == rest[k]); } else { assert(f[k] == es[es.len() - 1]); }
            }
        }
    }
}

proof fn lemma_capped_entries_within(es: Seq<PendingCaptureEntry>)
    ensures
        forall|k: int| 0 <= k < capped_entries(es).len() ==> es.contains(#[trigger] capped_entries(es)[k]),
        labels_distinct(es) ==> labels_distinct(capped_entries(es)),
    decreases es.len(),
{
    if es.len() > MAX_PENDING_CAPTURES {
        let v = choose|v: int| is_oldest(es, v);
        if 0 <= v < es.len() {
            let r = es.remove(v);
            lemma_capped_entries_within(r);
            assert forall|k: int| 0 <= k < capped_entries(es).len() implies es.contains(#[trigger] capped_entries(es)[k]) by {
                let j = choose|j: int| 0 <= j < r.len() && r[j] == capped_entries(r)[k];
                let j0 = if j < v { j } else { j + 1 };
                assert(es[j0] == r[j]);
            }
            if labels_distinct(es) {
                lemma_remove_distinct(es, v);
            }
        }
    }
}

/// A pending capture is handed out only while fresh: whatever a take returns came from an
/// entry captured no more than the capture time-to-live before `now`.
pub proof fn lemma_taken_capture_is_fresh(
    es: Seq<PendingCaptureEntry>,
    label: Option<Seq<char>>,
    r: Option<CapturePayload>,
    after: Seq<PendingCaptureEntry>,
    now: i64,
)
    requires
        taken_from(pruned_entries(es, now), label, r, after),
    ensures
        r matches Some(p) ==> exists|k: int| 0 <= k < es.len() && #[trigger] es[k].payload == p
            && fresh_at(es[k].captured_at_ms, now),
{
    let f = fresh_entries(es, now);
    let c = capped_entries(f);
    lemma_fresh_entries_fresh(es, now);
    lemma_capped_entries_within(f);
    if r is Some {
        let i = match label {
            Some(l) => choose|i: int| 0 <= i < c.len() && #[trigger] c[i].label@ == l && r == Some(c[i].payload) && after == c.remove(i),
            None => choose|v: int| #[trigger] is_first_label(c, v) && r == Some(c[v].payload) && after == c.remove(v),
        };
        let j = choose|j: int| 0 <= j < f.len() && f[j] == c[i];
        let k = choose|k: int| 0 <= k < es.len() && es[k] == f[j];
        assert(fresh_at(f[j].captured_at_ms, now));
        assert(es[k].payload == r->0);
    }
}

/// Once the capture for a window was taken, taking again for that window (at any later
/// time) gives nothing.
pub proof fn lemma_second_take_finds_nothing(
    es: Seq<PendingCaptureEntry>,
    l: Seq<char>,
    p: CapturePayload,
    after: Seq<PendingCaptureEntry>,
    now: i64,
    r2: Option<CapturePayload>,
    after2: Seq<PendingCaptureEntry>,
    later: i64,
)
    requires
        labels_distinct(es),
        taken_from(pruned_entries(es, now), Some(l), Some(p), after),
        taken_from(pruned_entries(after, later), Some(l), r2, after2),
    ensures
        r2 is None,
{
    let f = fresh_entries(es, now);
    lemma_fresh_distinct(es, now);
    lemma_capped_entries_within(f);
    let c = capped_entries(f);
    let i = choose|i: int| 0 <= i < c.len() && #[trigger] c[i].label@ == l && Some(p) == Some(c[i].payload) && after == c.remove(i);
    assert(!has_label(after, l)) by {
        if has_label(after, l) {
            let k = choose|k: int| 0 <= k < after.len() && #[trigger] after[k].label@ == l;
            let k0 = if k < i { k } else { k + 1 };
            assert(after[k] == c[k0]);
        }
    }
    let f2 = fresh_entries(after, later);
    lemma_fresh_entries_fresh(after, later);
    lemma_capped_entries_within(f2);
    let c2 = capped_entries(f2);
    assert(!has_label(c2, l)) by {
        if has_label(c2, l) {
            let k = choose|k: int| 0 <= k < c2.len() && #[trigger] c2[k].label@ == l;
            let j = choose|j: int| 0 <= j < f2.len() && f2[j] == c2[k];
            let m = choose|m: int| 0 <= m < after.len() && after[m] == f2[j];
            assert(after[m].label@ == l);
        }
    }
}


/// What the bridge's status reports of state `st` with `pending` captures waiting.
pub open spec fn status_reports(st: CaptureBridgeState, pending: Seq<PendingCaptureEntry>, r: CaptureBridgeStatus) -> bool {
    &&& r.phase == st.phase
    &&& r.bridge_url@ == CAPTURE_BRIDGE_URL@
    &&& r.port == CAPTURE_PORT
    &&& r.auth_required
    &&& r.pending_captures == (if pending.len() <= u32::MAX { pending.len() as u32 } else { u32::MAX })
    &&& r.last_capture_at == st.last_capture_at
    &&& opt_text(r.last_capture_source) == opt_text(st.last_capture_source)
    &&& opt_text(r.last_error) == opt_text(st.last_error)
    &&& r.rotated_at == st.rotated_at
}

/// After the phase is set to `phase` with `error`, the status reports that phase and error,
/// the bridge's fixed address, that authentication is required, how many captures wait, and
/// the rotation time the state had.
pub proof fn lemma_status_after_set_phase(
    st: CaptureBridgeState,
    phase: CaptureBridgePhase,
    error: Option<String>,
    pending: Seq<PendingCaptureEntry>,
    r: CaptureBridgeStatus,
)
    requires
        status_reports(CaptureBridgeState { phase, last_error: error, ..st }, pending, r),
    ensures
        r.phase == phase,
        opt_text(r.last_error) == opt_text(error),
        r.bridge_url@ == CAPTURE_BRIDGE_URL@ && r.port == CAPTURE_PORT && r.auth_required,
        r.pending_captures as int == crate::arith::min_int(pending.len() as int, u32::MAX as int),
        r.rotated_at == st.rotated_at,
{
}


/// The timestamp a request carries, when it carries a readable one.
pub open spec fn request_timestamp(req: HttpRequest) -> Option<i64> {
    match header_of(req.headers@, AUTH_HEADER_TIMESTAMP@) {
        Some(raw) => crate::numbers::parse_i64_spec(raw),
        None => None,
    }
}

proof fn lemma_fresh_entries_keep(es: Seq<PendingCaptureEntry>, now: i64, k: int)
    requires
        0 <= k < es.len(),
        fresh_at(es[k].captured_at_ms, now),
    ensures
        fresh_entries(es, now).len() <= es.len(),
        fresh_entries(es, now).contains(es[k]),
    decreases es.len(),
{
    let d = es.drop_last();
    if k < es.len() - 1 {
        assert(d[k] == es[k]);
        lemma_fresh_entries_keep(d, now, k);
        let rest = fresh_entries(d, now);
        let j = choose|j: int| 0 <= j < rest.len() && rest[j] == es[k];
        if fresh_at(es.last().captured_at_ms, now) {
            assert(rest.push(es.last())[j] == es[k]);
        }
    } else {
        lemma_fresh_len(d, now);
        let rest = fresh_entries(d, now);
        assert(rest.push(es.last())[rest.len() as int] == es[k]);
    }
}

proof fn lemma_fresh_len(es: Seq<PendingCaptureEntry>, now: i64)
    ensures
        fresh_entries(es, now).len() <= es.len(),
    decreases es.len(),
{
    if es.len() > 0 {
        lemma_fresh_len(es.drop_last(), now);
    }
}

/// With no more pending captures than the cap, a capture for window `l` that is still
/// fresh at `now` is what taking the capture for `l` at `now` returns.
pub proof fn lemma_fresh_capture_is_taken(
    p0: PendingCaptures,
    p1: PendingCaptures,
    l: Seq<char>,
    r: Option<CapturePayload>,
    now: i64,
    k: int,
)
    requires
        p0.wf(),
        p0.entries@.len() <= MAX_PENDING_CAPTURES,
        0 <= k < p0.entries@.len(),
        p0.entries@[k].label@ == l,
        fresh_at(p0.entries@[k].captured_at_ms, now),
        taken_from(pruned_entries(p0.entries@, now), Some(l), r, p1.entries@),
    ensures
        r == Some(p0.entries@[k].payload),
{
    let es = p0.entries@;
    let f = fresh_entries(es, now);
    lemma_fresh_entries_keep(es, now, k);
    lemma_fresh_entries_fresh(es, now);
    assert(pruned_entries(es, now) == f);
    let j0 = choose|j: int| 0 <= j < f.len() && f[j] == es[k];
    assert(f[j0].label@ == l);
    assert(has_label(f, l));
    let i = choose|i: int| 0 <= i < f.len() && #[trigger] f[i].label@ == l && r == Some(f[i].payload) && p1.entries@ == f.remove(i);
    assert(es.contains(f[i]));
    let m = choose|m: int| 0 <= m < es.len() && es[m] == f[i];
    assert(es[m].label@ == es[k].label@);
    assert(m == k);
}

/// A request that carries every authentication header, a timestamp within the allowed skew
/// of `now`, a nonce not among the unexpired ones seen, and as signature (in bytes) the hex
/// HMAC of the request under the pairing secret is accepted, and its nonce remembered.
pub proof fn lemma_signed_request_accepted(
    s0: CaptureBridgeState,
    s1: CaptureBridgeState,
    req: HttpRequest,
    now: i64,
    r: Result<(), &'static str>,
    client: Seq<char>,
    ts: i64,
    nonce: Seq<char>,
    sig: Seq<char>,
)
    requires
        auth_answered(s0, s1, req, now, r),
        nonempty_header(req.headers@, AUTH_HEADER_CLIENT@) == Some(client),
        request_timestamp(req) == Some(ts),
        now - ts <= AUTH_TIMESTAMP_SKEW_MS,
        ts - now <= AUTH_TIMESTAMP_SKEW_MS,
        nonempty_header(req.headers@, AUTH_HEADER_REQUEST_NONCE@) == Some(nonce),
        nonempty_header(req.headers@, AUTH_HEADER_SIGNATURE@) == Some(sig),
        vstd::utf8::encode_utf8(sig) == crate::hex::hex_bytes(hmac_sha256_of(vstd::utf8::encode_utf8(s0.pairing_secret@),
            vstd::utf8::encode_utf8(auth_message(req.method@, req.path@, s0.session_nonce@, ts, nonce, client, req.body@)))),
        forall|k: int| 0 <= k < nonces_view(s0.seen_request_nonces@).skip(
            stale_nonce_count(nonces_view(s0.seen_request_nonces@), now) as int).len()
            ==> #[trigger] nonces_view(s0.seen_request_nonces@).skip(
                stale_nonce_count(nonces_view(s0.seen_request_nonces@), now) as int)[k].0 != nonce,
    ensures
        r is Ok,
        nonces_view(s1.seen_request_nonces@) == nonces_view(s0.seen_request_nonces@).skip(
            stale_nonce_count(nonces_view(s0.seen_request_nonces@), now) as int).push((nonce, now)),
{
    crate::hex::lemma_hex_round_trip(hmac_sha256_of(vstd::utf8::encode_utf8(s0.pairing_secret@),
        vstd::utf8::encode_utf8(auth_message(req.method@, req.path@, s0.session_nonce@, ts, nonce, client, req.body@))));
}

/// Authorizing the same request twice: once `authorize_request_at` accepted it at `now`,
/// asking again no later than the nonce lifetime after is refused, as a replay (or, when
/// its timestamp has meanwhile drifted out of the allowed skew, as stale); and a refused
/// request leaves no nonce of its own behind.
pub proof fn lemma_authorize_request_twice(
    s0: CaptureBridgeState,
    s1: CaptureBridgeState,
    s2: CaptureBridgeState,
    req: HttpRequest,
    now: i64,
    later: i64,
    r1: Result<(), &'static str>,
    r2: Result<(), &'static str>,
)
    requires
        auth_answered(s0, s1, req, now, r1),
        r1 is Ok,
        auth_answered(s1, s2, req, later, r2),
        now <= later,
        later - now <= AUTH_REQUEST_NONCE_TTL_MS,
    ensures
        (r2 matches Err(m) && (m@ == "replayed auth nonce"@ || m@ == "stale auth timestamp"@)),
        (request_timestamp(req) matches Some(ts) && later - ts <= AUTH_TIMESTAMP_SKEW_MS && ts - later <= AUTH_TIMESTAMP_SKEW_MS)
            ==> (r2 matches Err(m) && m@ == "replayed auth nonce"@),
        (nonempty_header(req.headers@, AUTH_HEADER_REQUEST_NONCE@) matches Some(n)
            && nonces_view(s1.seen_request_nonces@) == nonces_view(s0.seen_request_nonces@).skip(
                stale_nonce_count(nonces_view(s0.seen_request_nonces@), now) as int).push((n, now))),
        nonces_view(s2.seen_request_nonces@) == nonces_view(s1.seen_request_nonces@)
            || nonces_view(s2.seen_request_nonces@) == nonces_view(s1.seen_request_nonces@).skip(
                stale_nonce_count(nonces_view(s1.seen_request_nonces@), later) as int),
{
    let secret = s0.pairing_secret@;
    let session = s0.session_nonce@;
    let seen = nonces_view(s0.seen_request_nonces@);
    lemma_replay_refused(secret, session, seen, req, now, later);
    lemma_nonces_after_answer(secret, session, seen, req, now);
    lemma_nonces_after_answer(secret, session, nonces_view(s1.seen_request_nonces@), req, later);
}


/// Taking the capture for window `l` twice with `take_pending_capture_at`: the first take
/// returns only a capture that was still fresh at `now`, and the second (at any time) finds
/// nothing, since the first removed the window's only entry.
pub proof fn lemma_take_pending_capture_twice(
    p0: PendingCaptures,
    p1: PendingCaptures,
    p2: PendingCaptures,
    l: Seq<char>,
    r1: Option<CapturePayload>,
    r2: Option<CapturePayload>,
    now: i64,
    later: i64,
)
    requires
        p0.wf(),
        taken_from(pruned_entries(p0.entries@, now), Some(l), r1, p1.entries@),
        taken_from(pruned_entries(p1.entries@, later), Some(l), r2, p2.entries@),
    ensures
        r1 matches Some(p) ==> exists|k: int| 0 <= k < p0.entries@.len() && #[trigger] p0.entries@[k].payload == p
            && p0.entries@[k].label@ == l && fresh_at(p0.entries@[k].captured_at_ms, now),
        r1 is Some ==> r2 is None,
{
    lemma_taken_capture_is_fresh(p0.entries@, Some(l), r1, p1.entries@, now);
    if r1 is Some {
        let p = r1->0;
        lemma_second_take_finds_nothing(p0.entries@, l, p, p1.entries@, now, r2, p2.entries@, later);
        let es = p0.entries@;
        let f = fresh_entries(es, now);
        let c = capped_entries(f);
        lemma_fresh_entries_fresh(es, now);
        lemma_capped_entries_within(f);
        let i = choose|i: int| 0 <= i < c.len() && #[trigger] c[i].label@ == l && r1 == Some(c[i].payload) && p1.entries@ == c.remove(i);
        let j = choose|j: int| 0 <= j < f.len() && f[j] == c[i];
        let k = choose|k: int| 0 <= k < es.len() && es[k] == f[j];
        assert(fresh_at(f[j].captured_at_ms, now));
        assert(es[k].payload == p && es[k].label@ == l);
    }
}

} // verus!
