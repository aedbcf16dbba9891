//! Checksums: checking what the user expects, the integrity state of a download, and the
//! steps of verifying a completed file around the hashing itself.

use vstd::prelude::*;
use crate::download::{ChecksumAlgorithm, ChecksumSpec, DownloadIntegrity, DownloadLogLevel, DownloadRecord, DownloadStatus, IntegrityState};
use crate::download_ops::{log_append_spec, log_view};
use crate::model::opt_text;
use crate::queue_ops::id_pos;

verus! {

pub const INTEGRITY_PENDING_MESSAGE: &'static str = "Checksum validation will run after completion.";
pub const INTEGRITY_VERIFYING_MESSAGE: &'static str = "Verifying completed file checksum.";
pub const INTEGRITY_VERIFIED_MESSAGE: &'static str = "Checksum verified successfully.";
pub const INTEGRITY_MISMATCH_MESSAGE: &'static str = "Checksum mismatch detected.";
pub const VERIFY_STARTED_CODE: &'static str = "integrity.verify-started";
pub const VERIFY_STARTED_MESSAGE: &'static str = "Started checksum verification for the completed file.";

/// The number of hex digits of a digest.
pub open spec fn hash_len_spec(algorithm: ChecksumAlgorithm) -> int {
    match algorithm {
        ChecksumAlgorithm::Md5 => 32,
        ChecksumAlgorithm::Sha1 => 40,
        ChecksumAlgorithm::Sha256 => 64,
        ChecksumAlgorithm::Sha512 => 128,
    }
}

pub fn expected_hash_len(algorithm: &ChecksumAlgorithm) -> (r: usize)
    ensures
        r == hash_len_spec(*algorithm),
{
    match algorithm {
        ChecksumAlgorithm::Md5 => 32,
        ChecksumAlgorithm::Sha1 => 40,
        ChecksumAlgorithm::Sha256 => 64,
        ChecksumAlgorithm::Sha512 => 128,
    }
}

pub open spec fn label_spec(algorithm: ChecksumAlgorithm) -> Seq<char> {
    match algorithm {
        ChecksumAlgorithm::Md5 => "MD5"@,
        ChecksumAlgorithm::Sha1 => "SHA-1"@,
        ChecksumAlgorithm::Sha256 => "SHA-256"@,
        ChecksumAlgorithm::Sha512 => "SHA-512"@,
    }
}

pub fn algorithm_label(algorithm: &ChecksumAlgorithm) -> (r: &'static str)
    ensures
        r@ == label_spec(*algorithm),
{
    match algorithm {
        ChecksumAlgorithm::Md5 => "MD5",
        ChecksumAlgorithm::Sha1 => "SHA-1",
        ChecksumAlgorithm::Sha256 => "SHA-256",
        ChecksumAlgorithm::Sha512 => "SHA-512",
    }
}

pub open spec fn is_hex_char(c: char) -> bool {
    ('0' <= c && c <= '9') || ('a' <= c && c <= 'f') || ('A' <= c && c <= 'F')
}

pub open spec fn all_hex(s: Seq<char>) -> bool {
    forall|i: int| 0 <= i < s.len() ==> is_hex_char(#[trigger] s[i])
}

/// Why an expected checksum is refused, or the checksum in canonical form: trimmed and
/// lower-cased, not empty, hex digits only, exactly as long as the algorithm's digest.
pub open spec fn normalized_checksum(algorithm: ChecksumAlgorithm, value: Seq<char>) -> Result<Seq<char>, Seq<char>> {
    let n = crate::chars::lower_chars(crate::chars::trim_ws(value));
    if n.len() == 0 {
        Err("Checksum cannot be empty."@)
    } else if !all_hex(n) {
        Err("Checksum must contain only hexadecimal characters."@)
    } else if n.len() != hash_len_spec(algorithm) {
        Err(label_spec(algorithm) + " checksums must be exactly "@ + crate::text::decimal_spec(hash_len_spec(algorithm) as nat)
            + " hexadecimal characters."@)
    } else {
        Ok(n)
    }
}

/// The expected checksum in canonical form, or why it is refused.
pub fn normalize_checksum_spec(spec: ChecksumSpec) -> (r: Result<ChecksumSpec, String>)
    ensures
        match normalized_checksum(spec.algorithm, spec.value@) {
            Ok(n) => r matches Ok(c) && c.algorithm == spec.algorithm && c.value@ == n,
            Err(m) => r matches Err(e) && e@ == m,
        },
{
    let cs = crate::text::chars_of(spec.value.as_str());
    let t = crate::chars::trim_chars(cs.as_slice(), crate::chars::TrimClass::WhiteSpace);
    let n = crate::chars::lower_ascii(t.as_slice());
    if n.len() == 0 {
        return Err("Checksum cannot be empty.".to_string());
    }
    let mut i: usize = 0;
    while i < n.len()
        invariant
            i <= n@.len(),
            n@.len() > 0,
            n@ == crate::chars::lower_chars(crate::chars::trim_ws(spec.value@)),
            forall|j: int| 0 <= j < i ==> is_hex_char(#[trigger] n@[j]),
        decreases n@.len() - i,
    {
        let c = n[i];
        if !(('0' <= c && c <= '9') || ('a' <= c && c <= 'f') || ('A' <= c && c <= 'F')) {
            assert(!is_hex_char(n@[i as int]));
            assert(!all_hex(n@));
            return Err("Checksum must contain only hexadecimal characters.".to_string());
        }
        i = i + 1;
    }
    let expected = expected_hash_len(&spec.algorithm);
    if n.len() != expected {
        let mut m = String::new();
        m.append(algorithm_label(&spec.algorithm));
        m.append(" checksums must be exactly ");
        crate::text::push_decimal(&mut m, expected as u64);
        m.append(" hexadecimal characters.");
        proof {
            assert(Seq::<char>::empty() + label_spec(spec.algorithm) =~= label_spec(spec.algorithm));
        }
        return Err(m);
    }
    Ok(ChecksumSpec { algorithm: spec.algorithm, value: crate::chars::string_from_chars(n.as_slice()) })
}

/// An integrity record expecting `expected`: pending with its message when there is one,
/// without any check otherwise; the observation is cleared.
pub open spec fn reset_for_expected_spec(i: DownloadIntegrity, expected: Option<ChecksumSpec>) -> DownloadIntegrity {
    DownloadIntegrity {
        expected,
        actual: None,
        checked_at: None,
        state: if expected is Some { IntegrityState::Pending } else { IntegrityState::NoChecksum },
        message: i.message,
    }
}

pub fn reset_integrity_for_expected(integrity: &mut DownloadIntegrity, expected: Option<ChecksumSpec>)
    ensures
        final(integrity).expected == expected,
        final(integrity).actual is None && final(integrity).checked_at is None,
        final(integrity).state == (if expected is Some { IntegrityState::Pending } else { IntegrityState::NoChecksum }),
        opt_text(final(integrity).message) == (if expected is Some { Some(INTEGRITY_PENDING_MESSAGE@) } else { None }),
{
    let has = expected.is_some();
    integrity.expected = expected;
    integrity.actual = None;
    integrity.checked_at = None;
    if has {
        integrity.state = IntegrityState::Pending;
        integrity.message = Some(INTEGRITY_PENDING_MESSAGE.to_string());
    } else {
        integrity.state = IntegrityState::NoChecksum;
        integrity.message = None;
    }
}

/// Marks a check as running: observation cleared, verifying, with its message.
pub fn mark_integrity_verifying(integrity: &mut DownloadIntegrity)
    ensures
        final(integrity).expected == old(integrity).expected,
        final(integrity).actual is None && final(integrity).checked_at is None,
        final(integrity).state == IntegrityState::Verifying,
        opt_text(final(integrity).message) == Some(INTEGRITY_VERIFYING_MESSAGE@),
{
    integrity.actual = None;
    integrity.checked_at = None;
    integrity.state = IntegrityState::Verifying;
    integrity.message = Some(INTEGRITY_VERIFYING_MESSAGE.to_string());
}

/// Records a computed digest `actual` at `checked_at`: verified when it matched, a
/// mismatch otherwise, each with its message.
pub fn apply_integrity_result(integrity: &mut DownloadIntegrity, actual: String, matched: bool, checked_at: i64)
    ensures
        final(integrity).expected == old(integrity).expected,
        opt_text(final(integrity).actual) == Some(actual@),
        final(integrity).checked_at == Some(checked_at),
        final(integrity).state == (if matched { IntegrityState::Verified } else { IntegrityState::Mismatch }),
        opt_text(final(integrity).message) == Some(if matched { INTEGRITY_VERIFIED_MESSAGE@ } else { INTEGRITY_MISMATCH_MESSAGE@ }),
{
    integrity.actual = Some(actual);
    integrity.checked_at = Some(checked_at);
    integrity.state = if matched { IntegrityState::Verified } else { IntegrityState::Mismatch };
    integrity.message = Some(if matched { INTEGRITY_VERIFIED_MESSAGE.to_string() } else { INTEGRITY_MISMATCH_MESSAGE.to_string() });
}

pub open spec fn failure_detail(error: Seq<char>) -> Seq<char> {
    "Checksum verification failed: "@ + error
}

fn failure_text(error: &str) -> (r: String)
    ensures
        r@ == failure_detail(error@),
{
    let mut m = String::new();
    m.append("Checksum verification failed: ");
    m.append(error);
    assert(Seq::<char>::empty() + "Checksum verification failed: "@ =~= "Checksum verification failed: "@);
    m
}

/// Records that the check could not run: observation cleared, pending again, with the error.
pub fn mark_integrity_failure(integrity: &mut DownloadIntegrity, error: &str)
    ensures
        final(integrity).expected == old(integrity).expected,
        final(integrity).actual is None && final(integrity).checked_at is None,
        final(integrity).state == IntegrityState::Pending,
        opt_text(final(integrity).message) == Some(failure_detail(error@)),
{
    integrity.actual = None;
    integrity.checked_at = None;
    integrity.state = IntegrityState::Pending;
    integrity.message = Some(failure_text(error));
}

pub open spec fn same_checksum(a: ChecksumSpec, b: ChecksumSpec) -> bool {
    a.algorithm == b.algorithm && a.value@ == b.value@
}

pub fn copy_checksum(c: &ChecksumSpec) -> (r: ChecksumSpec)
    ensures
        same_checksum(r, *c),
{
    ChecksumSpec { algorithm: c.algorithm, value: c.value.clone() }
}

/// The first step of verifying download `id` at `now`: only a finished download that
/// expects a checksum is verified; it is marked verifying and the start is logged. Returns
/// its position and the checksum to compute.
pub fn begin_checksum_verification_at(registry: &mut crate::registry::RegistrySnapshot, id: &str, now: i64)
    -> (r: Option<(usize, ChecksumSpec)>)
    ensures
        match id_pos(old(registry).downloads@, id@) {
            Some(i) => {
                let d = old(registry).downloads@[i];
                if d.integrity.expected is Some && d.status == DownloadStatus::Finished {
                    r matches Some((p, c)) && p == i && same_checksum(c, d.integrity.expected->0)
                        && crate::queue_ops::only_download_changed(*old(registry), *final(registry), i)
                        && started_spec(d, final(registry).downloads@[i], now)
                } else {
                    r is None && *final(registry) == *old(registry)
                }
            },
            None => r is None && *final(registry) == *old(registry),
        },
{
    proof { crate::queue_ops::lemma_id_pos(registry.downloads@, id@); }
    let i = match crate::queue_ops::find_download(&registry.downloads, id) {
        Some(i) => i,
        None => { return None; },
    };
    let expected = match &registry.downloads[i].integrity.expected {
        Some(e) => copy_checksum(e),
        None => { return None; },
    };
    if registry.downloads[i].status != DownloadStatus::Finished {
        return None;
    }
    mark_integrity_verifying(&mut registry.downloads[i].integrity);
    let ghost mid = registry.downloads@[i as int];
    crate::download_ops::append_download_log_at(&mut registry.downloads[i], DownloadLogLevel::Info, VERIFY_STARTED_CODE, VERIFY_STARTED_MESSAGE, now);
    assert(registry.downloads@ =~= old(registry).downloads@.update(i as int, registry.downloads@[i as int]));
    Some((i, expected))
}

/// A download whose verification started at `now`.
pub open spec fn started_spec(before: DownloadRecord, after: DownloadRecord, now: i64) -> bool {
    &&& after.integrity.expected == before.integrity.expected
    &&& after.integrity.actual is None && after.integrity.checked_at is None
    &&& after.integrity.state == IntegrityState::Verifying
    &&& opt_text(after.integrity.message) == Some(INTEGRITY_VERIFYING_MESSAGE@)
    &&& log_view(after.engine_log@) == log_append_spec(log_view(before.engine_log@), DownloadLogLevel::Info,
        VERIFY_STARTED_CODE@, VERIFY_STARTED_MESSAGE@, now)
    &&& after == (DownloadRecord { integrity: after.integrity, engine_log: after.engine_log, ..before })
}

pub open spec fn verified_detail(value: Seq<char>) -> Seq<char> {
    "Verified "@ + value + " checksum for the completed file."@
}

pub open spec fn mismatch_detail(expected: Seq<char>, actual: Seq<char>) -> Seq<char> {
    "Checksum mismatch: expected "@ + expected + " but computed "@ + actual + "."@
}

/// `warnings` with `w` appended unless it is there already.
pub open spec fn with_warning(warnings: Seq<Seq<char>>, w: Seq<char>) -> Seq<Seq<char>> {
    if warnings.contains(w) { warnings } else { warnings.push(w) }
}

/// A download after its computed digest (or the error computing it) came back at `now`.
pub open spec fn finished_spec(before: DownloadRecord, after: DownloadRecord, expected: ChecksumSpec, outcome: Result<Seq<char>, Seq<char>>, now: i64) -> bool {
    let ws = crate::registry::strings_view(before.diagnostics.warnings@);
    match outcome {
        Ok(actual) => {
            let matched = actual == expected.value@;
            let detail = if matched { verified_detail(expected.value@) } else { mismatch_detail(expected.value@, actual) };
            &&& after.integrity.expected == before.integrity.expected
            &&& opt_text(after.integrity.actual) == Some(actual)
            &&& after.integrity.checked_at == Some(now)
            &&& after.integrity.state == (if matched { IntegrityState::Verified } else { IntegrityState::Mismatch })
            &&& opt_text(after.integrity.message) == Some(if matched { INTEGRITY_VERIFIED_MESSAGE@ } else { INTEGRITY_MISMATCH_MESSAGE@ })
            &&& log_view(after.engine_log@) == log_append_spec(log_view(before.engine_log@),
                if matched { DownloadLogLevel::Info } else { DownloadLogLevel::Warn },
                if matched { "integrity.verified"@ } else { "integrity.mismatch"@ }, detail, now)
            &&& crate::registry::strings_view(after.diagnostics.warnings@) == (if matched { ws } else { with_warning(ws, detail) })
            &&& after == (DownloadRecord {
                integrity: after.integrity,
                engine_log: after.engine_log,
                diagnostics: crate::download::DownloadDiagnostics { warnings: after.diagnostics.warnings, ..before.diagnostics },
                ..before
            })
        },
        Err(error) => {
            let detail = failure_detail(error);
            &&& after.integrity.expected == before.integrity.expected
            &&& after.integrity.actual is None && after.integrity.checked_at is None
            &&& after.integrity.state == IntegrityState::Pending
            &&& opt_text(after.integrity.message) == Some(detail)
            &&& log_view(after.engine_log@) == log_append_spec(log_view(before.engine_log@), DownloadLogLevel::Error,
                "integrity.verify-failed"@, detail, now)
            &&& crate::registry::strings_view(after.diagnostics.warnings@) == with_warning(ws, detail)
            &&& after == (DownloadRecord {
                integrity: after.integrity,
                engine_log: after.engine_log,
                diagnostics: crate::download::DownloadDiagnostics { warnings: after.diagnostics.warnings, ..before.diagnostics },
                ..before
            })
        },
    }
}

pub open spec fn outcome_view(o: Result<String, String>) -> Result<Seq<char>, Seq<char>> {
    match o {
        Ok(a) => Ok(a@),
        Err(e) => Err(e@),
    }
}

fn push_warning_once(warnings: &mut Vec<String>, w: String)
    ensures
        crate::registry::strings_view(final(warnings)@) == with_warning(crate::registry::strings_view(old(warnings)@), w@),
{
    let ghost v = crate::registry::strings_view(warnings@);
    let mut i: usize = 0;
    while i < warnings.len()
        invariant
            i <= warnings@.len(),
            v == crate::registry::strings_view(warnings@),
            forall|j: int| 0 <= j < i ==> v[j] != w@,
        decreases warnings@.len() - i,
    {
        if crate::text::str_equal(warnings[i].as_str(), w.as_str()) {
            assert(v[i as int] == w@);
            return;
        }
        i = i + 1;
    }
    warnings.push(w);
    assert(crate::registry::strings_view(warnings@) =~= v.push(w@));
}

/// The last step of verifying download `id` at `now`, given what computing `expected`
/// gave: applied only when the download is still finished and still expects the same
/// checksum. Tells whether it was applied.
pub fn finish_checksum_verification_at(
    registry: &mut crate::registry::RegistrySnapshot,
    id: &str,
    expected: &ChecksumSpec,
    outcome: Result<String, String>,
    now: i64,
) -> (applied: bool)
    ensures
        match id_pos(old(registry).downloads@, id@) {
            Some(i) => {
                let d = old(registry).downloads@[i];
                if d.status == DownloadStatus::Finished && d.integrity.expected is Some
                    && same_checksum(d.integrity.expected->0, *expected) {
                    applied && crate::queue_ops::only_download_changed(*old(registry), *final(registry), i)
                        && finished_spec(d, final(registry).downloads@[i], *expected, outcome_view(outcome), now)
                } else {
                    !applied && *final(registry) == *old(registry)
                }
            },
            None => !applied && *final(registry) == *old(registry),
        },
{
    proof { crate::queue_ops::lemma_id_pos(registry.downloads@, id@); }
    let i = match crate::queue_ops::find_download(&registry.downloads, id) {
        Some(i) => i,
        None => { return false; },
    };
    if registry.downloads[i].status != DownloadStatus::Finished {
        return false;
    }
    let same = match &registry.downloads[i].integrity.expected {
        Some(e) => e.algorithm == expected.algorithm && crate::text::str_equal(e.value.as_str(), expected.value.as_str()),
        None => false,
    };
    if !same {
        return false;
    }
    let ghost d0 = registry.downloads@[i as int];
    match outcome {
        Ok(actual) => {
            let matched = crate::text::str_equal(actual.as_str(), expected.value.as_str());
            let mut detail = String::new();
            if matched {
                detail.append("Verified ");
                detail.append(expected.value.as_str());
                detail.append(" checksum for the completed file.");
                assert(Seq::<char>::empty() + "Verified "@ =~= "Verified "@);
            } else {
                detail.append("Checksum mismatch: expected ");
                detail.append(expected.value.as_str());
                detail.append(" but computed ");
                detail.append(actual.as_str());
                detail.append(".");
                assert(Seq::<char>::empty() + "Checksum mismatch: expected "@ =~= "Checksum mismatch: expected "@);
            }
            let ghost av = actual@;
            apply_integrity_result(&mut registry.downloads[i].integrity, actual, matched, now);
            let level = if matched { DownloadLogLevel::Info } else { DownloadLogLevel::Warn };
            let code = if matched { "integrity.verified" } else { "integrity.mismatch" };
            crate::download_ops::append_download_log_at(&mut registry.downloads[i], level, code, detail.as_str(), now);
            if !matched {
                push_warning_once(&mut registry.downloads[i].diagnostics.warnings, detail);
            }
            proof {
                assert(finished_spec(d0, registry.downloads@[i as int], *expected, Ok(av), now));
            }
        },
        Err(error) => {
            let detail = failure_text(error.as_str());
            mark_integrity_failure(&mut registry.downloads[i].integrity, error.as_str());
            crate::download_ops::append_download_log_at(&mut registry.downloads[i], DownloadLogLevel::Error, "integrity.verify-failed", detail.as_str(), now);
            push_warning_once(&mut registry.downloads[i].diagnostics.warnings, detail);
        },
    }
    assert(registry.downloads@ =~= old(registry).downloads@.update(i as int, registry.downloads@[i as int]));
    true
}

} // verus!
