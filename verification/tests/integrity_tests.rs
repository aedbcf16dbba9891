use velocity_engine::download::{ChecksumAlgorithm, ChecksumSpec, DownloadIntegrity, IntegrityState};
use velocity_engine::integrity::{
    algorithm_label, apply_integrity_result, expected_hash_len, mark_integrity_failure, mark_integrity_verifying,
    normalize_checksum_spec, reset_integrity_for_expected,
};

fn spec(algorithm: ChecksumAlgorithm, value: &str) -> ChecksumSpec {
    ChecksumSpec { algorithm, value: value.to_string() }
}

fn blank_integrity() -> DownloadIntegrity {
    DownloadIntegrity { expected: None, actual: None, checked_at: None, state: IntegrityState::NoChecksum, message: None }
}

#[test]
fn checksum_is_trimmed_and_lower_cased() {
    let value = "  D41D8CD98F00B204E9800998ECF8427E ";
    let normalized = normalize_checksum_spec(spec(ChecksumAlgorithm::Md5, value)).unwrap();
    assert_eq!(normalized.value, "d41d8cd98f00b204e9800998ecf8427e");
    assert_eq!(normalized.algorithm, ChecksumAlgorithm::Md5);
}

#[test]
fn checksum_errors_name_the_problem() {
    assert_eq!(normalize_checksum_spec(spec(ChecksumAlgorithm::Sha1, "   ")).unwrap_err(), "Checksum cannot be empty.");
    assert_eq!(
        normalize_checksum_spec(spec(ChecksumAlgorithm::Sha1, "xyz")).unwrap_err(),
        "Checksum must contain only hexadecimal characters."
    );
    assert_eq!(
        normalize_checksum_spec(spec(ChecksumAlgorithm::Sha256, "abcd")).unwrap_err(),
        "SHA-256 checksums must be exactly 64 hexadecimal characters."
    );
}

#[test]
fn digest_lengths_and_labels() {
    assert_eq!(expected_hash_len(&ChecksumAlgorithm::Md5), 32);
    assert_eq!(expected_hash_len(&ChecksumAlgorithm::Sha512), 128);
    assert_eq!(algorithm_label(&ChecksumAlgorithm::Sha1), "SHA-1");
}

#[test]
fn integrity_states_follow_the_check() {
    let mut i = blank_integrity();
    reset_integrity_for_expected(&mut i, Some(spec(ChecksumAlgorithm::Md5, "00")));
    assert_eq!(i.state, IntegrityState::Pending);
    assert_eq!(i.message.as_deref(), Some("Checksum validation will run after completion."));
    mark_integrity_verifying(&mut i);
    assert_eq!(i.state, IntegrityState::Verifying);
    apply_integrity_result(&mut i, "11".to_string(), false, 99);
    assert_eq!(i.state, IntegrityState::Mismatch);
    assert_eq!(i.checked_at, Some(99));
    assert_eq!(i.message.as_deref(), Some("Checksum mismatch detected."));
    mark_integrity_failure(&mut i, "disk gone");
    assert_eq!(i.state, IntegrityState::Pending);
    assert_eq!(i.actual, None);
    assert_eq!(i.message.as_deref(), Some("Checksum verification failed: disk gone"));
    reset_integrity_for_expected(&mut i, None);
    assert_eq!(i.state, IntegrityState::NoChecksum);
    assert_eq!(i.message, None);
}
