use velocity_engine::app_update::{
    format_wait_duration, github_rate_limit_message, github_rate_limited, github_retry_hint, highest_version_tag_name,
    is_newer_version, is_stale_updater_temp_artifact, normalize_release_version, should_try_release_fallback,
};

#[test]
fn release_versions_lose_their_v_prefix() {
    assert_eq!(normalize_release_version("  v1.2.3 "), "1.2.3");
    assert_eq!(normalize_release_version("VV2.0.0"), "2.0.0");
}

#[test]
fn newer_versions_compare_by_semver() {
    assert!(is_newer_version("v1.10.0", "1.9.3"));
    assert!(!is_newer_version("1.2.0", "v1.2.0"));
    assert!(!is_newer_version("1.2.0-beta.1", "1.2.0"));
    assert!(is_newer_version("nightly", "1.2.0"));
    assert!(!is_newer_version("nightly", " vnightly"));
}

#[test]
fn highest_stable_tag_wins() {
    let tags = vec!["v1.2.0".to_string(), "v1.10.0-rc.1".to_string(), "junk".to_string(), "v1.9.9".to_string()];
    assert_eq!(highest_version_tag_name(tags), Some("v1.9.9".to_string()));
    assert_eq!(highest_version_tag_name(vec!["x".to_string()]), None);
}

#[test]
fn release_fallback_follows_the_error() {
    assert!(should_try_release_fallback(true, "anything"));
    assert!(should_try_release_fallback(false, "Could not fetch a valid release JSON from the remote"));
    assert!(should_try_release_fallback(false, "HTTP 404"));
    assert!(!should_try_release_fallback(false, "network unreachable"));
}

#[test]
fn wait_durations_round_up() {
    assert_eq!(format_wait_duration(0), "1s");
    assert_eq!(format_wait_duration(59), "59s");
    assert_eq!(format_wait_duration(61), "2m");
    assert_eq!(format_wait_duration(3_600), "1h");
    assert_eq!(format_wait_duration(3_601), "2h");
}

#[test]
fn rate_limit_hints_and_messages() {
    assert_eq!(github_retry_hint(Some(" 30 "), None, Some(0)), Some("Estimated wait: 30s.".to_string()));
    assert_eq!(github_retry_hint(None, Some("1000"), Some(400)), Some("Estimated wait: 10m.".to_string()));
    assert_eq!(github_retry_hint(Some("soon"), None, Some(0)), None);
    assert!(github_rate_limited(429, None));
    assert!(github_rate_limited(403, Some("0")));
    assert!(!github_rate_limited(403, Some(" 0 ")));
    assert!(!github_rate_limited(403, Some("12")));
    assert_eq!(
        github_rate_limit_message(Some("Estimated wait: 5s.".to_string())),
        "GitHub temporarily rate-limited updater fallback requests. Try again shortly or install manually from https://github.com/vamptux/Velocity-Download-Manager/releases. Estimated wait: 5s."
    );
}

#[test]
fn updater_leftovers_are_recognised() {
    assert!(is_stale_updater_temp_artifact("Velocity Download Manager-1.2.0-updater-x64.exe"));
    assert!(is_stale_updater_temp_artifact("velocity download manager-setup-installer.msi"));
    assert!(!is_stale_updater_temp_artifact("other-app-updater-1.exe"));
}
