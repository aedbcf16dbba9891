use velocity_engine::model::{HostProfile, ProbeScopeCache};
use velocity_engine::probe_cache::{
    fresh_probe_capabilities, probe_cache_stale, PROBE_CAPABILITY_TTL_MS, PROBE_CAPABILITY_UNSTABLE_TTL_MS,
    PROBE_SCOPE_STABLE_TELEMETRY_SAMPLES,
};

#[test]
fn stable_scope_capabilities_outlive_the_default_ttl() {
    let now = 1_000_000_000;
    let mut profile = HostProfile::default();
    profile.set_probe_scope(
        "get|https://example.com/file",
        ProbeScopeCache {
            range_supported: Some(true),
            resumable: Some(true),
            content_length_hint: Some(1024),
            last_probe_at: Some(now - (PROBE_CAPABILITY_TTL_MS + 5 * 60 * 1_000)),
            telemetry_samples: PROBE_SCOPE_STABLE_TELEMETRY_SAMPLES,
            last_telemetry_at: Some(now - 60_000),
            ..ProbeScopeCache::default()
        },
    );

    assert!(fresh_probe_capabilities(&profile, "get|https://example.com/file", now).is_some());
    assert!(!probe_cache_stale(&profile, "get|https://example.com/file", now));
}

#[test]
fn unstable_scope_capabilities_expire_early() {
    let now = 2_000_000_000;
    let mut profile = HostProfile::default();
    profile.set_probe_scope(
        "post|https://example.com/wrapper",
        ProbeScopeCache {
            range_supported: Some(true),
            resumable: Some(true),
            content_length_hint: Some(4096),
            last_probe_at: Some(now - (PROBE_CAPABILITY_UNSTABLE_TTL_MS + 1_000)),
            last_instability_at: Some(now - 1_000),
            ..ProbeScopeCache::default()
        },
    );

    assert!(fresh_probe_capabilities(&profile, "post|https://example.com/wrapper", now).is_none());
    assert!(probe_cache_stale(&profile, "post|https://example.com/wrapper", now));
}
