use velocity_engine::html::{extract_html_filename_hint, is_html_interstitial_response};
use velocity_engine::probe::{
    classify_range_observation, should_try_standard_probe, ProbeStageMetadata, RangeObservation, ResumeValidators,
};

fn html_stage(final_url: &str) -> ProbeStageMetadata {
    ProbeStageMetadata {
        final_url: final_url.to_string(),
        size: None,
        mime_type: Some("text/html".to_string()),
        negotiated_protocol: Some("http2".to_string()),
        range_observation: RangeObservation::Unknown,
        validators: ResumeValidators::default(),
        html_interstitial: true,
        html_resolution: None,
    }
}

#[test]
fn flags_generic_html_wrapper_responses() {
    assert!(is_html_interstitial_response(
        "https://example.com/download?id=42",
        Some("text/html; charset=utf-8"),
        None,
    ));
}

#[test]
fn allows_named_html_file_responses() {
    assert!(!is_html_interstitial_response(
        "https://example.com/help/manual.html",
        Some("text/html"),
        None,
    ));
}

#[test]
fn standard_probe_runs_after_html_only_preflight() {
    assert!(should_try_standard_probe(Some(&html_stage("https://example.com/download")), None));
}

#[test]
fn accept_ranges_header_without_confirmed_range_response_stays_unknown() {
    assert_eq!(classify_range_observation(200, false, Some("bytes"), None), RangeObservation::Unknown);
}

#[test]
fn range_get_200_overrides_accept_ranges_header_as_unsupported() {
    assert_eq!(classify_range_observation(200, true, Some("bytes"), None), RangeObservation::Unsupported);
}

#[test]
fn extracts_filename_hint_from_html_wrapper_title() {
    let html = r#"
                        <html>
                            <head>
                                <title>Human_Fall_Flat_Build_01152026.rar - Gofile</title>
                            </head>
                        </html>
                "#;

    assert_eq!(extract_html_filename_hint(html).as_deref(), Some("Human_Fall_Flat_Build_01152026.rar"));
}
