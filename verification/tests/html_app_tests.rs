use velocity_engine::html::{HtmlAppApiHint, HtmlFollowUpMethod};
use velocity_engine::html_app::{
    browser_primary_language, generate_html_app_website_token, generate_html_app_website_token_for_bucket,
    normalize_html_app_direct_download_url, select_html_app_direct_download, HtmlAppContentData, HtmlAppContentChild,
};
use velocity_engine::html_app_resolver::{html_app_api_step, AppApiAction, AppApiEvent, AppApiPhase, HtmlAppApiConfig};
use velocity_engine::html_links::{extract_html_direct_download_url, extract_html_follow_up_request};

#[test]
fn extracts_direct_download_url_from_html_wrapper() {
    let html = r#"
                        <html>
                            <head>
                                <script>
                                    window.directLink = "https:\/\/cdn.example.com\/releases\/toolkit.zip";
                                </script>
                            </head>
                            <body>
                                <a href="/dist/app.js">app</a>
                                <a href="/download?id=42">Download</a>
                            </body>
                        </html>
                "#;

    assert_eq!(
        extract_html_direct_download_url("https://example.com/d/42", html).as_deref(),
        Some("https://cdn.example.com/releases/toolkit.zip")
    );
}

#[test]
fn extracts_location_redirect_from_html_wrapper() {
    let html = r#"
                        <html>
                            <head>
                                <script>
                                    window.location.href = "https://cdn.example.com/files/toolkit.exe";
                                </script>
                            </head>
                        </html>
                "#;

    assert_eq!(
        extract_html_direct_download_url("https://example.com/share/toolkit", html).as_deref(),
        Some("https://cdn.example.com/files/toolkit.exe")
    );
}

#[test]
fn extracts_post_form_follow_up_from_html_wrapper() {
    let html = r#"
                        <html>
                            <body>
                                <form method="post" action="/download?file=archive.part01.rar&amp;token=abc123">
                                    <input type="hidden" name="op" value="download2" />
                                    <input type="hidden" name="id" value="abc123" />
                                    <button type="submit">Continue</button>
                                </form>
                            </body>
                        </html>
                "#;

    let request = extract_html_follow_up_request("https://example.com/share/abc", html)
        .expect("expected follow-up request");

    assert_eq!(request.url, "https://example.com/download?file=archive.part01.rar&token=abc123");
    assert_eq!(request.method, HtmlFollowUpMethod::Post);
    assert_eq!(
        request.fields,
        vec![
            ("op".to_string(), "download2".to_string()),
            ("id".to_string(), "abc123".to_string()),
        ]
    );
}

#[test]
fn ignores_static_assets_when_extracting_wrapper_link() {
    let html = r#"
                        <html>
                            <body>
                                <a href="/dist/app.js">script</a>
                                <a href="/assets/logo.png">logo</a>
                                <a href="/download?file=archive.part01.rar">Download</a>
                            </body>
                        </html>
                "#;

    assert_eq!(
        extract_html_direct_download_url("https://example.com/share/abc", html).as_deref(),
        Some("https://example.com/download?file=archive.part01.rar")
    );
}

#[test]
fn app_links_keep_only_http_and_https() {
    assert_eq!(
        normalize_html_app_direct_download_url("https://cdn.example.com/a b.zip").as_deref(),
        Some("https://cdn.example.com/a%20b.zip")
    );
    assert_eq!(
        normalize_html_app_direct_download_url("HTTP://Example.com").as_deref(),
        Some("http://example.com/")
    );
    assert_eq!(normalize_html_app_direct_download_url("ftp://example.com/file.zip"), None);
    assert_eq!(normalize_html_app_direct_download_url("not a url"), None);
}

#[test]
fn primary_language_is_first_listed() {
    assert_eq!(browser_primary_language("en-US,en;q=0.9"), "en-US");
    assert_eq!(browser_primary_language("  fr-FR , de"), "fr-FR");
    assert_eq!(browser_primary_language(" ,de"), " ,de");
    assert_eq!(browser_primary_language(""), "");
}

#[test]
fn website_token_hashes_its_bucket_text() {
    assert_eq!(
        generate_html_app_website_token_for_bucket("Mozilla/5.0", "en-US", "tok123", "seedX", 5),
        "4b0440a69504b483479a083deb1303545cbe04224a0da58d52ea90fb3b8677e6"
    );
    let now = generate_html_app_website_token("Mozilla/5.0", "en-US", "tok123", "seedX");
    assert_eq!(now.len(), 64);
    assert!(now.chars().all(|c| c.is_ascii_hexdigit() && !c.is_ascii_uppercase()));
}

fn child(link: Option<&str>, name: Option<&str>, kind: Option<&str>) -> HtmlAppContentChild {
    HtmlAppContentChild {
        link: link.map(str::to_string),
        name: name.map(str::to_string),
        kind: kind.map(str::to_string),
    }
}

fn folder(children: Vec<(&str, HtmlAppContentChild)>) -> HtmlAppContentData {
    HtmlAppContentData {
        link: None,
        name: None,
        kind: Some("folder".to_string()),
        children: children.into_iter().map(|(k, c)| (k.to_string(), c)).collect(),
    }
}

#[test]
fn app_content_own_link_wins_unless_folder() {
    let content = HtmlAppContentData {
        link: Some("https://cdn.example.com/file.zip".to_string()),
        name: Some("file.zip".to_string()),
        kind: Some("file".to_string()),
        children: vec![("a".to_string(), child(Some("https://other.example.com/x.bin"), Some("x.bin"), Some("file")))],
    };
    let picked = select_html_app_direct_download(&content, "accountToken=t").expect("own link");
    assert_eq!(picked.direct_download_url, "https://cdn.example.com/file.zip");
    assert_eq!(picked.suggested_name.as_deref(), Some("file.zip"));
    assert_eq!(picked.request_cookies.as_deref(), Some("accountToken=t"));

    let mut as_folder = content.clone();
    as_folder.kind = Some("folder".to_string());
    let picked = select_html_app_direct_download(&as_folder, "accountToken=t").expect("child link");
    assert_eq!(picked.direct_download_url, "https://other.example.com/x.bin");
}

#[test]
fn app_content_picks_last_best_scoring_child() {
    let content = folder(vec![
        ("a", child(Some("https://h.example.com/readme"), Some("readme"), Some("file"))),
        ("b", child(Some("https://h.example.com/one.zip"), Some("one.zip"), Some("file"))),
        ("c", child(Some("https://h.example.com/two.zip"), Some("two.zip"), Some("file"))),
        ("d", child(Some("https://h.example.com/sub"), Some("sub"), Some("folder"))),
    ]);
    let picked = select_html_app_direct_download(&content, "accountToken=t").expect("a child");
    assert_eq!(picked.direct_download_url, "https://h.example.com/two.zip");
    assert_eq!(picked.suggested_name.as_deref(), Some("two.zip"));
}

#[test]
fn app_content_without_usable_link_gives_nothing() {
    assert!(select_html_app_direct_download(&folder(vec![]), "accountToken=t").is_none());
    let content = folder(vec![("a", child(Some("ftp://h.example.com/one.zip"), Some("one.zip"), Some("file")))]);
    assert!(select_html_app_direct_download(&content, "accountToken=t").is_none());
}

fn hint(config_url: Option<&str>, inline: Option<(&str, &str)>) -> HtmlAppApiHint {
    HtmlAppApiHint {
        config_url: config_url.map(str::to_string),
        inline_api_base_url: inline.map(|(a, _)| a.to_string()),
        inline_website_token_seed: inline.map(|(_, s)| s.to_string()),
        content_id: "abc".to_string(),
    }
}

fn finished_error(action: AppApiAction) -> (String, Option<String>) {
    match action {
        AppApiAction::Finish { outcome: Err(e), failure_for } => (e, failure_for),
        _ => panic!("expected a failed finish"),
    }
}

#[test]
fn resolver_without_config_resolves_nothing() {
    let (phase, action) = html_app_api_step(&hint(None, None), AppApiPhase::Start, AppApiEvent::Begin);
    assert!(matches!(phase, AppApiPhase::Done));
    assert!(matches!(action, AppApiAction::Finish { outcome: Ok(None), failure_for: None }));
}

#[test]
fn resolver_reports_config_http_failure() {
    let h = hint(Some("https://example.com/config.js"), None);
    let (phase, action) = html_app_api_step(&h, AppApiPhase::Start, AppApiEvent::Begin);
    match &action {
        AppApiAction::FetchConfig { config_url } => assert_eq!(config_url, "https://example.com/config.js"),
        _ => panic!("expected a config fetch"),
    }
    let (phase, action) =
        html_app_api_step(&h, phase, AppApiEvent::ConfigFetched { http_status: 503, body: String::new() });
    assert!(matches!(phase, AppApiPhase::Done));
    let (e, failure_for) = finished_error(action);
    assert_eq!(e, "Wrapper config request returned HTTP 503.");
    assert_eq!(failure_for.as_deref(), Some("https://example.com/config.js"));
}

#[test]
fn resolver_reports_unusable_config() {
    let h = hint(Some("https://example.com/config.js"), None);
    let phase = AppApiPhase::AwaitConfig { config_url: "https://example.com/config.js".to_string() };
    let (_, action) = html_app_api_step(&h, phase, AppApiEvent::ConfigFetched { http_status: 200, body: "{}".to_string() });
    let (e, failure_for) = finished_error(action);
    assert_eq!(e, "Wrapper config did not expose a usable app API mapping.");
    assert_eq!(failure_for, None);
}

fn config() -> HtmlAppApiConfig {
    HtmlAppApiConfig { api_base_url: "https://api.example.com".to_string(), website_token_seed: "seed".to_string() }
}

#[test]
fn resolver_retries_once_after_cached_token_is_refused() {
    let h = hint(None, Some(("https://api.example.com", "seed")));
    let (phase, action) = html_app_api_step(&h, AppApiPhase::Start, AppApiEvent::Begin);
    assert!(matches!(action, AppApiAction::ObtainGuestToken { discard_cached: false, .. }));
    let (phase, action) = html_app_api_step(&h, phase, AppApiEvent::GuestTokenCached { token: "old".to_string() });
    match &action {
        AppApiAction::RequestContent { api_base_url, content_id, guest_token, website_token_seed, cache_token } => {
            assert_eq!(api_base_url, "https://api.example.com");
            assert_eq!(content_id, "abc");
            assert_eq!(guest_token, "old");
            assert_eq!(website_token_seed, "seed");
            assert!(!cache_token);
        },
        _ => panic!("expected a content request"),
    }
    let refused = AppApiEvent::ContentFetched { http_status: 401, payload_status: String::new(), content: folder(vec![]) };
    let (phase, action) = html_app_api_step(&h, phase, refused);
    assert!(matches!(action, AppApiAction::ObtainGuestToken { discard_cached: true, .. }));
    let fresh = AppApiEvent::GuestAccountFetched {
        http_status: 200,
        payload_status: "ok".to_string(),
        token: Some("  new  ".to_string()),
    };
    let (phase, action) = html_app_api_step(&h, phase, fresh);
    match &action {
        AppApiAction::RequestContent { guest_token, cache_token, .. } => {
            assert_eq!(guest_token, "new");
            assert!(*cache_token);
        },
        _ => panic!("expected a content request"),
    }
    let again = AppApiEvent::ContentFetched { http_status: 403, payload_status: String::new(), content: folder(vec![]) };
    let (phase, action) = html_app_api_step(&h, phase, again);
    assert!(matches!(phase, AppApiPhase::Done));
    let (e, failure_for) = finished_error(action);
    assert_eq!(e, "Wrapper app API content request returned HTTP 403.");
    assert_eq!(failure_for.as_deref(), Some("https://api.example.com"));
}

#[test]
fn resolver_reports_guest_account_failures() {
    let h = hint(None, Some(("https://api.example.com", "seed")));
    let waiting = || AppApiPhase::AwaitGuestToken { config: config(), retried: false };
    let (_, action) = html_app_api_step(&h, waiting(), AppApiEvent::GuestAccountFetched {
        http_status: 500,
        payload_status: String::new(),
        token: None,
    });
    assert_eq!(finished_error(action).0, "Wrapper app API guest account request returned HTTP 500.");
    let (_, action) = html_app_api_step(&h, waiting(), AppApiEvent::GuestAccountFetched {
        http_status: 200,
        payload_status: "error-rateLimit".to_string(),
        token: Some("t".to_string()),
    });
    assert_eq!(finished_error(action).0, "Wrapper app API guest account request returned error-rateLimit.");
    let (_, action) = html_app_api_step(&h, waiting(), AppApiEvent::GuestAccountFetched {
        http_status: 200,
        payload_status: "ok".to_string(),
        token: Some("   ".to_string()),
    });
    let (e, failure_for) = finished_error(action);
    assert_eq!(e, "Wrapper app API guest account request did not return a token.");
    assert_eq!(failure_for.as_deref(), Some("https://api.example.com"));
    let (_, action) = html_app_api_step(&h, waiting(), AppApiEvent::Failed { message: "boom".to_string() });
    assert_eq!(finished_error(action), ("boom".to_string(), None));
}

#[test]
fn resolver_resolves_content_with_account_cookie() {
    let h = hint(None, Some(("https://api.example.com", "seed")));
    let phase = AppApiPhase::AwaitContent {
        config: config(),
        guest_token: "tok".to_string(),
        token_from_cache: false,
        retried: false,
    };
    let content = folder(vec![("a", child(Some("https://h.example.com/one.zip"), Some("one.zip"), Some("file")))]);
    let (phase, action) = html_app_api_step(&h, phase, AppApiEvent::ContentFetched {
        http_status: 200,
        payload_status: "ok".to_string(),
        content,
    });
    assert!(matches!(phase, AppApiPhase::Done));
    match action {
        AppApiAction::Finish { outcome: Ok(Some(found)), failure_for: None } => {
            assert_eq!(found.direct_download_url, "https://h.example.com/one.zip");
            assert_eq!(found.request_cookies.as_deref(), Some("accountToken=tok"));
        },
        _ => panic!("expected a resolved download"),
    }
    let phase = AppApiPhase::AwaitContent {
        config: config(),
        guest_token: "tok".to_string(),
        token_from_cache: false,
        retried: false,
    };
    let (_, action) = html_app_api_step(&h, phase, AppApiEvent::ContentFetched {
        http_status: 200,
        payload_status: "error-notFound".to_string(),
        content: folder(vec![]),
    });
    let (e, failure_for) = finished_error(action);
    assert_eq!(e, "Wrapper app API content request returned error-notFound.");
    assert_eq!(failure_for, None);
}

use velocity_engine::html_app_cache::HtmlAppGuestTokenCache;

#[test]
fn guest_tokens_are_reused_until_they_expire() {
    let mut cache = HtmlAppGuestTokenCache::new();
    assert_eq!(cache.cached_html_app_guest_token_at("https://api.example.com", 1_000), Ok(None));
    cache.cache_html_app_guest_token_at("https://api.example.com", "tok", 1_000);
    assert_eq!(cache.cached_html_app_guest_token_at("https://api.example.com", 1_599), Ok(Some("tok".to_string())));
    assert_eq!(cache.cached_html_app_guest_token_at("https://api.example.com", 1_600), Ok(None));
    assert_eq!(cache.cached_html_app_guest_token_at("https://other.example.com", 1_100), Ok(None));
    cache.invalidate_html_app_guest_token("https://api.example.com");
    assert_eq!(cache.cached_html_app_guest_token_at("https://api.example.com", 1_100), Ok(None));
}

#[test]
fn api_failures_back_off_and_drop_the_token() {
    let mut cache = HtmlAppGuestTokenCache::new();
    cache.cache_html_app_guest_token_at("https://api.example.com", "tok", 1_000);
    cache.record_html_app_api_failure_at("https://api.example.com", 1_000);
    assert_eq!(
        cache.cached_html_app_guest_token_at("https://api.example.com", 1_010),
        Err("Wrapper app API is cooling down after recent failures; retry in 20 seconds.".to_string())
    );
    assert_eq!(cache.cached_html_app_guest_token_at("https://api.example.com", 1_030), Ok(Some("tok".to_string())));
    cache.record_html_app_api_failure_at("https://api.example.com", 1_030);
    assert_eq!(
        cache.cached_html_app_guest_token_at("https://api.example.com", 1_030),
        Err("Wrapper app API is cooling down after recent failures; retry in 60 seconds.".to_string())
    );
    cache.record_html_app_api_failure_at("https://api.example.com", 1_100);
    assert_eq!(cache.cached_html_app_guest_token_at("https://api.example.com", 1_300), Ok(None));
    for _ in 0..5 {
        cache.record_html_app_api_failure_at("https://api.example.com", 2_000);
    }
    assert_eq!(
        cache.cached_html_app_guest_token_at("https://api.example.com", 2_000),
        Err("Wrapper app API is cooling down after recent failures; retry in 300 seconds.".to_string())
    );
    cache.cache_html_app_guest_token_at("https://api.example.com", "new", 2_000);
    assert_eq!(cache.cached_html_app_guest_token_at("https://api.example.com", 2_000), Ok(Some("new".to_string())));
}

use velocity_engine::probe_stage::{excerpt_chunk_step, first_scan_threshold, ExcerptStep};

#[test]
fn wrapper_body_is_scanned_step_by_step() {
    assert_eq!(first_scan_threshold(262_144), 32_768);
    assert_eq!(first_scan_threshold(1_000), 1_000);
    assert_eq!(
        excerpt_chunk_step(0, 32_768, 16_384, 262_144),
        ExcerptStep { take: 16_384, scan_now: false, next_threshold: 32_768, stop_after: false }
    );
    assert_eq!(
        excerpt_chunk_step(16_384, 32_768, 16_384, 262_144),
        ExcerptStep { take: 16_384, scan_now: true, next_threshold: 65_536, stop_after: false }
    );
    assert_eq!(
        excerpt_chunk_step(250_000, 262_144, 20_000, 262_144),
        ExcerptStep { take: 12_144, scan_now: true, next_threshold: 262_144, stop_after: true }
    );
}
