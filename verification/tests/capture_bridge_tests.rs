use hmac::{Hmac, Mac};
use sha2::{Digest, Sha256};
use velocity_engine::capture_bridge::{
    capture_window_ready, cleanup_pending_captures_at, set_pending_capture_at, take_pending_capture_at, CaptureBridgePhase,
    CaptureBridgeState, CapturePayload, HttpRequest, PendingCaptures, prune_seen_request_nonces,
};
use velocity_engine::hex::hex_encode;
use velocity_engine::model::DownloadRequestMethod;

fn payload(url: &str) -> CapturePayload {
    CapturePayload {
        url: url.to_string(),
        referrer: None,
        filename: None,
        size_hint: None,
        mime: None,
        request_cookies: None,
        request_method: DownloadRequestMethod::Get,
        request_form_fields: Vec::new(),
        source: Some("extension".to_string()),
    }
}

#[test]
fn status_reports_the_bridge() {
    let mut state = CaptureBridgeState::new("secret".to_string(), "nonce".to_string(), 5);
    let mut pending = PendingCaptures::new();
    set_pending_capture_at(&mut pending, "capture-1", payload("https://a.example/x.zip"), 1_000);
    state.set_phase(CaptureBridgePhase::Ready, None);
    state.record_capture_at(&payload("https://a.example/x.zip"), 2_000);
    let status = state.status(&pending);
    assert_eq!(status.phase, CaptureBridgePhase::Ready);
    assert_eq!(status.bridge_url, "http://127.0.0.1:17780");
    assert_eq!(status.port, 17780);
    assert!(status.auth_required);
    assert_eq!(status.pending_captures, 1);
    assert_eq!(status.last_capture_at, Some(2_000));
    assert_eq!(status.last_capture_source.as_deref(), Some("extension"));
    assert_eq!(status.rotated_at, 5);
}

#[test]
fn captures_are_taken_by_window_or_first_label() {
    let mut pending = PendingCaptures::new();
    set_pending_capture_at(&mut pending, "capture-2", payload("https://b.example/2"), 1_000);
    set_pending_capture_at(&mut pending, "capture-1", payload("https://b.example/1"), 1_000);
    let taken = take_pending_capture_at(&mut pending, Some("capture-2"), 1_500).unwrap();
    assert_eq!(taken.url, "https://b.example/2");
    assert!(take_pending_capture_at(&mut pending, Some("capture-2"), 1_500).is_none());
    set_pending_capture_at(&mut pending, "capture-0", payload("https://b.example/0"), 1_600);
    let first = take_pending_capture_at(&mut pending, None, 1_700).unwrap();
    assert_eq!(first.url, "https://b.example/0");
    assert_eq!(pending.entries.len(), 1);
}

#[test]
fn a_label_stored_twice_keeps_the_latest_capture() {
    let mut pending = PendingCaptures::new();
    set_pending_capture_at(&mut pending, "capture-1", payload("https://c.example/old"), 1_000);
    set_pending_capture_at(&mut pending, "capture-1", payload("https://c.example/new"), 1_100);
    assert_eq!(pending.entries.len(), 1);
    let taken = take_pending_capture_at(&mut pending, Some("capture-1"), 1_200).map(|p| p.url);
    assert_eq!(taken.as_deref(), Some("https://c.example/new"));
    assert!(capture_window_ready(&mut pending, "capture-1").is_none());
}

#[test]
fn stale_captures_are_pruned_after_three_minutes() {
    let mut pending = PendingCaptures::new();
    set_pending_capture_at(&mut pending, "capture-1", payload("https://d.example/1"), 0);
    assert!(!cleanup_pending_captures_at(&mut pending, 180_000));
    assert!(cleanup_pending_captures_at(&mut pending, 180_001));
    assert!(pending.entries.is_empty());
}

#[test]
fn oldest_captures_are_evicted_beyond_the_cap() {
    let mut pending = PendingCaptures::new();
    for i in 0..66i64 {
        set_pending_capture_at(&mut pending, &format!("capture-{i:03}"), payload("https://e.example/x"), 1_000 + i);
    }
    assert_eq!(pending.entries.len(), 64);
    assert!(pending.entries.iter().all(|e| e.captured_at_ms >= 1_002));
}

#[test]
fn expired_request_nonces_are_forgotten_oldest_first() {
    let mut seen = vec![("a".to_string(), 0i64), ("b".to_string(), 100_000), ("c".to_string(), 0)];
    prune_seen_request_nonces(&mut seen, 300_001);
    assert_eq!(seen, vec![("b".to_string(), 100_000), ("c".to_string(), 0)]);
}

fn signed_request(secret: &str, session: &str, timestamp: i64, nonce: &str, body: &[u8]) -> HttpRequest {
    let body_hash = hex_encode(&Sha256::digest(body));
    let message = format!("POST\n/capture\n{session}\n{timestamp}\n{nonce}\next-id\n{body_hash}");
    let mut mac = Hmac::<Sha256>::new_from_slice(secret.as_bytes()).unwrap();
    mac.update(message.as_bytes());
    let signature = hex_encode(&mac.finalize().into_bytes());
    HttpRequest {
        method: "post".to_string(),
        path: "/capture".to_string(),
        headers: vec![
            ("x-vdm-client".to_string(), " ext-id ".to_string()),
            ("x-vdm-timestamp".to_string(), timestamp.to_string()),
            ("x-vdm-request-nonce".to_string(), nonce.to_string()),
            ("x-vdm-auth".to_string(), signature),
        ],
        body: body.to_vec(),
    }
}

#[test]
fn signed_requests_are_accepted_once() {
    let mut state = CaptureBridgeState::new("pairing".to_string(), "session".to_string(), 0);
    let request = signed_request("pairing", "session", 1_000_000, "n-1", b"{\"url\":\"https://x\"}");
    assert_eq!(state.authorize_request_at(&request, 1_000_500), Ok(()));
    assert_eq!(state.seen_request_nonces.len(), 1);
    assert_eq!(state.authorize_request_at(&request, 1_000_600), Err("replayed auth nonce"));
}

#[test]
fn bad_requests_are_refused_with_their_reason() {
    let mut state = CaptureBridgeState::new("pairing".to_string(), "session".to_string(), 0);
    let request = signed_request("other", "session", 1_000_000, "n-2", b"{}");
    assert_eq!(state.authorize_request_at(&request, 1_000_000), Err("invalid auth signature"));
    let stale = signed_request("pairing", "session", 1_000_000, "n-3", b"{}");
    assert_eq!(state.authorize_request_at(&stale, 1_300_001), Err("stale auth timestamp"));
    let mut missing = signed_request("pairing", "session", 1_000_000, "n-4", b"{}");
    missing.headers.retain(|(name, _)| name != "x-vdm-client");
    assert_eq!(state.authorize_request_at(&missing, 1_000_000), Err("missing auth client"));
    let mut garbled = signed_request("pairing", "session", 1_000_000, "n-5", b"{}");
    garbled.headers.push(("x-vdm-timestamp".to_string(), "soon".to_string()));
    assert_eq!(state.authorize_request_at(&garbled, 1_000_000), Err("invalid auth timestamp"));
    let mut odd = signed_request("pairing", "session", 1_000_000, "n-6", b"{}");
    odd.headers.push(("x-vdm-auth".to_string(), "abc".to_string()));
    assert_eq!(state.authorize_request_at(&odd, 1_000_000), Err("invalid signature format"));
    assert!(state.seen_request_nonces.is_empty());
}
