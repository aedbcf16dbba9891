use velocity_engine::http_pool::{cleanup_clients, HttpPool, PooledClient, HTTP_POOL_IDLE_EVICTION_MILLIS, HTTP_POOL_MAX_ORIGINS};

fn pooled_client(origin: &str, now_millis: u64) -> PooledClient {
    PooledClient { origin: origin.to_string(), last_access_at_millis: now_millis }
}

fn contains(clients: &[PooledClient], origin: &str) -> bool {
    clients.iter().any(|c| c.origin == origin)
}

#[test]
fn cleanup_evicts_idle_origins() {
    let now_millis = 1_000_000_u64;
    let mut clients = vec![
        pooled_client("https://fresh.example", now_millis),
        pooled_client("https://stale.example", now_millis.saturating_sub(HTTP_POOL_IDLE_EVICTION_MILLIS + 1)),
    ];

    cleanup_clients(&mut clients, now_millis, None);

    assert!(!contains(&clients, "https://stale.example"));
    assert!(contains(&clients, "https://fresh.example"));
}

#[test]
fn cleanup_keeps_protected_origin_even_if_idle() {
    let now_millis = 1_000_000_u64;
    let mut clients = vec![pooled_client(
        "https://protected.example",
        now_millis.saturating_sub(HTTP_POOL_IDLE_EVICTION_MILLIS + 1),
    )];

    cleanup_clients(&mut clients, now_millis, Some("https://protected.example"));

    assert!(contains(&clients, "https://protected.example"));
}

#[test]
fn cleanup_trims_oldest_hosts_when_pool_grows_too_large() {
    let now_millis = 1_000_000_u64;
    let mut clients = Vec::new();

    for index in 0..=HTTP_POOL_MAX_ORIGINS {
        clients.push(pooled_client(&format!("https://host-{index}.example"), now_millis.saturating_add(index as u64)));
    }

    cleanup_clients(&mut clients, now_millis.saturating_add(HTTP_POOL_MAX_ORIGINS as u64), None);

    assert_eq!(clients.len(), HTTP_POOL_MAX_ORIGINS);
    assert!(!contains(&clients, "https://host-0.example"));
    assert!(contains(&clients, &format!("https://host-{HTTP_POOL_MAX_ORIGINS}.example")));
}

#[test]
fn leases_reuse_pooled_origins() {
    let mut pool = HttpPool::new_at(0);
    assert!(!pool.lease_at("https://a.example", 10));
    assert!(pool.lease_at("https://a.example", 20));
    assert_eq!(pool.clients.len(), 1);
    assert_eq!(pool.clients[0].last_access_at_millis, 20);
    assert!(!pool.lease_at("https://b.example", HTTP_POOL_IDLE_EVICTION_MILLIS + 30));
    assert_eq!(pool.clients.len(), 1);
    assert_eq!(pool.clients[0].origin, "https://b.example");
}
