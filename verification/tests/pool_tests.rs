use fazzk::pool::WSClient;
use fazzk::pool::WSConnectionPool;
use fazzk::pool::CLIENT_TIMEOUT_MS;
use fazzk::pool::CONNECTION_LIMIT;

#[test]
fn client_records_activity_and_staleness() {
    let mut client = WSClient::new("c1".to_string(), 1000);
    assert_eq!(client.subscriptions, vec!["followers".to_string()]);
    assert_eq!(client.connected_at, 1000);
    assert!(!client.is_stale(CLIENT_TIMEOUT_MS, 1000 + CLIENT_TIMEOUT_MS));
    assert!(client.is_stale(CLIENT_TIMEOUT_MS, 1001 + CLIENT_TIMEOUT_MS));
    client.update_activity(2000);
    assert_eq!(client.last_activity, 2000);
    assert!(!client.is_stale(CLIENT_TIMEOUT_MS, 1001 + CLIENT_TIMEOUT_MS));
}

#[test]
fn admission_under_the_limit_always_succeeds() {
    let mut pool = WSConnectionPool::new();
    assert_eq!(pool.client_count(), 0);
    for i in 0..CONNECTION_LIMIT {
        let added = pool.add_client(WSClient::new(format!("c{}", i), 0), 0);
        assert!(added.is_ok());
    }
    assert_eq!(pool.client_count(), CONNECTION_LIMIT);
}

#[test]
fn admission_at_limit_with_all_live_is_rejected() {
    let mut pool = WSConnectionPool::new();
    for i in 0..CONNECTION_LIMIT {
        pool.add_client(WSClient::new(format!("c{}", i), 0), 0).unwrap();
    }
    // Everyone has been active within the timeout window.
    let refused = pool.add_client(
        WSClient::new("late".to_string(), CLIENT_TIMEOUT_MS),
        CLIENT_TIMEOUT_MS,
    );
    assert!(refused.is_err());
    assert_eq!(pool.client_count(), CONNECTION_LIMIT);
}

#[test]
fn admission_at_limit_evicts_the_stalest_stale_connection() {
    let mut pool = WSConnectionPool::new();
    for i in 0..CONNECTION_LIMIT {
        pool.add_client(WSClient::new(format!("c{}", i), 0), 0).unwrap();
    }
    // c7 is the stalest: it alone keeps last_activity 0; everyone else is
    // touched at CLIENT_TIMEOUT_MS.
    for i in 0..CONNECTION_LIMIT {
        if i != 7 {
            pool.update_client_activity(&format!("c{}", i), CLIENT_TIMEOUT_MS);
        }
    }
    let now = CLIENT_TIMEOUT_MS + 1;
    let added = pool.add_client(WSClient::new("late".to_string(), now), now);
    assert!(added.is_ok());
    assert_eq!(pool.client_count(), CONNECTION_LIMIT);
    // c7 left: removing it now is a no-op, removing the newcomer is not.
    pool.remove_client("c7");
    assert_eq!(pool.client_count(), CONNECTION_LIMIT);
    pool.remove_client("late");
    assert_eq!(pool.client_count(), CONNECTION_LIMIT - 1);
}

#[test]
fn removal_is_idempotent() {
    let mut pool = WSConnectionPool::new();
    pool.add_client(WSClient::new("c1".to_string(), 0), 0).unwrap();
    pool.remove_client("c1");
    assert_eq!(pool.client_count(), 0);
    pool.remove_client("c1");
    assert_eq!(pool.client_count(), 0);
}

#[test]
fn sweep_removes_every_stale_connection() {
    let mut pool = WSConnectionPool::new();
    pool.add_client(WSClient::new("fresh".to_string(), 0), 0).unwrap();
    pool.add_client(WSClient::new("old1".to_string(), 0), 0).unwrap();
    pool.add_client(WSClient::new("old2".to_string(), 0), 0).unwrap();
    pool.update_client_activity("fresh", CLIENT_TIMEOUT_MS);
    let now = CLIENT_TIMEOUT_MS + 1;
    pool.cleanup_stale_clients(now);
    assert_eq!(pool.client_count(), 1);
    pool.update_client_activity("fresh", now);
    assert_eq!(pool.client_count(), 1);
}

#[test]
fn touching_an_unknown_connection_changes_nothing() {
    let mut pool = WSConnectionPool::new();
    pool.add_client(WSClient::new("c1".to_string(), 0), 0).unwrap();
    pool.update_client_activity("nope", 50);
    assert_eq!(pool.client_count(), 1);
}
