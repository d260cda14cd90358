use fazzk::fingerprint::CompressedFollower;
use fazzk::follower::FollowerItem;
use fazzk::follower::User;
use fazzk::history::HistoryStore;
use fazzk::history::HISTORY_CAPACITY;

fn record(id: &str, name: &str) -> FollowerItem {
    FollowerItem {
        user: User {
            user_id_hash: id.to_string(),
            nickname: name.to_string(),
            profile_image_url: Some("/default_profile.png".to_string()),
        },
        following_since: "2024-01-01T00:00:00Z".to_string(),
    }
}

#[test]
fn fingerprint_matches_its_own_record() {
    let rec = record("user-one", "alpha");
    let fp = CompressedFollower::from_follower(&rec, 7);
    assert!(fp.matches_follower(&rec));
    let other = record("user-two", "alpha");
    assert!(!fp.matches_follower(&other));
}

#[test]
fn fingerprint_equality_follows_identity_hash() {
    let a = CompressedFollower::from_follower(&record("same-id", "alpha"), 7);
    let b = CompressedFollower::from_follower(&record("same-id", "beta"), 7);
    assert_eq!(a.hash, b.hash);
    let c = CompressedFollower::from_follower(&record("other-id", "alpha"), 7);
    assert_ne!(a.hash, c.hash);
}

#[test]
fn fingerprint_timestamp_parses_following_since() {
    let rec = record("user-one", "alpha");
    let fp = CompressedFollower::from_follower(&rec, 42);
    // 2024-01-01T00:00:00Z is epoch second 1704067200.
    assert_eq!(fp.timestamp, 1704067200);
}

#[test]
fn fingerprint_timestamp_falls_back_when_unparsable() {
    let mut rec = record("user-one", "alpha");
    rec.following_since = "not a timestamp".to_string();
    let fp = CompressedFollower::from_follower(&rec, 42);
    assert_eq!(fp.timestamp, 42);
}

#[test]
fn store_membership_by_fingerprint() {
    let mut store = HistoryStore::new();
    let rec = record("user-one", "alpha");
    assert!(!store.contains(&rec));
    store.insert(CompressedFollower::from_follower(&rec, 0));
    assert!(store.contains(&rec));
    assert!(!store.contains(&record("user-two", "beta")));
    assert_eq!(store.len(), 1);
}

#[test]
fn store_never_exceeds_capacity_and_evicts_fifo() {
    let mut store = HistoryStore::new();
    let mut ids: Vec<String> = Vec::new();
    for i in 0..(HISTORY_CAPACITY + 1) {
        ids.push(format!("id-{}", i));
    }
    for id in &ids {
        let rec = record(id, "someone");
        store.insert(CompressedFollower::from_follower(&rec, 0));
        assert!(store.len() <= HISTORY_CAPACITY);
    }
    assert_eq!(store.len(), HISTORY_CAPACITY);
    // The earliest-inserted fingerprint is no longer a member.
    assert!(!store.contains(&record(&ids[0], "someone")));
    // Every later one still is.
    assert!(store.contains(&record(&ids[1], "someone")));
    assert!(store.contains(&record(&ids[HISTORY_CAPACITY], "someone")));
}

#[test]
fn rebuild_repopulates_and_skips_highlight() {
    let mut store = HistoryStore::new();
    store.insert(CompressedFollower::from_follower(&record("old", "gone"), 0));
    let snapshot = vec![
        record("a", "alpha"),
        record("b", "special"),
        record("c", "gamma"),
    ];
    store.rebuild(&snapshot, "special", 0);
    assert_eq!(store.len(), 2);
    assert!(store.contains(&record("a", "alpha")));
    assert!(!store.contains(&record("b", "special")));
    assert!(store.contains(&record("c", "gamma")));
    assert!(!store.contains(&record("old", "gone")));
}
