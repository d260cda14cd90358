use fazzk::cache::APICache;
use fazzk::cache::CACHE_TTL_MS;
use fazzk::follower::FollowerItem;
use fazzk::follower::User;

fn record(id: &str, name: &str) -> FollowerItem {
    FollowerItem {
        user: User {
            user_id_hash: id.to_string(),
            nickname: name.to_string(),
            profile_image_url: None,
        },
        following_since: "2024-01-01T00:00:00Z".to_string(),
    }
}

#[test]
fn fresh_cache_is_empty() {
    let cache = APICache::new();
    assert_eq!(cache.cache_duration_ms, CACHE_TTL_MS);
    assert!(cache.get_cached_followers(0).is_none());
    assert!(!cache.is_cache_valid(0));
}

#[test]
fn get_within_ttl_returns_same_snapshot_twice() {
    let mut cache = APICache::new();
    cache.cache_followers(vec![record("aaa", "alpha"), record("bbb", "beta")], 1000);
    let first = cache.get_cached_followers(2000).expect("hit");
    assert_eq!(first.len(), 2);
    assert_eq!(first[0].user.user_id_hash, "aaa");
    let second = cache.get_cached_followers(4000).expect("hit");
    assert_eq!(second.len(), 2);
    assert_eq!(second[1].user.user_id_hash, "bbb");
    assert!(cache.is_cache_valid(5999));
}

#[test]
fn get_after_ttl_returns_nothing() {
    let mut cache = APICache::new();
    cache.cache_followers(vec![record("aaa", "alpha")], 1000);
    assert!(cache.get_cached_followers(5999).is_some());
    assert!(cache.get_cached_followers(6000).is_none());
    assert!(!cache.is_cache_valid(6000));
    assert!(cache.get_cached_followers(60000).is_none());
}

#[test]
fn put_replaces_wholesale_and_resets_age() {
    let mut cache = APICache::new();
    cache.cache_followers(vec![record("aaa", "alpha")], 0);
    cache.cache_followers(vec![record("ccc", "gamma")], 5500);
    let hit = cache.get_cached_followers(6000).expect("hit");
    assert_eq!(hit.len(), 1);
    assert_eq!(hit[0].user.user_id_hash, "ccc");
}

#[test]
fn clock_before_put_instant_is_a_miss() {
    let mut cache = APICache::new();
    cache.cache_followers(vec![record("aaa", "alpha")], 1000);
    assert!(cache.get_cached_followers(999).is_none());
}
