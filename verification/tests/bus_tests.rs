use fazzk::bus::wants_test_notification;
use fazzk::bus::WSMessage;
use fazzk::detector::ChangeDetector;
use fazzk::follower::create_test_follower;
use fazzk::follower::FollowerItem;
use fazzk::follower::User;
use fazzk::pool::WSConnectionPool;
use fazzk::queues::queue_new_followers;
use fazzk::queues::PendingQueues;

fn record(id: &str, name: &str) -> FollowerItem {
    FollowerItem {
        user: User {
            user_id_hash: id.to_string(),
            nickname: name.to_string(),
            profile_image_url: None,
        },
        following_since: "2024-01-01T00:00:00Z".to_string(),
    }
}

#[test]
fn only_test_follower_requests_inject_notifications() {
    assert!(wants_test_notification(&WSMessage::TestFollower));
    assert!(!wants_test_notification(&WSMessage::Ping));
    assert!(!wants_test_notification(&WSMessage::Pong));
    assert!(!wants_test_notification(&WSMessage::Subscribe {
        topics: vec!["followers".to_string()],
    }));
}

#[test]
fn test_follower_record_is_built_from_the_instant() {
    let item = create_test_follower("special", 12345, "2024-06-01T00:00:00Z".to_string());
    assert_eq!(item.user.user_id_hash, "test_12345");
    assert_eq!(item.user.nickname, "special");
    assert_eq!(
        item.user.profile_image_url,
        Some("/default_profile.png".to_string())
    );
    assert_eq!(item.following_since, "2024-06-01T00:00:00Z");
}

#[test]
fn broadcast_reaches_every_subscriber_exactly_once() {
    let pool = WSConnectionPool::new();
    let mut rx1 = pool.subscribe();
    let mut rx2 = pool.subscribe();
    pool.broadcast_new_follower(record("n1", "newcomer"));
    for rx in [&mut rx1, &mut rx2] {
        match rx.try_recv() {
            Ok(WSMessage::NewFollower { follower }) => {
                assert_eq!(follower.user.user_id_hash, "n1");
            }
            other => panic!("expected one new-follower message, got {:?}", other),
        }
        assert!(rx.try_recv().is_err(), "no second message expected");
    }
}

#[test]
fn broadcast_variants_carry_their_payloads() {
    let pool = WSConnectionPool::new();
    let mut rx = pool.subscribe();
    pool.broadcast_test_notification(record("t1", "tester"));
    pool.broadcast_settings_update("{\"volume\":0.5}".to_string());
    match rx.try_recv() {
        Ok(WSMessage::TestNotification { follower }) => {
            assert_eq!(follower.user.user_id_hash, "t1");
        }
        other => panic!("expected a test notification, got {:?}", other),
    }
    match rx.try_recv() {
        Ok(WSMessage::SettingsUpdated { settings }) => {
            assert_eq!(settings, "{\"volume\":0.5}");
        }
        other => panic!("expected a settings update, got {:?}", other),
    }
}

#[test]
fn poll_cycle_fans_one_new_follower_out_to_every_subscriber() {
    // End to end without the transport: one poll cycle detects one new
    // non-highlighted follower; every connected subscriber receives
    // exactly one new-follower message; the merged queue snapshot holds
    // the record until its expiry.
    let mut det = ChangeDetector::new("special".to_string());
    let mut queues = PendingQueues::new();
    let pool = WSConnectionPool::new();
    let mut rx1 = pool.subscribe();
    let mut rx2 = pool.subscribe();

    det.process_snapshot(&vec![record("a", "alpha")], 0);
    let snapshot = vec![record("a", "alpha"), record("b", "beta")];
    let events = det.process_snapshot(&snapshot, 5000);
    assert_eq!(events.len(), 1);
    queue_new_followers(&mut queues, &events, 5000);
    for event in events {
        pool.broadcast_new_follower(event);
    }

    for rx in [&mut rx1, &mut rx2] {
        match rx.try_recv() {
            Ok(WSMessage::NewFollower { follower }) => {
                assert_eq!(follower.user.user_id_hash, "b");
            }
            other => panic!("expected one new-follower message, got {:?}", other),
        }
        assert!(rx.try_recv().is_err(), "exactly one message expected");
    }

    // Still in the merged snapshot right before expiry, gone after.
    queues.evict_expired(5000 + 29900);
    let merged = queues.snapshot_combined(&Vec::new());
    assert_eq!(merged.len(), 1);
    assert_eq!(merged[0].user.user_id_hash, "b");
    queues.evict_expired(5000 + 30100);
    assert!(queues.snapshot_combined(&Vec::new()).is_empty());
}
