use fazzk::detector::ChangeDetector;
use fazzk::follower::FollowerItem;
use fazzk::follower::User;

const HL: &str = "special";

fn record(id: &str, name: &str) -> FollowerItem {
    FollowerItem {
        user: User {
            user_id_hash: id.to_string(),
            nickname: name.to_string(),
            profile_image_url: None,
        },
        following_since: "2024-01-01T00:00:00Z".to_string(),
    }
}

fn detector() -> ChangeDetector {
    ChangeDetector::new(HL.to_string())
}

fn ids(items: &[FollowerItem]) -> Vec<String> {
    items.iter().map(|f| f.user.user_id_hash.clone()).collect()
}

#[test]
fn first_snapshot_initializes_and_emits_nothing() {
    let mut det = detector();
    let events = det.process_snapshot(&vec![record("a", "alpha"), record("b", "beta")], 0);
    assert!(events.is_empty());
    assert!(det.initialized);
    assert_eq!(det.last_count, 2);
}

#[test]
fn absent_then_present_identity_reported_exactly_once() {
    let mut det = detector();
    det.process_snapshot(&vec![record("a", "alpha")], 0);
    // "b" appears: reported once.
    let events = det.process_snapshot(&vec![record("a", "alpha"), record("b", "beta")], 5000);
    assert_eq!(ids(&events), vec!["b".to_string()]);
    // Same snapshot again: nothing new.
    let events = det.process_snapshot(&vec![record("a", "alpha"), record("b", "beta")], 10000);
    assert!(events.is_empty());
}

#[test]
fn duplicate_entries_in_one_snapshot_fire_once() {
    let mut det = detector();
    det.process_snapshot(&vec![record("a", "alpha")], 0);
    let events = det.process_snapshot(
        &vec![record("a", "alpha"), record("b", "beta"), record("b", "beta")],
        5000,
    );
    assert_eq!(ids(&events), vec!["b".to_string()]);
}

#[test]
fn highlight_fires_and_is_suppressed_within_window() {
    let mut det = detector();
    det.process_snapshot(&vec![record("a", "alpha")], 0);
    // Highlight appears while untracked: fires, and leads the events.
    let events = det.process_snapshot(
        &vec![record("b", "beta"), record("hl", HL)],
        5000,
    );
    assert_eq!(ids(&events), vec!["hl".to_string(), "b".to_string()]);
    // Still present 10 s later: suppressed by the dedup window.
    let events = det.process_snapshot(&vec![record("hl", HL), record("b", "beta")], 15000);
    assert!(events.is_empty());
    // Still present once the window since the confirmation has passed:
    // fires again.
    let events = det.process_snapshot(&vec![record("hl", HL), record("b", "beta")], 35001);
    assert_eq!(ids(&events), vec!["hl".to_string()]);
}

#[test]
fn highlight_absence_clears_tracking_and_next_sighting_fires() {
    let mut det = detector();
    det.process_snapshot(&vec![record("hl", HL)], 0);
    // One cycle of absence clears the timestamp.
    let events = det.process_snapshot(&vec![record("a", "alpha")], 1000);
    assert_eq!(ids(&events), vec!["a".to_string()]);
    // Reappearing right afterwards fires although the gap is short.
    let events = det.process_snapshot(&vec![record("hl", HL), record("a", "alpha")], 10000);
    assert_eq!(ids(&events), vec!["hl".to_string()]);
}

#[test]
fn highlight_never_enters_history_store() {
    let mut det = detector();
    det.process_snapshot(&vec![record("a", "alpha")], 0);
    det.process_snapshot(&vec![record("a", "alpha"), record("hl", HL)], 31000);
    assert!(!det.history.contains(&record("hl", HL)));
    assert!(det.history.contains(&record("a", "alpha")));
}

#[test]
fn empty_snapshots_initialize_and_emit_nothing() {
    let mut det = detector();
    let events = det.process_snapshot(&Vec::new(), 0);
    assert!(events.is_empty());
    assert!(det.initialized);
    assert_eq!(det.last_count, 0);
    let events = det.process_snapshot(&Vec::new(), 5000);
    assert!(events.is_empty());
}

#[test]
fn everyone_departing_empties_the_history() {
    let mut det = detector();
    det.process_snapshot(&vec![record("a", "alpha"), record("b", "beta")], 0);
    det.process_snapshot(&Vec::new(), 5000);
    assert!(!det.history.contains(&record("a", "alpha")));
    // Both count as new again when they return.
    let events = det.process_snapshot(&vec![record("a", "alpha"), record("b", "beta")], 10000);
    assert_eq!(ids(&events), vec!["a".to_string(), "b".to_string()]);
}

#[test]
fn count_decrease_rebuilds_history_from_snapshot() {
    let mut det = detector();
    det.process_snapshot(&vec![record("a", "alpha"), record("b", "beta")], 0);
    // One departure: the history is rebuilt from the current snapshot.
    let events = det.process_snapshot(&vec![record("a", "alpha")], 5000);
    assert!(events.is_empty());
    assert!(det.history.contains(&record("a", "alpha")));
    assert!(!det.history.contains(&record("b", "beta")));
    // If "b" comes back it counts as new again.
    let events = det.process_snapshot(&vec![record("a", "alpha"), record("b", "beta")], 10000);
    assert_eq!(ids(&events), vec!["b".to_string()]);
}
