use fazzk::schedule::clamp_poll_interval;
use fazzk::schedule::PollScheduler;
use fazzk::schedule::BASE_POLL_INTERVAL_MS;
use fazzk::schedule::MAX_BACKOFF_MS;
use fazzk::schedule::MAX_CONSECUTIVE_ERRORS;

#[test]
fn backoff_doubles_per_failure_and_caps_at_one_minute() {
    let mut sched = PollScheduler::new();
    assert_eq!(sched.next_wait_ms(1), BASE_POLL_INTERVAL_MS);
    sched.on_fetch_failure();
    assert_eq!(sched.next_wait_ms(1), 10000);
    sched.on_fetch_failure();
    assert_eq!(sched.next_wait_ms(1), 20000);
    sched.on_fetch_failure();
    assert_eq!(sched.next_wait_ms(1), 40000);
    sched.on_fetch_failure();
    assert_eq!(sched.next_wait_ms(1), MAX_BACKOFF_MS);
    sched.on_fetch_failure();
    assert_eq!(sched.next_wait_ms(1), MAX_BACKOFF_MS);
}

#[test]
fn success_resets_the_failure_count() {
    let mut sched = PollScheduler::new();
    sched.on_fetch_failure();
    sched.on_fetch_failure();
    sched.on_fetch_success();
    assert_eq!(sched.consecutive_errors, 0);
    assert_eq!(sched.next_wait_ms(1), BASE_POLL_INTERVAL_MS);
}

#[test]
fn cycles_are_skipped_while_nobody_watches() {
    let mut sched = PollScheduler::new();
    sched.on_fetch_failure();
    assert!(!sched.should_poll(0));
    assert!(sched.should_poll(3));
    // A skipped cycle waits the base interval, not the backoff.
    assert_eq!(sched.next_wait_ms(0), BASE_POLL_INTERVAL_MS);
}

#[test]
fn crossing_the_error_threshold_terminates_for_good() {
    let mut sched = PollScheduler::new();
    for _ in 0..(MAX_CONSECUTIVE_ERRORS - 1) {
        sched.on_fetch_failure();
        assert!(!sched.terminated);
    }
    sched.on_fetch_failure();
    assert!(sched.terminated);
    assert!(!sched.should_poll(5));
}

#[test]
fn poll_interval_floor_is_enforced() {
    assert_eq!(clamp_poll_interval(0), 5);
    assert_eq!(clamp_poll_interval(4), 5);
    assert_eq!(clamp_poll_interval(5), 5);
    assert_eq!(clamp_poll_interval(60), 60);
}
