use edge_gateway::window::{grant_series, RateLimitGate, WindowStore};

#[test]
fn first_limit_requests_granted_then_denied() {
    // limit = 3: the first three requests from one identity within one
    // window are granted, the fourth is denied.
    let limiter = RateLimitGate::new(3, 10);
    let mut store = WindowStore::new();
    let alice = String::from("10.0.0.1");
    assert!(limiter.grant(&mut store, &alice, 0));
    assert!(limiter.grant(&mut store, &alice, 1));
    assert!(limiter.grant(&mut store, &alice, 2));
    assert!(!limiter.grant(&mut store, &alice, 3));
}

#[test]
fn counts_are_per_identity() {
    // A different identity in the same window is still granted after
    // the first identity has been denied.
    let limiter = RateLimitGate::new(1, 10);
    let mut store = WindowStore::new();
    let alice = String::from("10.0.0.1");
    let bob = String::from("10.0.0.2");
    assert!(limiter.grant(&mut store, &alice, 0));
    assert!(!limiter.grant(&mut store, &alice, 1));
    assert!(limiter.grant(&mut store, &bob, 1));
}

#[test]
fn refreshed_window_keeps_denying_under_sustained_traffic() {
    // limit = 2, window = 10: requests spaced one time unit apart re-arm
    // the expiry every time, so denial persists far past the first
    // window's natural end.
    let limiter = RateLimitGate::new(2, 10);
    let mut store = WindowStore::new();
    let alice = String::from("10.0.0.1");
    assert!(limiter.grant(&mut store, &alice, 0));
    assert!(limiter.grant(&mut store, &alice, 1));
    for t in 2..=25 {
        assert!(!limiter.grant(&mut store, &alice, t));
    }
}

#[test]
fn counter_lapses_after_a_quiet_gap() {
    // Once traffic stops for at least one full window, the counter
    // expires and the next request starts a fresh window.
    let limiter = RateLimitGate::new(2, 10);
    let mut store = WindowStore::new();
    let alice = String::from("10.0.0.1");
    assert!(limiter.grant(&mut store, &alice, 0));
    assert!(limiter.grant(&mut store, &alice, 1));
    assert!(!limiter.grant(&mut store, &alice, 2));
    // Last request at t = 2; its window ends at t = 12.
    assert!(limiter.grant(&mut store, &alice, 12));
    assert!(limiter.grant(&mut store, &alice, 13));
    assert!(!limiter.grant(&mut store, &alice, 14));
}

#[test]
fn incr_counts_and_expire_rearms() {
    let mut store = WindowStore::new();
    let key = String::from("k");
    assert_eq!(store.incr(&key, 0), 1);
    assert_eq!(store.incr(&key, 1), 2);
    store.expire(&key, 5, 1);
    // Expiry is at t = 6, so at t = 6 the key has lapsed.
    assert_eq!(store.incr(&key, 6), 1);
    // A fresh key created by incr alone has no expiry.
    let other = String::from("k2");
    assert_eq!(store.incr(&other, 0), 1);
    assert_eq!(store.incr(&other, u64::MAX - 1), 2);
}

#[test]
fn grant_series_answers_whole_runs() {
    // limit = 2, window = 10: the fifth request at t = 12 is still
    // inside the window re-armed at t = 3, so it stays denied.
    let limiter = RateLimitGate::new(2, 10);
    let mut store = WindowStore::new();
    let id = String::from("10.0.0.9");
    let times = vec![0, 1, 2, 3, 12];
    let grants = grant_series(&limiter, &mut store, &id, &times);
    assert_eq!(grants, vec![true, true, false, false, false]);
}
