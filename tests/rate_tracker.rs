use system_monitor::rate::{per_second_exec, rate_between, RateResult, RateTracker, Reading};

fn rate(rx: u64, tx: u64) -> RateResult {
    RateResult { received_per_sec: rx, transmitted_per_sec: tx }
}

#[test]
fn first_observation_is_zero() {
    let mut t = RateTracker::new();
    assert_eq!(t.update("eth0", 5000, 7000, 100), rate(0, 0));
    assert_eq!(t.get("eth0"), Some(Reading { received: 5000, transmitted: 7000, observed_at: 100 }));
    assert_eq!(t.len(), 1);
}

#[test]
fn received_rate_over_two_seconds() {
    let mut t = RateTracker::new();
    assert_eq!(t.update("eth0", 1000, 0, 0), rate(0, 0));
    assert_eq!(t.update("eth0", 3000, 0, 2000), rate(1000, 0));
}

#[test]
fn counter_reset_contributes_zero() {
    let mut t = RateTracker::new();
    t.update("eth0", 1000, 500, 0);
    assert_eq!(t.update("eth0", 3000, 900, 2000), rate(1000, 200));
    assert_eq!(t.update("eth0", 2000, 1900, 3000), rate(0, 1000));
    assert_eq!(t.get("eth0"), Some(Reading { received: 2000, transmitted: 1900, observed_at: 3000 }));
}

#[test]
fn clock_not_advancing_is_zero() {
    let mut t = RateTracker::new();
    t.update("eth0", 1000, 1000, 5000);
    assert_eq!(t.update("eth0", 9000, 9000, 5000), rate(0, 0));
    assert_eq!(t.update("eth0", 20000, 20000, 4000), rate(0, 0));
    assert_eq!(t.get("eth0"), Some(Reading { received: 20000, transmitted: 20000, observed_at: 4000 }));
}

#[test]
fn rates_round_down_per_millisecond_clock() {
    let mut t = RateTracker::new();
    t.update("en0", 0, 0, 0);
    assert_eq!(t.update("en0", 1001, 10, 1500), rate(667, 6));
}

#[test]
fn interfaces_are_tracked_separately() {
    let mut t = RateTracker::new();
    t.update("eth0", 100, 100, 0);
    t.update("eth1", 500, 500, 0);
    assert_eq!(t.update("eth1", 1500, 700, 1000), rate(1000, 200));
    assert_eq!(t.update("eth0", 400, 100, 1000), rate(300, 0));
    assert_eq!(t.len(), 2);
    assert_eq!(t.get("wlan0"), None);
}

#[test]
fn huge_rate_saturates() {
    assert_eq!(per_second_exec(0, u64::MAX, 1), u64::MAX);
    assert_eq!(per_second_exec(0, u64::MAX, 1000), u64::MAX);
    assert_eq!(per_second_exec(10, 5, 1000), 0);
    assert_eq!(per_second_exec(10, 10, 1000), 0);
    assert_eq!(per_second_exec(0, 3000, 3000), 1000);
}

#[test]
fn rate_between_readings() {
    let prior = Reading { received: 100, transmitted: 200, observed_at: 1000 };
    assert_eq!(rate_between(prior, 2100, 100, 3000), rate(1000, 0));
    assert_eq!(rate_between(prior, 2100, 400, 1000), rate(0, 0));
}

#[test]
fn stale_interfaces_are_evicted() {
    let mut t = RateTracker::new();
    t.update("eth0", 100, 100, 0);
    t.update("eth1", 100, 100, 10000);
    t.evict_stale(60000, 60000);
    assert_eq!(t.len(), 2);
    t.evict_stale(60001, 60000);
    assert_eq!(t.get("eth0"), None);
    assert!(t.get("eth1").is_some());
    assert_eq!(t.len(), 1);
}

#[test]
fn reading_from_the_future_is_kept() {
    let mut t = RateTracker::new();
    t.update("eth0", 100, 100, 500000);
    t.evict_stale(0, 60000);
    assert_eq!(t.len(), 1);
}

#[test]
fn reappearance_after_eviction_is_first_observation() {
    let mut t = RateTracker::new();
    t.update("eth0", 100, 100, 0);
    t.evict_stale(70000, 60000);
    assert_eq!(t.update("eth0", 900000, 900000, 70000), rate(0, 0));
    assert_eq!(t.update("eth0", 902000, 900000, 71000), rate(2000, 0));
}
