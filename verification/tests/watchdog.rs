use zm_aidect::watchdog::{watchdog_timeout_micros, Watchdog};

#[test]
fn timeout_is_a_fixed_multiple_of_the_pacing_interval() {
    assert_eq!(watchdog_timeout_micros(200_000), 4_000_000);
    assert_eq!(watchdog_timeout_micros(1), 20);
}

#[test]
fn continual_resets_keep_the_guard_quiet() {
    let timeout: u64 = 1_000_000; // 1 s
    let mut wd = Watchdog::new(timeout, 0);
    let mut now: u64 = 0;
    for _ in 0..10 {
        // resets at intervals shorter than the timeout
        now += 600_000;
        assert!(!wd.expired(now));
        wd.reset(now);
    }
    assert!(!wd.expired(now));
}

#[test]
fn missing_resets_trip_the_guard_within_two_timeouts() {
    let timeout: u64 = 1_000_000;
    let mut wd = Watchdog::new(timeout, 0);
    wd.reset(600_000); // the last reset ever sent
    assert!(!wd.expired(600_000));
    assert!(!wd.expired(1_599_999));
    // expiry comes at last reset + timeout: at least one timeout after the
    // last reset, and well before two
    assert!(wd.expired(1_600_000));
    assert!(wd.expired(2_600_000));
}

#[test]
fn fresh_watchdog_expires_one_timeout_after_construction() {
    let wd = Watchdog::new(500, 100);
    assert!(!wd.expired(599));
    assert!(wd.expired(600));
}
