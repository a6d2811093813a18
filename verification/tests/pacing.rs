use zm_aidect::pacing::RealtimePacemaker;

#[test]
fn first_tick_only_records_a_reference_point() {
    let mut pm = RealtimePacemaker::new(5_000); // 5 Hz
    assert_eq!(pm.target_interval_micros(), 200_000);
    assert_eq!(pm.current_frequency(), 0);
    let sleep = pm.tick(1_000);
    assert_eq!(sleep, 0);
    pm.complete(1_000);
    assert_eq!(pm.current_frequency(), 0);
}

#[test]
fn achieved_frequency_reflects_the_actual_gap() {
    let mut pm = RealtimePacemaker::new(5_000); // 5 Hz, 200 ms interval
    let sleep = pm.tick(0);
    assert_eq!(sleep, 0);
    pm.complete(0);
    // 50 ms of work, then the requested sleep
    let sleep = pm.tick(50_000);
    assert_eq!(sleep, 150_000);
    pm.complete(50_000 + sleep);
    // gap was exactly 200 ms: 5 Hz achieved, reported in millihertz
    assert_eq!(pm.current_frequency(), 5_000);
}

#[test]
fn near_zero_workload_converges_to_target_within_the_window() {
    let mut pm = RealtimePacemaker::new(2_000); // 2 Hz, 500 ms interval
    let mut now: u64 = 0;
    pm.tick(now);
    pm.complete(now);
    for _ in 0..12 {
        // the workload costs nothing: tick immediately after the last one
        let sleep = pm.tick(now);
        now += sleep;
        pm.complete(now);
    }
    let sleep = pm.tick(now);
    assert_eq!(sleep, 500_000);
    now += sleep;
    pm.complete(now);
    assert_eq!(pm.current_frequency(), 2_000);
}

#[test]
fn overloaded_workload_never_sleeps() {
    let mut pm = RealtimePacemaker::new(10_000); // 10 Hz, 100 ms interval
    let mut now: u64 = 0;
    pm.tick(now);
    pm.complete(now);
    for _ in 0..15 {
        // every iteration costs 250 ms, more than the 100 ms interval
        now += 250_000;
        let sleep = pm.tick(now);
        assert_eq!(sleep, 0);
        pm.complete(now);
        assert_eq!(pm.current_frequency(), 4_000); // free-running at 4 Hz
    }
}

#[test]
fn smoothing_averages_the_window() {
    let mut pm = RealtimePacemaker::new(1_000); // 1 Hz, 1 s interval
    let mut now: u64 = 0;
    pm.tick(now);
    pm.complete(now);
    // two samples: 100 ms and 300 ms of work; average 200 ms
    now += 100_000;
    let _ = pm.tick(now);
    pm.complete(now);
    now += 300_000;
    let sleep = pm.tick(now);
    assert_eq!(sleep, 1_000_000 - 200_000);
}
