use fixed_timestep::timestep::FixedTimestep;

#[test]
fn steady_frames_drain_as_expected() {
    // Period 15; three frames of 10 ticks each release 0, 1 and 1 updates,
    // leaving lags of 10, 5 and 0.
    let mut t = FixedTimestep::new(15);
    assert_eq!(t.advance(10), 0);
    assert_eq!(t.lag(), 10);
    assert_eq!(t.advance(10), 1);
    assert_eq!(t.lag(), 5);
    assert_eq!(t.advance(10), 1);
    assert_eq!(t.lag(), 0);
}

#[test]
fn stall_catches_up_without_a_cap() {
    // A 1000-tick stall at period 15 catches up with 66 updates (990 ticks)
    // and leaves 10 ticks of lag.
    let mut t = FixedTimestep::new(15);
    assert_eq!(t.advance(1000), 66);
    assert_eq!(t.lag(), 10);
}

#[test]
fn stall_is_bounded_with_a_cap() {
    // The same stall under a cap of 10 releases exactly 10 updates and keeps
    // the rest of the lag: 1000 - 10 * 15 = 850.
    let mut t = FixedTimestep::with_max_updates(15, 10);
    assert_eq!(t.advance(1000), 10);
    assert_eq!(t.lag(), 850);
}

#[test]
fn zero_elapsed_changes_nothing() {
    let mut t = FixedTimestep::new(15);
    assert_eq!(t.advance(20), 1);
    let alpha_before = t.alpha();
    assert_eq!(t.advance(0), 0);
    assert_eq!(t.lag(), 5);
    assert_eq!(t.alpha(), alpha_before);
}

#[test]
fn alpha_is_a_proper_fraction_after_uncapped_drain() {
    let mut t = FixedTimestep::new(15);
    for elapsed in [0u64, 1, 7, 14, 15, 16, 29, 30, 1000] {
        t.advance(elapsed);
        let a = t.alpha();
        assert_eq!(a.denom, 15);
        assert!(a.numer < a.denom);
    }
}

#[test]
fn alpha_reports_the_exact_ratio() {
    let mut t = FixedTimestep::new(15);
    t.advance(20);
    let a = t.alpha();
    assert_eq!(a.numer, 5);
    assert_eq!(a.denom, 15);
}

#[test]
fn conservation_over_a_run() {
    // Released updates times the period, plus the final lag, equals the sum
    // of the elapsed samples.
    let samples = vec![10u64, 3, 999, 0, 14, 15, 16, 44];
    let total_elapsed: u64 = samples.iter().sum();
    let mut t = FixedTimestep::new(15);
    let updates = t.run_frames(&samples);
    assert_eq!(updates * 15 + t.lag(), total_elapsed);
}

#[test]
fn conservation_holds_with_a_cap_too() {
    let samples = vec![100u64, 0, 7, 250];
    let total_elapsed: u64 = samples.iter().sum();
    let mut t = FixedTimestep::with_max_updates(15, 2);
    let updates = t.run_frames(&samples);
    assert_eq!(updates * 15 + t.lag(), total_elapsed);
}

#[test]
fn replay_is_deterministic() {
    let samples = vec![10u64, 200, 0, 33, 7, 7, 7, 1000];
    let mut a = FixedTimestep::with_max_updates(9, 3);
    let mut b = FixedTimestep::with_max_updates(9, 3);
    let counts_a: Vec<u64> = samples.iter().map(|&e| a.advance(e)).collect();
    let counts_b: Vec<u64> = samples.iter().map(|&e| b.advance(e)).collect();
    assert_eq!(counts_a, counts_b);
    assert_eq!(a, b);
}

#[test]
fn run_frames_matches_per_frame_advances() {
    let samples = vec![4u64, 0, 35, 12, 100];
    let mut a = FixedTimestep::new(15);
    let mut b = FixedTimestep::new(15);
    let mut total: u64 = 0;
    for &e in &samples {
        total += a.advance(e);
    }
    assert_eq!(b.run_frames(&samples), total);
    assert_eq!(a, b);
}

#[test]
fn exact_multiple_drains_to_zero_lag() {
    let mut t = FixedTimestep::new(15);
    assert_eq!(t.advance(45), 3);
    assert_eq!(t.lag(), 0);
    assert_eq!(t.alpha().numer, 0);
}

#[test]
fn period_one_releases_one_update_per_tick() {
    let mut t = FixedTimestep::new(1);
    assert_eq!(t.advance(7), 7);
    assert_eq!(t.lag(), 0);
}

#[test]
fn cap_of_zero_releases_nothing_and_keeps_all_lag() {
    let mut t = FixedTimestep::with_max_updates(15, 0);
    assert_eq!(t.advance(100), 0);
    assert_eq!(t.lag(), 100);
}

#[test]
fn lag_kept_by_the_cap_drains_on_later_frames() {
    let mut t = FixedTimestep::with_max_updates(15, 10);
    assert_eq!(t.advance(1000), 10);
    assert_eq!(t.lag(), 850);
    // A zero-elapsed frame keeps draining the held-back lag, cap by cap.
    assert_eq!(t.advance(0), 10);
    assert_eq!(t.lag(), 700);
}

#[test]
fn getters_report_the_configuration() {
    let t = FixedTimestep::new(15);
    assert_eq!(t.period(), 15);
    assert_eq!(t.max_updates(), None);
    assert_eq!(t.lag(), 0);
    let c = FixedTimestep::with_max_updates(8, 4);
    assert_eq!(c.period(), 8);
    assert_eq!(c.max_updates(), Some(4));
    assert_eq!(c.lag(), 0);
}
