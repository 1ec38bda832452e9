use cloth_sim::scheduler::Scheduler;

#[test]
fn no_tick_before_the_interval_elapses() {
    let mut s = Scheduler::new(1000, 0);
    // polls spaced well under the interval: nothing fires while the
    // cumulative elapsed time stays within the interval
    for now in [100u64, 250, 400, 600, 800, 999, 1000] {
        assert!(!s.update(now));
        assert_eq!(s.last_tick, 0);
    }
}

#[test]
fn one_tick_fires_per_interval_crossed() {
    let mut s = Scheduler::new(1000, 0);
    let mut ticks = 0usize;
    // updates every 300 ns for 3300 ns: the interval is crossed at 1200,
    // then at 2400, then at 3600 (not reached): exactly two ticks
    let mut now = 0u64;
    for _ in 0..11 {
        now += 300;
        if s.update(now) {
            ticks += 1;
        }
    }
    assert_eq!(ticks, 2);
    assert_eq!(s.last_tick, 2400);
}

#[test]
fn tick_records_the_poll_time() {
    let mut s = Scheduler::new(1000, 500);
    assert!(!s.update(1500));
    assert!(s.update(1501));
    assert_eq!(s.last_tick, 1501);
    // the next interval counts from the recorded tick time
    assert!(!s.update(2501));
    assert!(s.update(2502));
    assert_eq!(s.last_tick, 2502);
}

#[test]
fn a_tick_fires_even_after_a_long_pause() {
    let mut s = Scheduler::new(1000, 0);
    assert!(s.update(1_000_000));
    assert_eq!(s.last_tick, 1_000_000);
}
