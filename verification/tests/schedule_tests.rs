use monitor_sim::schedule::{
    count_cycles, LoopSchedule, STORE_INTERVAL_SECONDS, TOTAL_DURATION_SECONDS,
    UPDATE_INTERVAL_SECONDS,
};

#[test]
fn configured_cadence() {
    assert_eq!(TOTAL_DURATION_SECONDS, 300);
    assert_eq!(count_cycles(UPDATE_INTERVAL_SECONDS, TOTAL_DURATION_SECONDS), 10);
    assert_eq!(count_cycles(STORE_INTERVAL_SECONDS, TOTAL_DURATION_SECONDS), 5);
}

#[test]
fn short_run_grants_no_cycle() {
    assert_eq!(count_cycles(30, 0), 0);
    assert_eq!(count_cycles(30, 10), 0);
    assert_eq!(count_cycles(30, 29), 0);
    assert_eq!(count_cycles(60, 59), 0);
}

#[test]
fn boundary_runs() {
    assert_eq!(count_cycles(30, 30), 1);
    assert_eq!(count_cycles(30, 31), 1);
    assert_eq!(count_cycles(30, 59), 1);
    assert_eq!(count_cycles(30, 60), 2);
}

#[test]
fn schedule_steps() {
    let mut s = LoopSchedule::new(30, 70);
    assert!(!s.is_done());
    assert!(s.advance());
    assert!(!s.is_done());
    assert!(s.advance());
    assert!(!s.is_done());
    assert!(!s.advance());
    assert!(s.is_done());
}

#[test]
fn schedule_done_immediately_on_zero_total() {
    let s = LoopSchedule::new(30, 0);
    assert!(s.is_done());
}
