// Checks of the timing helper: the work is run, exactly once.

use nbody::timing::time;

#[test]
fn time_runs_the_work_exactly_once() {
    let mut calls: usize = 0;
    let elapsed = time(|| calls += 1);
    assert_eq!(calls, 1);
    assert!(elapsed.as_secs() < 3600);
}

#[test]
fn time_reports_a_nonzero_reading_for_real_work() {
    let mut sink: u64 = 1;
    let elapsed = time(|| {
        for i in 0..200_000u64 {
            sink = sink.wrapping_mul(6364136223846793005).wrapping_add(i);
        }
    });
    assert_eq!(sink, 12803031535975095905);
    assert!(elapsed.as_nanos() > 0);
}
