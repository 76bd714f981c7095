use vcod_server::replay::{plan_replay, Step, FRAME_MS, MAX_CMDS_PER_TICK};

const MAX_FRAME: i32 = 66;

fn ends(steps: &[Step]) -> Vec<i32> {
    steps.iter().map(|s| s.end_ms).collect()
}

/// A cmd no later than the command time is skipped whole.
#[test]
fn stale_cmds_are_skipped() {
    let p = plan_replay(&vec![100, 90, 150], 100, MAX_FRAME);
    assert_eq!(p.steps, vec![Step { cmd: 2, end_ms: 150, msec: 50 }]);
    assert_eq!(p.ran, vec![2]);
    assert_eq!(p.last_processed_st, 150);
    assert_eq!(p.keep_from, 3);
}

/// A long gap is chopped into pmove steps, each stamped at its own end.
#[test]
fn a_long_cmd_is_chopped_not_clamped() {
    let p = plan_replay(&vec![400], 100, MAX_FRAME);
    assert_eq!(ends(&p.steps), vec![166, 232, 298, 364, 400]);
    assert_eq!(p.steps.iter().map(|s| s.msec).sum::<i32>(), 300);
    assert_eq!(p.last_processed_st, 400);
}

/// Arrears past a second are dropped, not simulated; the chop then takes
/// sixteen steps.
#[test]
fn arrears_past_a_second_are_dropped() {
    let p = plan_replay(&vec![5000], 100, MAX_FRAME);
    assert_eq!(p.steps.len(), 16);
    assert_eq!(p.steps[0], Step { cmd: 0, end_ms: 4066, msec: 66 });
    assert_eq!(p.steps[15], Step { cmd: 0, end_ms: 5000, msec: 10 });
    assert_eq!(p.steps.iter().map(|s| s.msec).sum::<i32>(), 1000);
}

/// The command time is the time of the last cmd simulated, never ahead.
#[test]
fn command_time_never_runs_ahead_of_the_last_simulated_cmd() {
    let p = plan_replay(&vec![150, 200, 250], 100, MAX_FRAME);
    assert_eq!(p.ran, vec![0, 1, 2]);
    assert_eq!(p.last_processed_st, 250);
    assert_eq!(*ends(&p.steps).last().unwrap(), 250);
    let none = plan_replay(&vec![], 100, MAX_FRAME);
    assert!(none.steps.is_empty());
    assert_eq!(none.last_processed_st, 100);
    assert_eq!(none.keep_from, 0);
}

/// A flood past the per-tick cap keeps only the queue's last two cmds and
/// resyncs the command time to a frame before the newest.
#[test]
fn a_flood_fast_forwards_to_the_newest_cmds() {
    let times: Vec<i32> = (1..=40).map(|k| 100 + 50 * k).collect();
    let p = plan_replay(&times, 100, MAX_FRAME);
    assert_eq!(p.ran.len(), MAX_CMDS_PER_TICK);
    assert_eq!(p.ran, (0..32).collect::<Vec<usize>>());
    assert_eq!(p.last_processed_st, 2100 - FRAME_MS);
    assert_eq!(p.keep_from, 38);

    let times: Vec<i32> = (1..=33).map(|k| 100 + 50 * k).collect();
    let p = plan_replay(&times, 100, MAX_FRAME);
    assert_eq!(p.keep_from, 32);
    assert_eq!(p.last_processed_st, 1750 - FRAME_MS);
}

/// Stale cmds do not count toward the cap.
#[test]
fn skipped_cmds_do_not_count_toward_the_cap() {
    let mut times = vec![50; 10];
    times.extend((1..=32).map(|k| 100 + 50 * k));
    let p = plan_replay(&times, 100, MAX_FRAME);
    assert_eq!(p.ran.len(), 32);
    assert_eq!(p.keep_from, times.len());
    assert_eq!(p.last_processed_st, 1700);
}

/// The cmd clock wraps: a cmd just past the wrap is 16 ms after one just
/// before it.
#[test]
fn the_cmd_clock_wraps() {
    let p = plan_replay(&vec![i32::MIN + 5], i32::MAX - 10, MAX_FRAME);
    assert_eq!(p.steps, vec![Step { cmd: 0, end_ms: i32::MIN + 5, msec: 16 }]);
    assert_eq!(p.last_processed_st, i32::MIN + 5);
}
