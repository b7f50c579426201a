use rusty_simanneal::schedule::{
    next_reading, Fraction, LinearStepSchedule, LinearTimeSchedule, Progress, Schedule, Step, Time,
};

/// Temperatures are integers: one unit is a thousandth.
const SCALE: u64 = 1000;

#[test]
fn linear_step_scheduler() {
    let scheduler = LinearStepSchedule::new(1 * SCALE, 0, 10);
    let mut progress = Step::zero();
    progress.update();
    progress.update();
    progress.update();
    progress.update();
    progress.update();

    assert!(scheduler.should_continue(&progress));
    assert_eq!(scheduler.temperature(&progress), SCALE / 2);
}

#[test]
fn linear_time_scheduler() {
    let max_time_nanos = 100_000_000;
    let scheduler = LinearTimeSchedule::new(1 * SCALE, 0, max_time_nanos);
    let mut progress = Time::zero();
    while progress.elapsed() < 50_000_000 {
        progress.update();
    }

    assert!(scheduler.should_continue(&progress));
    let t = scheduler.temperature(&progress);
    assert!(400 < t && t < 600, "Temperature: {}", t);
}

#[test]
fn step_schedule_stops_after_max_steps() {
    let scheduler = LinearStepSchedule::new(100, 1, 7);
    let mut progress = Step::zero();
    let mut advances = 0;
    while scheduler.should_continue(&progress) {
        progress.update();
        advances += 1;
    }
    assert_eq!(advances, 7);
    assert_eq!(progress.0, 7);
}

#[test]
fn empty_step_schedule_never_runs() {
    let scheduler = LinearStepSchedule::new(100, 1, 0);
    assert!(!scheduler.should_continue(&Step::zero()));
    assert_eq!(scheduler.temperature(&Step::zero()), 1);
}

#[test]
fn linear_temperature_endpoints_and_rounding() {
    let scheduler = LinearStepSchedule::new(1000, 10, 3);
    assert_eq!(scheduler.temperature(&Step(0)), 1000);
    // (1000 * 2 + 10 * 1) / 3 = 670
    assert_eq!(scheduler.temperature(&Step(1)), 670);
    // (1000 * 1 + 10 * 2) / 3 = 340
    assert_eq!(scheduler.temperature(&Step(2)), 340);
    assert_eq!(scheduler.temperature(&Step(3)), 10);
    // Past the end the line goes on: 1000 - 990 * 9 / 3 is below zero.
    assert_eq!(scheduler.temperature(&Step(9)), 0);
    assert_eq!(scheduler.temperature(&Step(4)), 0);
}

#[test]
fn temperature_never_rises() {
    let scheduler = LinearStepSchedule::new(1_000_000_000, 10_000, 10_000);
    let mut last = scheduler.temperature(&Step(0));
    assert_eq!(last, 1_000_000_000);
    for k in 1..=10_000 {
        let t = scheduler.temperature(&Step(k));
        assert!(t <= last);
        last = t;
    }
    assert_eq!(last, 10_000);
}

#[test]
fn largest_temperatures_do_not_overflow() {
    let scheduler = LinearStepSchedule::new(u64::MAX, u64::MAX - 1, usize::MAX);
    assert_eq!(scheduler.temperature(&Step(0)), u64::MAX);
    assert_eq!(scheduler.temperature(&Step(usize::MAX - 1)), u64::MAX - 1);
}

#[test]
fn progress_fraction() {
    let scheduler = LinearStepSchedule::new(10, 0, 40);
    assert_eq!(
        scheduler.progress_0_1(&Step(10)),
        Fraction {
            numerator: 10,
            denominator: 40
        }
    );
    assert_eq!(
        Step(50).progress(40),
        Fraction {
            numerator: 50,
            denominator: 40
        }
    );
}

#[test]
fn time_schedule_ends() {
    let scheduler = LinearTimeSchedule::new(10, 0, 2_000_000);
    let mut progress = Time::zero();
    let mut steps: u64 = 0;
    while scheduler.should_continue(&progress) {
        progress.update();
        steps += 1;
    }
    assert!(progress.elapsed() >= 2_000_000);
    assert!(steps >= 1);
    assert_eq!(scheduler.temperature(&progress), 0);
}

#[test]
fn clock_reading_clamped() {
    assert_eq!(next_reading(5, 3), 6);
    assert_eq!(next_reading(5, 6), 6);
    assert_eq!(next_reading(5, 100), 100);
    assert_eq!(next_reading(5, u128::MAX), u64::MAX);
    assert_eq!(next_reading(u64::MAX - 1, 0), u64::MAX);
}

#[test]
fn temperature_follows_the_line_past_the_end() {
    let scheduler = LinearStepSchedule::new(20, 10, 10);
    assert_eq!(scheduler.temperature(&Step(15)), 5);
    assert_eq!(scheduler.temperature(&Step(20)), 0);
    assert_eq!(scheduler.temperature(&Step(30)), 0);
    let warming = LinearStepSchedule::new(10, 20, 10);
    assert_eq!(warming.temperature(&Step(15)), 25);
    let steep = LinearStepSchedule::new(0, u64::MAX, 1);
    assert_eq!(steep.temperature(&Step(2)), u64::MAX);
}
