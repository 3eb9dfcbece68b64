use nbody::timestep::{effective_step, FixedTimestep};

#[test]
fn slow_frame_is_clamped_to_fixed_step() {
    assert_eq!(effective_step(25_000_000, 10_000_000), 10_000_000);
}

#[test]
fn short_frame_keeps_its_length() {
    assert_eq!(effective_step(4_000_000, 10_000_000), 4_000_000);
    assert_eq!(effective_step(10_000_000, 10_000_000), 10_000_000);
    assert_eq!(effective_step(0, 10_000_000), 0);
}

#[test]
fn zero_interval_is_refused() {
    assert!(FixedTimestep::new(0).is_none());
}

#[test]
fn new_clock_carries_nothing() {
    let c = FixedTimestep::new(1_000_000).unwrap();
    assert_eq!(c.step_nanos(), 1_000_000);
    assert_eq!(c.carried_nanos(), 0);
}

#[test]
fn advance_runs_whole_intervals_and_carries_rest() {
    let mut c = FixedTimestep::new(10).unwrap();
    assert_eq!(c.advance(25), 2);
    assert_eq!(c.carried_nanos(), 5);
    assert_eq!(c.advance(4), 0);
    assert_eq!(c.carried_nanos(), 9);
    assert_eq!(c.advance(1), 1);
    assert_eq!(c.carried_nanos(), 0);
    assert_eq!(c.advance(0), 0);
    assert_eq!(c.carried_nanos(), 0);
}

#[test]
fn ticks_do_not_depend_on_frame_split() {
    let mut split = FixedTimestep::new(7).unwrap();
    let mut whole = FixedTimestep::new(7).unwrap();
    let frames: [u64; 5] = [3, 11, 0, 6, 20];
    let mut ticks: u64 = 0;
    for e in frames {
        ticks += split.advance(e);
    }
    assert_eq!(ticks, whole.advance(40));
    assert_eq!(ticks, 5);
    assert_eq!(split.carried_nanos(), whole.carried_nanos());
    assert_eq!(split.carried_nanos(), 5);
}

#[test]
fn advance_with_largest_values() {
    let mut c = FixedTimestep::new(u64::MAX).unwrap();
    assert_eq!(c.advance(u64::MAX - 1), 0);
    assert_eq!(c.carried_nanos(), u64::MAX - 1);
    assert_eq!(c.advance(u64::MAX), 1);
    assert_eq!(c.carried_nanos(), u64::MAX - 1);
    let mut one = FixedTimestep::new(1).unwrap();
    assert_eq!(one.advance(u64::MAX), u64::MAX);
    assert_eq!(one.carried_nanos(), 0);
}
