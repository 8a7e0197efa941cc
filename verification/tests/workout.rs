//! The workout scheduler's decisions: step changes driven by absolute
//! elapsed time, live offset application, skipping of passed steps, and
//! cancellation.
use rust_cycle::cycle_tree::CycleTree;
use rust_cycle::workout::add_offset;
use rust_cycle::workout::create_big_start_interval;
use rust_cycle::workout::interval_example;
use rust_cycle::workout::ramp_test;
use rust_cycle::workout::single_value;
use rust_cycle::workout::Workout;
use rust_cycle::workout::WorkoutRunner;
use rust_cycle::workout::WorkoutState;

fn two_step_workout() -> Workout {
    Workout::new(
        CycleTree::Node((
            1,
            vec![CycleTree::Leaf((1000, 100)), CycleTree::Leaf((1000, 200))],
        )),
        None,
    )
}

#[test]
fn runner_walks_steps_by_absolute_time() {
    let mut runner = WorkoutRunner::new(two_step_workout());
    assert_eq!(vec![100], runner.start(0));
    // Mid-step polls set nothing.
    assert_eq!(Vec::<u16>::new(), runner.tick(500, true, 0));
    // The boundary itself still belongs to the first step.
    assert_eq!(Vec::<u16>::new(), runner.tick(1000, true, 0));
    // Past the cutoff the next step's power is set once.
    assert_eq!(vec![200], runner.tick(1001, true, 0));
    assert!(!runner.is_finished());
    // Past the last cutoff the schedule is over, with no further power.
    assert_eq!(Vec::<u16>::new(), runner.tick(2001, true, 0));
    assert!(runner.is_finished());
}

#[test]
fn runner_self_corrects_after_a_delayed_poll() {
    let steps = CycleTree::Node((
        1,
        vec![
            CycleTree::Leaf((1000, 1)),
            CycleTree::Leaf((1000, 2)),
            CycleTree::Leaf((1000, 3)),
            CycleTree::Leaf((1000, 4)),
        ],
    ));
    let mut runner = WorkoutRunner::new(Workout::new(steps, None));
    assert_eq!(vec![1], runner.start(0));
    // One poll arrives 3.5 steps in: the runner lands directly on the step
    // the clock dictates, and the powers of the fully passed steps are
    // never set.
    assert_eq!(vec![4], runner.tick(3500, true, 0));
    assert!(!runner.is_finished());
}

#[test]
fn runner_applies_offset_changes_immediately() {
    let mut runner = WorkoutRunner::new(Workout::new(
        CycleTree::Node((1, vec![CycleTree::Leaf((1000, 160))])),
        Some(80),
    ));
    assert_eq!(vec![160], runner.start(0));
    // A changed offset re-sets the current power without waiting for the
    // next step boundary.
    assert_eq!(vec![165], runner.tick(100, true, 5));
    // An unchanged offset sets nothing.
    assert_eq!(Vec::<u16>::new(), runner.tick(150, true, 5));
    // The next step starts with the live offset applied.
    assert_eq!(vec![85], runner.tick(1500, true, 5));
    // A negative offset past zero wraps into the trainer's 16-bit register.
    assert_eq!(vec![65516], runner.tick(1600, true, -100));
}

#[test]
fn runner_sets_no_power_after_cancellation() {
    let mut runner = WorkoutRunner::new(single_value(140));
    assert_eq!(vec![140], runner.start(0));
    assert_eq!(Vec::<u16>::new(), runner.tick(100, false, 25));
    assert!(runner.is_finished());
    assert_eq!(Vec::<u16>::new(), runner.tick(200, true, 25));
    assert!(runner.is_finished());
}

#[test]
fn single_value_holds_only_the_tail_power() {
    let mut runner = WorkoutRunner::new(single_value(140));
    assert_eq!(vec![(1000000000, 140)], runner.steps);
    assert_eq!(vec![140], runner.start(0));
    assert_eq!(Vec::<u16>::new(), runner.tick(3600000, true, 0));
    assert!(!runner.is_finished());
}

#[test]
fn interval_example_flattens_to_the_advertised_steps() {
    let runner = WorkoutRunner::new(interval_example());
    let mut expected: Vec<(u64, u16)> = vec![(300000, 80)];
    for _ in 0..5 {
        expected.push((180000, 160));
        expected.push((60000, 80));
    }
    expected.push((300000, 80));
    assert_eq!(expected, runner.steps);
}

#[test]
fn create_big_start_interval_flattens_in_order() {
    let runner = WorkoutRunner::new(create_big_start_interval(
        (60000, 100),
        3,
        120000,
        (30000, 200),
        (15000, 50),
        Some(42),
    ));
    assert_eq!(
        vec![
            (60000, 100),
            (120000, 200),
            (15000, 50),
            (30000, 200),
            (15000, 50),
            (30000, 200),
            (1000000000, 42),
        ],
        runner.steps
    );
}

#[test]
fn ramp_test_holds_fifty_steps() {
    let runner = WorkoutRunner::new(ramp_test(110));
    assert_eq!(50, runner.steps.len());
    assert_eq!((300000, 110), runner.steps[0]);
    for k in 1..50 {
        assert_eq!((30000, 110), runner.steps[k]);
    }
}

#[test]
fn add_offset_accumulates() {
    let mut state = WorkoutState {
        running: true,
        offset: 0,
    };
    add_offset(&mut state, 5);
    add_offset(&mut state, 5);
    add_offset(&mut state, -3);
    assert_eq!(7, state.offset);
    assert!(state.running);
}
