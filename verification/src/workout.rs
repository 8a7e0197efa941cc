//! Workouts and the scheduling decisions that drive them.
//!
//! A workout is a repeat tree of `(duration, target power)` steps plus an
//! optional tail power held indefinitely at the end.  `WorkoutRunner` is the
//! decision core of the scheduler: a caller flattens a workout into it, then
//! polls it with the absolute elapsed time, the shared running flag and the
//! live user offset; the runner answers with the target powers to set, in
//! order.  Cutoffs are computed from absolute elapsed time, never from
//! accumulated sleeps, so a delayed poll cannot make drift accumulate: the
//! runner lands on whatever step the clock dictates, skipping steps whose
//! cutoff already passed without setting their power.
use vstd::prelude::*;

use crate::cycle_tree::flatten;
use crate::cycle_tree::lemma_flatten_list2;
use crate::cycle_tree::lemma_flatten_list3;
use crate::cycle_tree::lemma_flatten_list_snoc;
use crate::cycle_tree::lemma_repeat_once;
use crate::cycle_tree::spec_flatten;
use crate::cycle_tree::spec_flatten_list;
use crate::cycle_tree::spec_repeat;
use crate::cycle_tree::CycleTree;

verus! {

/// Duration of the indefinite tail step: a million seconds, longer than any
/// workout.
pub const TAIL_STEP_MILLIS: u64 = 1000000000;

/// A workout: a repeat tree of `(duration in ms, target power in watts)`
/// steps, and optionally a final power held indefinitely after them.
pub struct Workout {
    pub ct: CycleTree<(u64, u16)>,
    pub tail: Option<u16>,
}

/// The shared state a running workout is steered by: user-input handlers
/// write it, the scheduler's poll loop reads it.
#[derive(Debug, Clone, PartialEq)]
pub struct WorkoutState {
    /// Cleared to request cancellation.
    pub running: bool,
    /// Live additive correction to every step's target power, in watts.
    pub offset: i16,
}

/// Adds `offset` to the live power correction.
pub fn add_offset(state: &mut WorkoutState, offset: i16)
    requires
        i16::MIN <= old(state).offset + offset <= i16::MAX,
    ensures
        final(state).offset == old(state).offset + offset,
        final(state).running == old(state).running,
{
    state.offset = state.offset + offset;
}

impl Workout {
    /// A workout made from a repeat tree of how long each power should be
    /// held, and optionally a final power held indefinitely at the end.
    pub fn new(ct: CycleTree<(u64, u16)>, tail: Option<u16>) -> (r: Workout)
        ensures
            r.ct == ct,
            r.tail == tail,
    {
        Workout { ct, tail }
    }
}

/// The step list a workout schedules: its flattened tree, with the tail
/// power appended as one step of `TAIL_STEP_MILLIS`.
pub open spec fn spec_workout_steps(w: Workout) -> Seq<(u64, u16)> {
    match w.tail {
        Some(p) => spec_flatten(w.ct).push((TAIL_STEP_MILLIS, p)),
        None => spec_flatten(w.ct),
    }
}

/// The total duration of the first `i` steps, in milliseconds.
pub open spec fn spec_total_millis(steps: Seq<(u64, u16)>, i: int) -> int
    decreases i,
{
    if i <= 0 {
        0
    } else {
        spec_total_millis(steps, i - 1) + steps[i - 1].0
    }
}

/// The step current at elapsed time `e`, looking from step `from` on: the
/// first step whose cutoff `e` has not passed, or the step count when every
/// cutoff has passed.
pub open spec fn spec_target_index(steps: Seq<(u64, u16)>, from: int, e: int) -> int
    decreases steps.len() - from,
{
    if from < 0 || from >= steps.len() {
        steps.len() as int
    } else if e <= spec_total_millis(steps, from + 1) {
        from
    } else {
        spec_target_index(steps, from + 1, e)
    }
}

/// The power a step is set to: its nominal target plus the live offset,
/// wrapped into the 16-bit register the trainer takes.
pub open spec fn spec_applied_power(p: u16, off: i16) -> u16 {
    ((p + off) % 0x10000) as u16
}

/// Prefix sums of step durations are monotone.
pub proof fn lemma_total_monotone(steps: Seq<(u64, u16)>, i: int, j: int)
    requires
        i <= j <= steps.len(),
    ensures
        spec_total_millis(steps, i) <= spec_total_millis(steps, j),
    decreases j - i,
{
    if i < j {
        lemma_total_monotone(steps, i, j - 1);
    }
}

/// What the current step at elapsed time `e` means: every earlier step's
/// cutoff has passed, and its own has not.  The index depends on the step
/// durations and on `e` alone, so step `k` begins at the first poll whose
/// elapsed time exceeds the total duration of the steps before it, however
/// late or uneven the polls arrive: the schedule self-corrects instead of
/// accumulating drift.
pub proof fn lemma_target_bounds(steps: Seq<(u64, u16)>, from: int, e: int)
    requires
        0 <= from <= steps.len(),
    ensures
        from <= spec_target_index(steps, from, e) <= steps.len(),
        forall|j: int|
            from <= j < spec_target_index(steps, from, e) ==> e > #[trigger] spec_total_millis(
                steps,
                j + 1,
            ),
        spec_target_index(steps, from, e) < steps.len() ==> e <= spec_total_millis(
            steps,
            spec_target_index(steps, from, e) + 1,
        ),
    decreases steps.len() - from,
{
    if from < steps.len() && e > spec_total_millis(steps, from + 1) {
        lemma_target_bounds(steps, from + 1, e);
    }
}

/// The current step computed from any position at or before it agrees with
/// the one computed from the start of the schedule.
pub proof fn lemma_target_from_start(steps: Seq<(u64, u16)>, from: int, e: int)
    requires
        0 <= from <= steps.len(),
        forall|j: int| 0 <= j < from ==> e > #[trigger] spec_total_millis(steps, j + 1),
    ensures
        spec_target_index(steps, from, e) == spec_target_index(steps, 0, e),
    decreases from,
{
    if from > 0 {
        lemma_target_from_start(steps, from - 1, e);
    }
}

/// The decision core of the workout scheduler.  `start` begins the
/// schedule; each `tick` takes one poll's observations and answers with the
/// powers to set.  The caller owns the clock, the sleeping and the trainer.
pub struct WorkoutRunner {
    /// The flattened schedule, tail step included.
    pub steps: Vec<(u64, u16)>,
    /// The current step.
    pub idx: usize,
    /// Total duration of the steps before the current one.
    pub cutoff: u64,
    /// The offset most recently applied to a power.
    pub last_offset: i16,
    /// Whether `start` has run.
    pub started: bool,
    /// Whether the schedule is over: cancelled, or past its last cutoff.
    pub done: bool,
    /// The largest elapsed time observed so far.
    pub seen: Ghost<u64>,
}

impl WorkoutRunner {
    /// The runner's invariant: the schedule fits the clock, and while a
    /// step is current it is exactly the one the last observed elapsed time
    /// dictates, with the bookkeeping to match.
    pub open spec fn wf(self) -> bool {
        &&& spec_total_millis(self.steps@, self.steps@.len() as int) <= u64::MAX
        &&& self.idx <= self.steps@.len()
        &&& !self.started ==> (!self.done && self.idx == 0 && self.cutoff == 0
            && self.last_offset == 0)
        &&& (self.started && !self.done) ==> {
            &&& self.idx == spec_target_index(self.steps@, 0, self.seen@ as int)
            &&& self.idx < self.steps@.len()
            &&& self.cutoff == spec_total_millis(self.steps@, self.idx as int)
        }
    }

    /// A runner for a workout, not yet started.
    pub fn new(workout: Workout) -> (r: WorkoutRunner)
        requires
            spec_total_millis(
                spec_workout_steps(workout),
                spec_workout_steps(workout).len() as int,
            ) <= u64::MAX,
        ensures
            r.steps@ == spec_workout_steps(workout),
            !r.started,
            !r.done,
            r.last_offset == 0,
            r.seen@ == 0,
            r.wf(),
    {
        let Workout { ct, tail } = workout;
        let mut steps: Vec<(u64, u16)> = Vec::new();
        flatten(&ct, &mut steps);
        if let Some(p) = tail {
            steps.push((TAIL_STEP_MILLIS, p));
        }
        assert(steps@ =~= spec_workout_steps(Workout { ct, tail }));
        WorkoutRunner {
            steps,
            idx: 0,
            cutoff: 0,
            last_offset: 0,
            started: false,
            done: false,
            seen: Ghost(0),
        }
    }

    /// Whether the schedule is over.
    pub fn is_finished(&self) -> (r: bool)
        ensures
            r == self.done,
    {
        self.done
    }

    /// Moves `idx` past every step whose cutoff `elapsed` has passed.
    fn advance(&mut self, elapsed: u64)
        requires
            spec_total_millis(old(self).steps@, old(self).steps@.len() as int) <= u64::MAX,
            old(self).idx <= old(self).steps@.len(),
            old(self).cutoff == spec_total_millis(old(self).steps@, old(self).idx as int),
            forall|j: int|
                0 <= j < old(self).idx ==> elapsed > #[trigger] spec_total_millis(
                    old(self).steps@,
                    j + 1,
                ),
        ensures
            final(self).steps == old(self).steps,
            final(self).last_offset == old(self).last_offset,
            final(self).started == old(self).started,
            final(self).done == old(self).done,
            final(self).seen == old(self).seen,
            final(self).idx == spec_target_index(old(self).steps@, 0, elapsed as int),
            final(self).idx <= final(self).steps@.len(),
            final(self).cutoff == spec_total_millis(final(self).steps@, final(self).idx as int),
    {
        let ghost steps0 = self.steps@;
        let n: usize = self.steps.len();
        let mut idx: usize = self.idx;
        let mut cutoff: u64 = self.cutoff;
        while idx < n
            invariant_except_break
                self.steps@ == steps0,
                n == steps0.len(),
                spec_total_millis(steps0, n as int) <= u64::MAX,
                idx <= n,
                cutoff == spec_total_millis(steps0, idx as int),
                forall|j: int| 0 <= j < idx ==> elapsed > #[trigger] spec_total_millis(steps0, j + 1),
            ensures
                self.steps@ == steps0,
                idx <= n,
                cutoff == spec_total_millis(steps0, idx as int),
                forall|j: int| 0 <= j < idx ==> elapsed > #[trigger] spec_total_millis(steps0, j + 1),
                idx < n ==> elapsed <= spec_total_millis(steps0, idx + 1),
            decreases n - idx,
        {
            proof {
                lemma_total_monotone(steps0, idx + 1, n as int);
            }
            let step_cutoff: u64 = cutoff + self.steps[idx].0;
            if elapsed <= step_cutoff {
                break;
            }
            cutoff = step_cutoff;
            idx = idx + 1;
        }
        proof {
            lemma_target_bounds(steps0, idx as int, elapsed as int);
            lemma_target_from_start(steps0, idx as int, elapsed as int);
        }
        self.idx = idx;
        self.cutoff = cutoff;
    }

    /// Starts the schedule at elapsed time `elapsed` (normally zero): lands
    /// on the step the clock dictates and answers its power, offset zero
    /// applied; a schedule whose cutoffs have all passed is over at once
    /// and sets no power.
    pub fn start(&mut self, elapsed: u64) -> (powers: Vec<u16>)
        requires
            old(self).wf(),
            !old(self).started,
        ensures
            final(self).steps == old(self).steps,
            final(self).started,
            final(self).last_offset == 0,
            final(self).seen@ == elapsed,
            final(self).wf(),
            ({
                let k = spec_target_index(old(self).steps@, 0, elapsed as int);
                &&& final(self).done <==> k == old(self).steps@.len()
                &&& !final(self).done ==> final(self).idx == k
                &&& powers@ == (if k < old(self).steps@.len() {
                    seq![spec_applied_power(old(self).steps@[k].1, 0)]
                } else {
                    Seq::<u16>::empty()
                })
            }),
    {
        let mut powers: Vec<u16> = Vec::new();
        self.advance(elapsed);
        if self.idx < self.steps.len() {
            let base: u16 = self.steps[self.idx].1;
            powers.push(applied_power(base, self.last_offset));
        } else {
            self.done = true;
        }
        self.started = true;
        self.seen = Ghost(elapsed);
        powers
    }

    /// Takes one poll's observations and answers the powers to set, in
    /// order.  A cleared running flag ends the schedule with no further
    /// power: after a cancellation is observed, no power is ever set again.
    /// A changed offset re-sets the current step's power immediately, with
    /// the new offset.  A cutoff passed means the clock left the current
    /// step: the runner lands on whatever step absolute elapsed time
    /// dictates, skipping the powers of fully passed steps, and answers
    /// the new step's power; past the last cutoff the schedule is over.
    pub fn tick(&mut self, elapsed: u64, running: bool, offset: i16) -> (powers: Vec<u16>)
        requires
            old(self).wf(),
            old(self).started,
            elapsed >= old(self).seen@,
        ensures
            final(self).steps == old(self).steps,
            final(self).started,
            final(self).wf(),
            old(self).done ==> *final(self) == *old(self) && powers@ == Seq::<u16>::empty(),
            !old(self).done && !running ==> final(self).done && powers@ == Seq::<u16>::empty(),
            (!old(self).done && running) ==> ({
                let steps = old(self).steps@;
                let k = spec_target_index(steps, 0, elapsed as int);
                &&& final(self).seen@ == elapsed
                &&& final(self).last_offset == offset
                &&& (final(self).done <==> k == steps.len())
                &&& (!final(self).done ==> final(self).idx == k)
                &&& powers@ == (if offset != old(self).last_offset {
                    seq![spec_applied_power(steps[old(self).idx as int].1, offset)]
                } else {
                    Seq::<u16>::empty()
                }) + (if k != old(self).idx && k < steps.len() {
                    seq![spec_applied_power(steps[k].1, offset)]
                } else {
                    Seq::<u16>::empty()
                })
            }),
    {
        let mut powers: Vec<u16> = Vec::new();
        if self.done {
            return powers;
        }
        if !running {
            self.done = true;
            return powers;
        }
        let old_idx: usize = self.idx;
        if offset != self.last_offset {
            self.last_offset = offset;
            let base: u16 = self.steps[self.idx].1;
            powers.push(applied_power(base, offset));
        }
        proof {
            lemma_target_bounds(self.steps@, 0, self.seen@ as int);
        }
        self.advance(elapsed);
        if self.idx < self.steps.len() {
            if self.idx != old_idx {
                let base: u16 = self.steps[self.idx].1;
                powers.push(applied_power(base, offset));
            }
        } else {
            self.done = true;
        }
        self.seen = Ghost(elapsed);
        powers
    }
}

/// The power a step is set to: its nominal target plus the live offset,
/// wrapped into the trainer's 16-bit register.
fn applied_power(p: u16, off: i16) -> (r: u16)
    ensures
        r == spec_applied_power(p, off),
{
    let s: i32 = (p as i32) + (off as i32);
    if s >= 0 {
        (s % 65536) as u16
    } else {
        (s + 65536) as u16
    }
}

/// No repetitions: just the final indefinite power.
pub fn single_value(power: u16) -> (r: Workout)
    ensures
        spec_workout_steps(r) == seq![(TAIL_STEP_MILLIS, power)],
{
    let r = Workout::new(CycleTree::Node((0, Vec::new())), Some(power));
    assert(spec_flatten(r.ct) =~= Seq::<(u64, u16)>::empty());
    assert(spec_workout_steps(r) =~= seq![(TAIL_STEP_MILLIS, power)]);
    r
}

/// A hardcoded interval workout: five minutes at 80 W, five repeats of three
/// minutes at 160 W and one minute at 80 W, then five minutes at 80 W.
pub fn interval_example() -> (r: Workout)
    ensures
        r.tail is None,
        spec_workout_steps(r) == seq![(300000u64, 80u16)] + spec_repeat(
            seq![(180000u64, 160u16), (60000u64, 80u16)],
            5,
        ) + seq![(300000u64, 80u16)],
{
    let inner: Vec<CycleTree<(u64, u16)>> = vec![
        CycleTree::Leaf((180000, 160)),
        CycleTree::Leaf((60000, 80)),
    ];
    let node = CycleTree::Node((5, inner));
    let outer: Vec<CycleTree<(u64, u16)>> = vec![
        CycleTree::Leaf((300000, 80)),
        node,
        CycleTree::Leaf((300000, 80)),
    ];
    let r = Workout::new(CycleTree::Node((1, outer)), None);
    proof {
        let ts = r.ct->Node_0.1@;
        lemma_flatten_list3(ts);
        lemma_flatten_list2(ts[1]->Node_0.1@);
        assert(ts[1]->Node_0.1@[0] == CycleTree::Leaf((180000u64, 160u16)));
        assert(spec_flatten_list(ts[1]->Node_0.1@) =~= seq![
            (180000u64, 160u16),
            (60000u64, 80u16),
        ]);
        lemma_repeat_once(spec_flatten_list(ts));
        assert(spec_workout_steps(r) =~= seq![(300000u64, 80u16)] + spec_repeat(
            seq![(180000u64, 160u16), (60000u64, 80u16)],
            5,
        ) + seq![(300000u64, 80u16)]);
    }
    r
}

/// Standard intervals with one exception: the first effort runs extra long,
/// to reach a steady state for each interval as quickly as possible.
pub fn create_big_start_interval(
    warmup: (u64, u16),
    count: usize,
    start: u64,
    high: (u64, u16),
    low: (u64, u16),
    tail: Option<u16>,
) -> (r: Workout)
    requires
        count >= 1,
    ensures
        r.tail == tail,
        spec_flatten(r.ct) == seq![warmup, (start, high.1)] + spec_repeat(
            seq![low, high],
            (count - 1) as nat,
        ),
{
    let repeats: Vec<CycleTree<(u64, u16)>> = vec![CycleTree::Leaf(low), CycleTree::Leaf(high)];
    let node = CycleTree::Node((count - 1, repeats));
    let outer: Vec<CycleTree<(u64, u16)>> = vec![
        CycleTree::Leaf(warmup),
        CycleTree::Leaf((start, high.1)),
        node,
    ];
    let r = Workout::new(CycleTree::Node((1, outer)), tail);
    proof {
        let ts = r.ct->Node_0.1@;
        lemma_flatten_list3(ts);
        lemma_flatten_list2(ts[2]->Node_0.1@);
        assert(spec_flatten_list(ts[2]->Node_0.1@) =~= seq![low, high]);
        lemma_repeat_once(spec_flatten_list(ts));
        assert(spec_flatten(r.ct) =~= seq![warmup, (start, high.1)] + spec_repeat(
            seq![low, high],
            (count - 1) as nat,
        ));
    }
    r
}

/// A ramp test: warm up for five minutes, then hold half-minute steps until
/// the rider must stop.
pub fn ramp_test(warmup_power: u16) -> (r: Workout)
    ensures
        r.tail is None,
        spec_flatten(r.ct) == seq![(300000u64, warmup_power)] + spec_repeat(
            seq![(30000u64, warmup_power)],
            49,
        ),
{
    let mut v: Vec<CycleTree<(u64, u16)>> = Vec::with_capacity(50);
    v.push(CycleTree::Leaf((300000, warmup_power)));
    proof {
        lemma_flatten_list_snoc(
            Seq::<CycleTree<(u64, u16)>>::empty(),
            CycleTree::Leaf((300000u64, warmup_power)),
        );
        assert(Seq::<CycleTree<(u64, u16)>>::empty().push(
            CycleTree::Leaf((300000u64, warmup_power)),
        ) =~= v@);
        assert(spec_flatten_list(v@) =~= seq![(300000u64, warmup_power)] + spec_repeat(
            seq![(30000u64, warmup_power)],
            0,
        ));
    }
    let mut i: usize = 0;
    while i < 49
        invariant
            i <= 49,
            v@.len() == i + 1,
            spec_flatten_list(v@) == seq![(300000u64, warmup_power)] + spec_repeat(
                seq![(30000u64, warmup_power)],
                i as nat,
            ),
        decreases 49 - i,
    {
        let ghost v0 = v@;
        v.push(CycleTree::Leaf((30000, warmup_power)));
        proof {
            lemma_flatten_list_snoc(v0, CycleTree::Leaf((30000u64, warmup_power)));
            assert(spec_flatten_list(v@) =~= seq![(300000u64, warmup_power)] + spec_repeat(
                seq![(30000u64, warmup_power)],
                (i + 1) as nat,
            ));
        }
        i = i + 1;
    }
    let ghost section = spec_flatten_list(v@);
    let r = Workout::new(CycleTree::Node((1, v)), None);
    proof {
        lemma_repeat_once(section);
        assert(spec_flatten(r.ct) =~= seq![(300000u64, warmup_power)] + spec_repeat(
            seq![(30000u64, warmup_power)],
            49,
        ));
    }
    r
}

} // verus!
