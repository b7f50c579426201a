//! Simulated annealing over states of the caller's own, with integer
//! energies and a Metropolis acceptance test decided without floating point.
use vstd::prelude::*;

mod clock;
pub mod metrics;
pub mod metropolis;
pub mod random;
pub mod schedule;
pub mod test_implementer;
pub mod trace;

use crate::metrics::{lemma_push_tracks_best, tracks_best, Metrics};
use crate::metropolis::metropolis_accepts;
use crate::random::RandomSource;
use crate::schedule::{Progress, Schedule};
use crate::trace::{
    best_after, decide_step, energy_after, first_reaches, lemma_push_keeps_reach,
    lemma_push_record, lemma_push_step, records_tell, state_after, step_ok, trace_ok, StepTrace,
};

verus! {

/// A proposed local move, drawn afresh for each step.
pub trait Transition: Sized + Copy {
    type Context;
    type State;

    /// Draws a move for `state`. It reads the context and the state and
    /// changes neither.
    fn propose(rng: &mut RandomSource, ctx: &Self::Context, state: &Self::State) -> Self;
}

/// A state whose energy can be measured; lower is better.
///
/// The spec functions of this trait and of the traits below say what an
/// implementation promises. Their default bodies say nothing: verified code
/// that is generic over the state never sees them, and an implementation
/// checked by Verus gives its own.
pub trait EnergyMeasurable: Sized + Clone {
    type Context;

    /// The energy of the state under `ctx`: a function of the two alone.
    closed spec fn energy_of(&self, ctx: &Self::Context) -> i64 {
        vstd::pervasive::arbitrary()
    }

    fn energy(&self, ctx: &Self::Context) -> (e: i64)
        ensures
            e == self.energy_of(ctx),
    ;
}

/// A state that can be drawn at random.
pub trait InitialState: Sized {
    type Context;

    fn initial_state(&self, rng: &mut RandomSource, ctx: &Self::Context) -> Self;
}

/// A state that moves in place by a transition.
pub trait AnnealingState: EnergyMeasurable {
    type Transition: Transition<Context = Self::Context, State = Self>;

    /// Whether `op` applies to this state.
    closed spec fn applies(&self, ctx: &Self::Context, op: &Self::Transition) -> bool {
        vstd::pervasive::arbitrary()
    }

    /// The state `op` leads to, where it applies.
    closed spec fn moved_by(&self, ctx: &Self::Context, op: &Self::Transition) -> Self {
        vstd::pervasive::arbitrary()
    }

    /// Applies `op` in place; returns `None`, and leaves the state as it was,
    /// when the move does not apply to this state.
    fn apply(&mut self, ctx: &Self::Context, op: &Self::Transition) -> (r: Option<()>)
        ensures
            (r is Some) == old(self).applies(ctx, op),
            r is Some ==> *final(self) == old(self).moved_by(ctx, op),
            r is None ==> *final(self) == *old(self),
    ;
}

/// A state that can tell the energy after a move without making it.
pub trait AnnealingStatePeeking: AnnealingState {
    /// The energy the state would have after `op`, given its present energy
    /// `current_energy`: what `apply` followed by `energy` would give. `None`
    /// when `op` does not apply.
    fn peek_energy(
        &self,
        ctx: &Self::Context,
        op: &Self::Transition,
        current_energy: i64,
    ) -> (r: Option<i64>)
        requires
            current_energy == self.energy_of(ctx),
        ensures
            r == if self.applies(ctx, op) {
                Some(self.moved_by(ctx, op).energy_of(ctx))
            } else {
                None
            },
    ;
}

/// A state that can undo a move more cheaply than it can be cloned.
pub trait AnnealingStateBack: AnnealingState {
    type Restore;

    /// The state `back` makes of this one with `restore`.
    closed spec fn undo(&self, ctx: &Self::Context, restore: &Self::Restore) -> Self {
        vstd::pervasive::arbitrary()
    }

    /// Applies `op` as `apply` does, and returns what undoes it.
    fn apply_with_restore(&mut self, ctx: &Self::Context, op: &Self::Transition) -> (r: Option<
        Self::Restore,
    >)
        ensures
            (r is Some) == old(self).applies(ctx, op),
            r is Some ==> *final(self) == old(self).moved_by(ctx, op),
            r is None ==> *final(self) == *old(self),
            r matches Some(k) ==> final(self).undo(ctx, &k) == *old(self),
    ;

    /// Undoes the move that handed out `restore`, bringing back the state
    /// from before the move.
    fn back(&mut self, ctx: &Self::Context, restore: &Self::Restore)
        ensures
            *final(self) == old(self).undo(ctx, restore),
    ;
}

/// Minimises the energy of a state by simulated annealing.
pub struct Annealer<S: EnergyMeasurable, C: Schedule> {
    pub state: S,
    pub ctx: S::Context,
    pub schedule: C,
    pub metrics: Vec<Metrics>,
}

impl<S: AnnealingState, C: Schedule> Annealer<S, C> {
    /// A run from this annealer, whose steps are `trace` and which began from
    /// `first`, left `after` and returned `best`; `extra` is what the strategy
    /// adds to each step and `holds` how the best state stands to the step
    /// that found it:
    /// - the context and schedule are as they were; each step follows the
    ///   annealing rule (`step_ok`), one per unit of the schedule's budget
    ///   where it counts steps; the state left is the one the last step ended
    ///   in, and `first` is the starting state or its clone;
    /// - the best energy is the least of the starting energy and of every
    ///   accepted move, and no more than the final current energy; when no
    ///   move beat the start `best` is the starting state (for the peek
    ///   strategy, a clone of it), else it `holds` of the step that first
    ///   reached the best energy;
    /// - with `recorded`, the records are this run's alone, one per step, and
    ///   tell each step as it was; otherwise they are untouched.
    pub open spec fn traced_run(
        self,
        after: Self,
        best: S,
        recorded: bool,
        trace: Seq<StepTrace<S, C::Progress, S::Transition>>,
        first: S,
        extra: spec_fn(StepTrace<S, C::Progress, S::Transition>, i64) -> bool,
        holds: spec_fn(StepTrace<S, C::Progress, S::Transition>, S) -> bool,
    ) -> bool {
        let start = self.state.energy_of(&self.ctx);
        let found = best_after(trace, start);
        &&& vstd::pervasive::cloned(self.state, first)
        &&& after.ctx == self.ctx
        &&& after.schedule == self.schedule
        &&& trace_ok(self.schedule, self.ctx, trace, start, first, extra)
        &&& trace.len() <= self.schedule.budget()
        &&& self.schedule.counts_steps() ==> trace.len() == self.schedule.budget()
        &&& after.state == state_after(trace, first)
        &&& found <= start
        &&& found <= energy_after(trace, start)
        &&& forall|i: int| 0 <= i < trace.len() && #[trigger] trace[i].accepted ==> found <= trace[i].candidate
        &&& found == start ==> vstd::pervasive::cloned(self.state, best)
        &&& found < start ==> exists|j: int| #[trigger] first_reaches(trace, start, found, j) && holds(trace[j], best)
        &&& recorded ==> {
            &&& records_tell(self.schedule, after.metrics@, trace, start)
            &&& tracks_best(after.metrics@, start as int, found as int)
        }
        &&& !recorded ==> after.metrics@ == self.metrics@
    }

    /// What the clone strategy adds to a step: the move is tried on a clone
    /// of the current state, and no undo is called.
    pub open spec fn by_clone() -> spec_fn(StepTrace<S, C::Progress, S::Transition>, i64) -> bool {
        |t: StepTrace<S, C::Progress, S::Transition>, cur: i64|
            vstd::pervasive::cloned(t.from, t.base) && !t.called
    }

    /// The best state is the very state a step's move led to, and so has its
    /// energy.
    pub open spec fn is_moved() -> spec_fn(StepTrace<S, C::Progress, S::Transition>, S) -> bool {
        |t: StepTrace<S, C::Progress, S::Transition>, best: S| best == t.moved
    }

    pub fn new(state: S, ctx: S::Context, schedule: C) -> (a: Self)
        ensures
            a.state == state,
            a.ctx == ctx,
            a.schedule == schedule,
            a.metrics@.len() == 0,
    {
        Self { state, ctx, schedule, metrics: Vec::new() }
    }

    /// Runs the schedule to its end and returns the lowest-energy state seen.
    /// Each move is made on a clone of the current state, which replaces the
    /// current state only once the move is accepted.
    pub fn anneal<const METRICS: bool>(&mut self, rng: &mut RandomSource) -> (best: S)
        ensures
            exists|trace: Seq<StepTrace<S, C::Progress, S::Transition>>, first: S|
                #[trigger] old(self).traced_run(
                    *final(self),
                    best,
                    METRICS,
                    trace,
                    first,
                    Self::by_clone(),
                    Self::is_moved(),
                ),
    {
        let start = self.state.energy(&self.ctx);
        // The starting state itself becomes the first best state; the run
        // goes on with its clone.
        let mut best_state = self.state.clone();
        std::mem::swap(&mut best_state, &mut self.state);
        let ghost first = self.state;
        let ghost extra = Self::by_clone();
        let ghost mut trace: Seq<StepTrace<S, C::Progress, S::Transition>> = Seq::empty();
        let ghost mut best_index: int = 0;
        let mut best_energy = start;
        let mut current_energy = start;
        let mut progress = C::Progress::zero();
        if METRICS {
            self.metrics.clear();
        }
        while self.schedule.should_continue(&progress)
            invariant
                progress.wf(),
                self.ctx == old(self).ctx,
                self.schedule == old(self).schedule,
                extra == Self::by_clone(),
                start == old(self).state.energy_of(&old(self).ctx),
                vstd::pervasive::cloned(old(self).state, first),
                trace_ok(self.schedule, self.ctx, trace, start, first, extra),
                progress.steps() == trace.len(),
                trace.len() <= self.schedule.budget(),
                self.state == state_after(trace, first),
                current_energy == energy_after(trace, start),
                best_energy == best_after(trace, start),
                best_energy <= current_energy,
                best_energy <= start,
                forall|i: int| 0 <= i < trace.len() && #[trigger] trace[i].accepted ==> best_energy <= trace[i].candidate,
                best_energy == start ==> best_state == old(self).state,
                best_energy < start ==> first_reaches(trace, start, best_energy, best_index)
                    && best_state == trace[best_index].moved,
                METRICS ==> records_tell(self.schedule, self.metrics@, trace, start),
                METRICS ==> tracks_best(self.metrics@, start as int, best_energy as int),
                !METRICS ==> self.metrics@ == old(self).metrics@,
            decreases self.schedule.budget() - progress.steps(),
        {
            let started = if METRICS {
                Some(clock::now())
            } else {
                None
            };
            let ghost at = progress;
            let ghost from = self.state;
            let ghost previous_best = best_energy;
            let temperature = self.schedule.temperature(&progress);
            let op = S::Transition::propose(rng, &self.ctx, &self.state);
            let previous_energy = current_energy;
            let mut candidate = current_energy;
            let mut lucky = false;
            let mut accept = false;
            let mut improvement = false;
            let mut called = false;
            let mut next = self.state.clone();
            let ghost base = next;
            let applied = next.apply(&self.ctx, &op).is_some();
            let ghost moved = next;
            if applied {
                candidate = next.energy(&self.ctx);
                if candidate > current_energy {
                    let delta = candidate as i128 - current_energy as i128;
                    lucky = metropolis_accepts(rng, delta, temperature).0;
                }
                if decide_step(current_energy, candidate, lucky) {
                    accept = true;
                    current_energy = candidate;
                    if candidate < best_energy {
                        self.state = next.clone();
                        best_state = next;
                        best_energy = candidate;
                        improvement = true;
                        proof {
                            best_index = trace.len() as int;
                        }
                    } else {
                        self.state = next;
                    }
                }
            }
            let ghost step = StepTrace {
                progress: at,
                temperature,
                op,
                from,
                base,
                applied,
                moved,
                candidate,
                lucky,
                accepted: accept,
                called,
                to: self.state,
                energy: current_energy,
                best: best_energy,
            };
            proof {
                assert(step_ok(self.schedule, self.ctx, trace.push(step), start, first, extra, trace.len() as int));
                lemma_push_step(self.schedule, self.ctx, trace, start, first, extra, step);
                if best_energy < start && best_energy == previous_best {
                    lemma_push_keeps_reach(trace, start, best_energy, best_index, step);
                }
            }
            if METRICS {
                let m = Metrics {
                    best_energy,
                    current_energy,
                    next_energy: candidate,
                    delta: candidate as i128 - previous_energy as i128,
                    accept,
                    improvement,
                    progress: self.schedule.progress_0_1(&progress),
                    temperature,
                    step_duration: clock::elapsed(&started.unwrap()),
                };
                proof {
                    lemma_push_tracks_best(
                        self.metrics@,
                        m,
                        start as int,
                        previous_best as int,
                        best_energy as int,
                    );
                    lemma_push_record(self.schedule, self.metrics@, trace, start, m, step);
                }
                self.metrics.push(m);
            }
            proof {
                trace = trace.push(step);
            }
            progress.update();
        }
        assert(old(self).traced_run(
            *self,
            best_state,
            METRICS,
            trace,
            first,
            Self::by_clone(),
            Self::is_moved(),
        ));
        best_state
    }
}

impl<S: AnnealingStateBack, C: Schedule> Annealer<S, C> {
    /// What the restore strategy adds to a step: the move is made on the
    /// current state itself, and `back` runs exactly when a move that applied
    /// is rejected.
    pub open spec fn by_restore() -> spec_fn(StepTrace<S, C::Progress, S::Transition>, i64) -> bool {
        |t: StepTrace<S, C::Progress, S::Transition>, cur: i64|
            t.base == t.from && t.called == (t.applied && !t.accepted)
    }

    /// Runs the schedule to its end and returns the lowest-energy state seen.
    /// Each move is made in place; a rejected move is undone with the restore
    /// token that making it handed out.
    pub fn anneal_back<const METRICS: bool>(&mut self, rng: &mut RandomSource) -> (best: S)
        ensures
            exists|trace: Seq<StepTrace<S, C::Progress, S::Transition>>, first: S|
                #[trigger] old(self).traced_run(
                    *final(self),
                    best,
                    METRICS,
                    trace,
                    first,
                    Self::by_restore(),
                    Self::is_moved(),
                ),
    {
        let start = self.state.energy(&self.ctx);
        // The starting state itself becomes the first best state; the run
        // goes on with its clone.
        let mut best_state = self.state.clone();
        std::mem::swap(&mut best_state, &mut self.state);
        let ghost first = self.state;
        let ghost extra = Self::by_restore();
        let ghost mut trace: Seq<StepTrace<S, C::Progress, S::Transition>> = Seq::empty();
        let ghost mut best_index: int = 0;
        let mut best_energy = start;
        let mut current_energy = start;
        let mut progress = C::Progress::zero();
        if METRICS {
            self.metrics.clear();
        }
        while self.schedule.should_continue(&progress)
            invariant
                progress.wf(),
                self.ctx == old(self).ctx,
                self.schedule == old(self).schedule,
                extra == Self::by_restore(),
                start == old(self).state.energy_of(&old(self).ctx),
                vstd::pervasive::cloned(old(self).state, first),
                trace_ok(self.schedule, self.ctx, trace, start, first, extra),
                progress.steps() == trace.len(),
                trace.len() <= self.schedule.budget(),
                self.state == state_after(trace, first),
                current_energy == energy_after(trace, start),
                best_energy == best_after(trace, start),
                best_energy <= current_energy,
                best_energy <= start,
                forall|i: int| 0 <= i < trace.len() && #[trigger] trace[i].accepted ==> best_energy <= trace[i].candidate,
                best_energy == start ==> best_state == old(self).state,
                best_energy < start ==> first_reaches(trace, start, best_energy, best_index)
                    && best_state == trace[best_index].moved,
                METRICS ==> records_tell(self.schedule, self.metrics@, trace, start),
                METRICS ==> tracks_best(self.metrics@, start as int, best_energy as int),
                !METRICS ==> self.metrics@ == old(self).metrics@,
            decreases self.schedule.budget() - progress.steps(),
        {
            let started = if METRICS {
                Some(clock::now())
            } else {
                None
            };
            let ghost at = progress;
            let ghost from = self.state;
            let ghost previous_best = best_energy;
            let temperature = self.schedule.temperature(&progress);
            let op = S::Transition::propose(rng, &self.ctx, &self.state);
            let previous_energy = current_energy;
            let mut candidate = current_energy;
            let mut lucky = false;
            let mut accept = false;
            let mut improvement = false;
            let mut called = false;
            let ghost base = self.state;
            let restore = self.state.apply_with_restore(&self.ctx, &op);
            let applied = restore.is_some();
            let ghost moved = self.state;
            if let Some(restore) = restore {
                candidate = self.state.energy(&self.ctx);
                if candidate > current_energy {
                    let delta = candidate as i128 - current_energy as i128;
                    lucky = metropolis_accepts(rng, delta, temperature).0;
                }
                if decide_step(current_energy, candidate, lucky) {
                    accept = true;
                    current_energy = candidate;
                    if candidate < best_energy {
                        // The moved state becomes the best one; the run goes
                        // on with its clone.
                        let mut copy = self.state.clone();
                        std::mem::swap(&mut copy, &mut self.state);
                        best_state = copy;
                        best_energy = candidate;
                        improvement = true;
                        proof {
                            best_index = trace.len() as int;
                        }
                    }
                } else {
                    self.state.back(&self.ctx, &restore);
                    called = true;
                }
            }
            let ghost step = StepTrace {
                progress: at,
                temperature,
                op,
                from,
                base,
                applied,
                moved,
                candidate,
                lucky,
                accepted: accept,
                called,
                to: self.state,
                energy: current_energy,
                best: best_energy,
            };
            proof {
                assert(step_ok(self.schedule, self.ctx, trace.push(step), start, first, extra, trace.len() as int));
                lemma_push_step(self.schedule, self.ctx, trace, start, first, extra, step);
                if best_energy < start && best_energy == previous_best {
                    lemma_push_keeps_reach(trace, start, best_energy, best_index, step);
                }
            }
            if METRICS {
                let m = Metrics {
                    best_energy,
                    current_energy,
                    next_energy: candidate,
                    delta: candidate as i128 - previous_energy as i128,
                    accept,
                    improvement,
                    progress: self.schedule.progress_0_1(&progress),
                    temperature,
                    step_duration: clock::elapsed(&started.unwrap()),
                };
                proof {
                    lemma_push_tracks_best(
                        self.metrics@,
                        m,
                        start as int,
                        previous_best as int,
                        best_energy as int,
                    );
                    lemma_push_record(self.schedule, self.metrics@, trace, start, m, step);
                }
                self.metrics.push(m);
            }
            proof {
                trace = trace.push(step);
            }
            progress.update();
        }
        assert(old(self).traced_run(
            *self,
            best_state,
            METRICS,
            trace,
            first,
            Self::by_restore(),
            Self::is_moved(),
        ));
        best_state
    }
}

impl<S: AnnealingStatePeeking, C: Schedule> Annealer<S, C> {
    /// What the peek strategy adds to a step: the move is peeked on the
    /// current state itself, and `apply` runs exactly on accepted moves.
    pub open spec fn by_peek() -> spec_fn(StepTrace<S, C::Progress, S::Transition>, i64) -> bool {
        |t: StepTrace<S, C::Progress, S::Transition>, cur: i64| t.base == t.from && t.called == t.accepted
    }

    /// The best state is a clone of the state a step's move led to.
    pub open spec fn is_cloned() -> spec_fn(StepTrace<S, C::Progress, S::Transition>, S) -> bool {
        |t: StepTrace<S, C::Progress, S::Transition>, best: S| vstd::pervasive::cloned(t.moved, best)
    }

    /// Runs the schedule to its end and returns the lowest-energy state seen.
    /// The energy after each move is peeked, and the move is made only once
    /// it has been accepted.
    pub fn anneal_peek<const METRICS: bool>(&mut self, rng: &mut RandomSource) -> (best: S)
        ensures
            exists|trace: Seq<StepTrace<S, C::Progress, S::Transition>>, first: S|
                #[trigger] old(self).traced_run(
                    *final(self),
                    best,
                    METRICS,
                    trace,
                    first,
                    Self::by_peek(),
                    Self::is_cloned(),
                ),
    {
        let start = self.state.energy(&self.ctx);
        // The starting state itself becomes the first best state; the run
        // goes on with its clone.
        let mut best_state = self.state.clone();
        std::mem::swap(&mut best_state, &mut self.state);
        // Here the run goes on with the starting state itself, so that its
        // energy stays known; the best state is its clone.
        std::mem::swap(&mut best_state, &mut self.state);
        let ghost first = self.state;
        let ghost extra = Self::by_peek();
        let ghost mut trace: Seq<StepTrace<S, C::Progress, S::Transition>> = Seq::empty();
        let ghost mut best_index: int = 0;
        let mut best_energy = start;
        let mut current_energy = start;
        let mut progress = C::Progress::zero();
        if METRICS {
            self.metrics.clear();
        }
        while self.schedule.should_continue(&progress)
            invariant
                progress.wf(),
                self.ctx == old(self).ctx,
                self.schedule == old(self).schedule,
                extra == Self::by_peek(),
                start == old(self).state.energy_of(&old(self).ctx),
                vstd::pervasive::cloned(old(self).state, first),
                trace_ok(self.schedule, self.ctx, trace, start, first, extra),
                progress.steps() == trace.len(),
                trace.len() <= self.schedule.budget(),
                self.state == state_after(trace, first),
                current_energy == energy_after(trace, start),
                current_energy == self.state.energy_of(&self.ctx),
                best_energy == best_after(trace, start),
                best_energy <= current_energy,
                best_energy <= start,
                forall|i: int| 0 <= i < trace.len() && #[trigger] trace[i].accepted ==> best_energy <= trace[i].candidate,
                best_energy == start ==> vstd::pervasive::cloned(old(self).state, best_state),
                best_energy < start ==> first_reaches(trace, start, best_energy, best_index)
                    && vstd::pervasive::cloned(trace[best_index].moved, best_state),
                METRICS ==> records_tell(self.schedule, self.metrics@, trace, start),
                METRICS ==> tracks_best(self.metrics@, start as int, best_energy as int),
                !METRICS ==> self.metrics@ == old(self).metrics@,
            decreases self.schedule.budget() - progress.steps(),
        {
            let started = if METRICS {
                Some(clock::now())
            } else {
                None
            };
            let ghost at = progress;
            let ghost from = self.state;
            let ghost previous_best = best_energy;
            let temperature = self.schedule.temperature(&progress);
            let op = S::Transition::propose(rng, &self.ctx, &self.state);
            let previous_energy = current_energy;
            let mut candidate = current_energy;
            let mut lucky = false;
            let mut accept = false;
            let mut improvement = false;
            let mut called = false;
            let ghost base = self.state;
            let ghost moved = self.state.moved_by(&self.ctx, &op);
            let peeked = self.state.peek_energy(&self.ctx, &op, current_energy);
            let applied = peeked.is_some();
            if let Some(peeked) = peeked {
                candidate = peeked;
                if candidate > current_energy {
                    let delta = candidate as i128 - current_energy as i128;
                    lucky = metropolis_accepts(rng, delta, temperature).0;
                }
                if decide_step(current_energy, candidate, lucky) {
                    let _applied = self.state.apply(&self.ctx, &op);
                    called = true;
                    accept = true;
                    current_energy = candidate;
                    if candidate < best_energy {
                        best_state = self.state.clone();
                        best_energy = candidate;
                        improvement = true;
                        proof {
                            best_index = trace.len() as int;
                        }
                    }
                }
            }
            let ghost step = StepTrace {
                progress: at,
                temperature,
                op,
                from,
                base,
                applied,
                moved,
                candidate,
                lucky,
                accepted: accept,
                called,
                to: self.state,
                energy: current_energy,
                best: best_energy,
            };
            proof {
                assert(step_ok(self.schedule, self.ctx, trace.push(step), start, first, extra, trace.len() as int));
                lemma_push_step(self.schedule, self.ctx, trace, start, first, extra, step);
                if best_energy < start && best_energy == previous_best {
                    lemma_push_keeps_reach(trace, start, best_energy, best_index, step);
                }
            }
            if METRICS {
                let m = Metrics {
                    best_energy,
                    current_energy,
                    next_energy: candidate,
                    delta: candidate as i128 - previous_energy as i128,
                    accept,
                    improvement,
                    progress: self.schedule.progress_0_1(&progress),
                    temperature,
                    step_duration: clock::elapsed(&started.unwrap()),
                };
                proof {
                    lemma_push_tracks_best(
                        self.metrics@,
                        m,
                        start as int,
                        previous_best as int,
                        best_energy as int,
                    );
                    lemma_push_record(self.schedule, self.metrics@, trace, start, m, step);
                }
                self.metrics.push(m);
            }
            proof {
                trace = trace.push(step);
            }
            progress.update();
        }
        assert(old(self).traced_run(
            *self,
            best_state,
            METRICS,
            trace,
            first,
            Self::by_peek(),
            Self::is_cloned(),
        ));
        best_state
    }
}

} // verus!
