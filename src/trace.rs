//! What each step of a run did, as the run saw it.
use vstd::prelude::*;

use crate::metrics::Metrics;
use crate::schedule::{Progress, Schedule};
use crate::{AnnealingState, EnergyMeasurable};
verus! {

/// One step of a run.
pub struct StepTrace<S, P, T> {
    /// The progress at which the step began.
    pub progress: P,
    /// The temperature the step was decided at.
    pub temperature: u64,
    /// The move that was proposed.
    pub op: T,
    /// The current state when the step began.
    pub from: S,
    /// The state the move was tried on: the current state or its clone.
    pub base: S,
    /// Whether the move applied.
    pub applied: bool,
    /// The state the move led to, where it applied.
    pub moved: S,
    /// The energy after the move; the current energy when it did not apply.
    pub candidate: i64,
    /// The outcome of the Metropolis test, drawn only for a move that applied
    /// and raised the energy; `false` where none was drawn.
    pub lucky: bool,
    /// Whether the move was kept.
    pub accepted: bool,
    /// Whether the run called the state's undo (`back`) or, when it peeks,
    /// made the move (`apply`).
    pub called: bool,
    /// The current state when the step ended.
    pub to: S,
    /// The current energy when the step ended.
    pub energy: i64,
    /// The best energy when the step ended.
    pub best: i64,
}

/// Whether a step keeps a move that applied: a move that does not raise the
/// energy is always kept, one that raises it only on a Metropolis success.
pub open spec fn keeps_move(current: i64, candidate: i64, lucky: bool) -> bool {
    candidate <= current || lucky
}

/// The decision of one step on a move that applied, given the current
/// energy, the energy after the move, and the outcome of the Metropolis test.
pub fn decide_step(current: i64, candidate: i64, lucky: bool) -> (r: bool)
    ensures
        r == keeps_move(current, candidate, lucky),
{
    candidate <= current || lucky
}

/// The current energy when step `i` began.
pub open spec fn energy_before<S, P, T>(trace: Seq<StepTrace<S, P, T>>, start: i64, i: int) -> i64 {
    if i == 0 {
        start
    } else {
        trace[i - 1].energy
    }
}

/// The best energy when step `i` began.
pub open spec fn best_before<S, P, T>(trace: Seq<StepTrace<S, P, T>>, start: i64, i: int) -> i64 {
    if i == 0 {
        start
    } else {
        trace[i - 1].best
    }
}

/// The current state when step `i` began.
pub open spec fn state_before<S, P, T>(trace: Seq<StepTrace<S, P, T>>, first: S, i: int) -> S {
    if i == 0 {
        first
    } else {
        trace[i - 1].to
    }
}

/// Step `i` of a run that began in `first` at energy `start` under `sched`
/// followed the annealing rule; `extra` holds what the strategy adds, given
/// the step and the current energy when it began.
pub open spec fn step_ok<S: AnnealingState, C: Schedule>(
    sched: C,
    ctx: S::Context,
    trace: Seq<StepTrace<S, C::Progress, S::Transition>>,
    start: i64,
    first: S,
    extra: spec_fn(StepTrace<S, C::Progress, S::Transition>, i64) -> bool,
    i: int,
) -> bool {
    let t = trace[i];
    let cur = energy_before(trace, start, i);
    let best = best_before(trace, start, i);
    &&& t.from == state_before(trace, first, i)
    &&& sched.continues(&t.progress)
    &&& t.progress.steps() == i
    &&& t.temperature == sched.temperature_of(&t.progress)
    &&& t.applied == t.base.applies(&ctx, &t.op)
    &&& t.applied ==> t.moved == t.base.moved_by(&ctx, &t.op) && t.candidate == t.moved.energy_of(&ctx)
    &&& !t.applied ==> t.candidate == cur && !t.accepted
    &&& !t.accepted ==> t.to == t.from
    &&& t.accepted ==> vstd::pervasive::cloned(t.moved, t.to)
    &&& !(t.applied && t.candidate > cur) ==> !t.lucky
    &&& t.applied && t.candidate > cur && t.temperature == 0 ==> !t.lucky
    &&& t.applied ==> t.accepted == keeps_move(cur, t.candidate, t.lucky)
    &&& t.energy == if t.accepted {
        t.candidate
    } else {
        cur
    }
    &&& t.best == if t.accepted && t.candidate < best {
        t.candidate
    } else {
        best
    }
    &&& extra(t, cur)
}

/// Every step of `trace` followed the rule.
pub open spec fn trace_ok<S: AnnealingState, C: Schedule>(
    sched: C,
    ctx: S::Context,
    trace: Seq<StepTrace<S, C::Progress, S::Transition>>,
    start: i64,
    first: S,
    extra: spec_fn(StepTrace<S, C::Progress, S::Transition>, i64) -> bool,
) -> bool {
    forall|i: int| 0 <= i < trace.len() ==> #[trigger] step_ok(sched, ctx, trace, start, first, extra, i)
}

/// The current energy after the last step of `trace`.
pub open spec fn energy_after<S, P, T>(trace: Seq<StepTrace<S, P, T>>, start: i64) -> i64 {
    energy_before(trace, start, trace.len() as int)
}

/// The best energy after the last step of `trace`.
pub open spec fn best_after<S, P, T>(trace: Seq<StepTrace<S, P, T>>, start: i64) -> i64 {
    best_before(trace, start, trace.len() as int)
}

/// The current state after the last step of `trace`.
pub open spec fn state_after<S, P, T>(trace: Seq<StepTrace<S, P, T>>, first: S) -> S {
    state_before(trace, first, trace.len() as int)
}

/// Step `j` is where the best energy of the run first fell to `found`.
pub open spec fn first_reaches<S, P, T>(
    trace: Seq<StepTrace<S, P, T>>,
    start: i64,
    found: i64,
    j: int,
) -> bool {
    &&& 0 <= j < trace.len()
    &&& trace[j].accepted
    &&& trace[j].candidate == found
    &&& found < best_before(trace, start, j)
}

/// Record `m` tells step `i` of the run as it was.
pub open spec fn record_tells<S, C: Schedule, T>(
    sched: C,
    m: Metrics,
    trace: Seq<StepTrace<S, C::Progress, T>>,
    start: i64,
    i: int,
) -> bool {
    let t = trace[i];
    &&& m.best_energy == t.best
    &&& m.current_energy == t.energy
    &&& m.next_energy == t.candidate
    &&& m.delta == t.candidate - energy_before(trace, start, i)
    &&& m.accept == t.accepted
    &&& m.improvement == (t.best < best_before(trace, start, i))
    &&& m.progress == sched.fraction_of(&t.progress)
    &&& m.temperature == t.temperature
}

/// Every record tells its step.
pub open spec fn records_tell<S, C: Schedule, T>(
    sched: C,
    log: Seq<Metrics>,
    trace: Seq<StepTrace<S, C::Progress, T>>,
    start: i64,
) -> bool {
    &&& log.len() == trace.len()
    &&& forall|i: int| 0 <= i < log.len() ==> #[trigger] record_tells(sched, log[i], trace, start, i)
}

/// Appending a step that followed the rule keeps the trace following it.
pub proof fn lemma_push_step<S: AnnealingState, C: Schedule>(
    sched: C,
    ctx: S::Context,
    trace: Seq<StepTrace<S, C::Progress, S::Transition>>,
    start: i64,
    first: S,
    extra: spec_fn(StepTrace<S, C::Progress, S::Transition>, i64) -> bool,
    t: StepTrace<S, C::Progress, S::Transition>,
)
    requires
        trace_ok(sched, ctx, trace, start, first, extra),
        step_ok(sched, ctx, trace.push(t), start, first, extra, trace.len() as int),
    ensures
        trace_ok(sched, ctx, trace.push(t), start, first, extra),
{
    let next = trace.push(t);
    assert forall|i: int| 0 <= i < next.len() implies #[trigger] step_ok(
        sched,
        ctx,
        next,
        start,
        first,
        extra,
        i,
    ) by {
        if i < trace.len() {
            assert(step_ok(sched, ctx, trace, start, first, extra, i));
            assert(next[i] == trace[i]);
            if i > 0 {
                assert(next[i - 1] == trace[i - 1]);
            }
        }
    }
}

/// Appending the record of a new step keeps every record telling its step.
pub proof fn lemma_push_record<S, C: Schedule, T>(
    sched: C,
    log: Seq<Metrics>,
    trace: Seq<StepTrace<S, C::Progress, T>>,
    start: i64,
    m: Metrics,
    t: StepTrace<S, C::Progress, T>,
)
    requires
        records_tell(sched, log, trace, start),
        record_tells(sched, m, trace.push(t), start, trace.len() as int),
    ensures
        records_tell(sched, log.push(m), trace.push(t), start),
{
    let next = trace.push(t);
    let more = log.push(m);
    assert forall|i: int| 0 <= i < more.len() implies #[trigger] record_tells(
        sched,
        more[i],
        next,
        start,
        i,
    ) by {
        if i < log.len() {
            assert(record_tells(sched, log[i], trace, start, i));
            assert(more[i] == log[i]);
            assert(next[i] == trace[i]);
            if i > 0 {
                assert(next[i - 1] == trace[i - 1]);
            }
        }
    }
}

/// A step keeps `first_reaches` of an earlier step.
pub proof fn lemma_push_keeps_reach<S, P, T>(
    trace: Seq<StepTrace<S, P, T>>,
    start: i64,
    found: i64,
    j: int,
    t: StepTrace<S, P, T>,
)
    requires
        first_reaches(trace, start, found, j),
    ensures
        first_reaches(trace.push(t), start, found, j),
{
    assert(trace.push(t)[j] == trace[j]);
    if j > 0 {
        assert(trace.push(t)[j - 1] == trace[j - 1]);
    }
}

} // verus!
