//! The per-step record of a run.
use vstd::prelude::*;

use crate::schedule::Fraction;

verus! {

/// What happened in one step of a run.
#[derive(Debug, Clone)]
pub struct Metrics {
    /// The lowest energy seen so far, after the step.
    pub best_energy: i64,
    /// The energy of the current state, after the step.
    pub current_energy: i64,
    /// The energy of the candidate the step looked at (the current energy when
    /// the move did not apply).
    pub next_energy: i64,
    /// `next_energy` minus the current energy before the step.
    pub delta: i128,
    /// Whether the candidate became the current state.
    pub accept: bool,
    /// Whether the candidate lowered the best energy.
    pub improvement: bool,
    /// The completed part of the run when the step began.
    pub progress: Fraction,
    /// The temperature the step was decided at.
    pub temperature: u64,
    /// How long the step took.
    pub step_duration: std::time::Duration,
}

/// What the records of a run that started at energy `start` and whose best
/// energy is now `best` say of the best energy: it never rises from one
/// record to the next, never exceeds the current energy of its record, lies
/// between `best` and `start`, and the last record holds `best`.
pub open spec fn tracks_best(log: Seq<Metrics>, start: int, best: int) -> bool {
    &&& forall|i: int, j: int|
        0 <= i < j < log.len() ==> #[trigger] log[j].best_energy <= #[trigger] log[i].best_energy
    &&& forall|i: int| 0 <= i < log.len() ==> best <= #[trigger] log[i].best_energy <= start
    &&& forall|i: int| 0 <= i < log.len() ==> #[trigger] log[i].best_energy <= log[i].current_energy
    &&& log.len() > 0 ==> log.last().best_energy == best
}

/// Appending the record of a step whose best energy is `best`, no higher than
/// the best before it, keeps the log tracking the best energy.
pub(crate) proof fn lemma_push_tracks_best(log: Seq<Metrics>, m: Metrics, start: int, previous: int, best: int)
    requires
        tracks_best(log, start, previous),
        best <= previous <= start,
        m.best_energy == best,
        best <= m.current_energy,
    ensures
        tracks_best(log.push(m), start, best),
{
    let next = log.push(m);
    assert forall|i: int, j: int| 0 <= i < j < next.len() implies #[trigger] next[j].best_energy
        <= #[trigger] next[i].best_energy by {
        if j == log.len() {
            assert(next[i] == log[i]);
        } else {
            assert(next[i] == log[i] && next[j] == log[j]);
        }
    }
    assert forall|i: int| 0 <= i < next.len() implies best <= #[trigger] next[i].best_energy
        <= start by {
        if i < log.len() {
            assert(next[i] == log[i]);
        }
    }
    assert forall|i: int| 0 <= i < next.len() implies #[trigger] next[i].best_energy
        <= next[i].current_energy by {
        if i < log.len() {
            assert(next[i] == log[i]);
        }
    }
}

} // verus!
