//! Checks of a state's fast paths against the plain ones, for the test suite
//! of whoever implements a state.
use vstd::prelude::*;

use crate::random::RandomSource;
use crate::{AnnealingState, AnnealingStateBack, AnnealingStatePeeking, EnergyMeasurable, Transition};

verus! {

/// Two energies that should have agreed and did not.
#[derive(Debug, Clone, Copy, PartialEq, Eq, Structural)]
pub struct Mismatch {
    /// The energy measured on the state itself.
    pub expected: i64,
    /// The energy the fast path gave.
    pub actual: i64,
}

/// What `agree` returns.
pub open spec fn agreement(expected: i64, actual: i64) -> Result<(), Mismatch> {
    if expected == actual {
        Ok(())
    } else {
        Err(Mismatch { expected, actual })
    }
}

/// `Ok` when the two energies agree, else the mismatch between them.
pub fn agree(expected: i64, actual: i64) -> (r: Result<(), Mismatch>)
    ensures
        r == agreement(expected, actual),
{
    if expected == actual {
        Ok(())
    } else {
        Err(Mismatch { expected, actual })
    }
}

/// The state `op` leaves: the moved state where it applies, else the state
/// as it was.
pub open spec fn moved_or_kept<S: AnnealingState>(ctx: S::Context, s: S, op: S::Transition) -> S {
    if s.applies(&ctx, &op) {
        s.moved_by(&ctx, &op)
    } else {
        s
    }
}

/// The state that the moves `ops`, one after another, leave of `s`.
pub open spec fn after_moves<S: AnnealingState>(ctx: S::Context, s: S, ops: Seq<S::Transition>) -> S
    decreases ops.len(),
{
    if ops.len() == 0 {
        s
    } else {
        moved_or_kept(ctx, after_moves(ctx, s, ops.drop_last()), ops.last())
    }
}

/// One check of a peeking state on `transition`: measures the energy, peeks
/// the energy after the move, and when the move applies, applies it and
/// compares the peeked energy with the one measured after it. A state that
/// keeps the contract of `AnnealingStatePeeking` passes, and is left moved;
/// the check is there for states whose contract nobody proved.
pub fn check_peek_step<S: AnnealingStatePeeking>(
    context: &S::Context,
    state: &mut S,
    transition: &S::Transition,
) -> (r: Result<(), Mismatch>)
    ensures
        r == Ok::<(), Mismatch>(()),
        *final(state) == moved_or_kept(*context, *old(state), *transition),
{
    let current_energy = state.energy(context);
    match state.peek_energy(context, transition, current_energy) {
        None => Ok(()),
        Some(new_energy) => {
            let _applied = state.apply(context, transition);
            let new_energy_ref = state.energy(context);
            agree(new_energy_ref, new_energy)
        },
    }
}

/// One check of a restorable state on `transition`: measures the energy,
/// applies the move with a restore token, and when it applies, measures,
/// goes back and compares the energy with the one before the move; then
/// applies the move again and compares the energy with the one after the
/// first application. A state that keeps the contract of
/// `AnnealingStateBack` passes, and is left moved; the check is there for
/// states whose contract nobody proved.
pub fn check_back_step<S: AnnealingStateBack>(
    context: &S::Context,
    state: &mut S,
    transition: &S::Transition,
) -> (r: Result<(), Mismatch>)
    ensures
        r == Ok::<(), Mismatch>(()),
        *final(state) == moved_or_kept(*context, *old(state), *transition),
{
    let current_energy_ref = state.energy(context);
    match state.apply_with_restore(context, transition) {
        None => Ok(()),
        Some(restore) => {
            let next_energy = state.energy(context);
            state.back(context, &restore);
            let current_energy = state.energy(context);
            let checked = agree(current_energy_ref, current_energy);
            if checked.is_err() {
                return checked;
            }
            let _applied = state.apply(context, transition);
            let next_energy_ref = state.energy(context);
            agree(next_energy_ref, next_energy)
        },
    }
}

/// Draws `check_num` moves, one after another, on `state`, and checks each
/// with `check_peek_step`; the first disagreement is returned, and `Ok` when
/// there is none. A state that keeps its contract passes, and is left
/// `check_num` moves on.
pub fn run_peeking_and_check<S: AnnealingStatePeeking>(
    rng: &mut RandomSource,
    context: &S::Context,
    state: &mut S,
    check_num: usize,
) -> (r: Result<(), Mismatch>)
    ensures
        r == Ok::<(), Mismatch>(()),
        exists|ops: Seq<S::Transition>|
            ops.len() == check_num && #[trigger] after_moves(*context, *old(state), ops) == *final(state),
{
    let ghost mut ops: Seq<S::Transition> = Seq::empty();
    let mut i: usize = 0;
    while i < check_num
        invariant
            i <= check_num,
            ops.len() == i,
            *state == after_moves(*context, *old(state), ops),
        decreases check_num - i,
    {
        let transition = S::Transition::propose(rng, context, state);
        let ghost before = *state;
        let checked = check_peek_step(context, state, &transition);
        proof {
            let previous = ops;
            ops = ops.push(transition);
            assert(ops.drop_last() =~= previous);
        }
        if checked.is_err() {
            return checked;
        }
        i = i + 1;
    }
    assert(after_moves(*context, *old(state), ops) == *state);
    Ok(())
}

/// Draws `check_num` moves, one after another, on `state`, and checks each
/// with `check_back_step`; the first disagreement is returned, and `Ok` when
/// there is none. A state that keeps its contract passes, and is left
/// `check_num` moves on.
pub fn run_back_and_check<S: AnnealingStateBack>(
    rng: &mut RandomSource,
    context: &S::Context,
    state: &mut S,
    check_num: usize,
) -> (r: Result<(), Mismatch>)
    ensures
        r == Ok::<(), Mismatch>(()),
        exists|ops: Seq<S::Transition>|
            ops.len() == check_num && #[trigger] after_moves(*context, *old(state), ops) == *final(state),
{
    let ghost mut ops: Seq<S::Transition> = Seq::empty();
    let mut i: usize = 0;
    while i < check_num
        invariant
            i <= check_num,
            ops.len() == i,
            *state == after_moves(*context, *old(state), ops),
        decreases check_num - i,
    {
        let transition = S::Transition::propose(rng, context, state);
        let ghost before = *state;
        let checked = check_back_step(context, state, &transition);
        proof {
            let previous = ops;
            ops = ops.push(transition);
            assert(ops.drop_last() =~= previous);
        }
        if checked.is_err() {
            return checked;
        }
        i = i + 1;
    }
    assert(after_moves(*context, *old(state), ops) == *state);
    Ok(())
}

} // verus!
