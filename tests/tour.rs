use rand::rngs::StdRng;
use rusty_simanneal::random::RandomSource;
use rand::{Rng, SeedableRng};
use rusty_simanneal::schedule::LinearStepSchedule;
use rusty_simanneal::test_implementer::{
    agree, check_back_step, check_peek_step, run_back_and_check, run_peeking_and_check, Mismatch,
};
use rusty_simanneal::{
    Annealer, AnnealingState, AnnealingStateBack, AnnealingStatePeeking, EnergyMeasurable,
    Transition,
};

/// Points of the plane, in whole units.
#[derive(Debug, Clone)]
struct Points(Vec<(i64, i64)>);

/// A closed tour: the order in which the points are visited.
#[derive(Debug, Clone, PartialEq)]
struct Tour(Vec<usize>);

#[derive(Debug, Clone, Copy)]
struct Swap(usize, usize);

/// Distance in thousandths of a unit, rounded.
fn distance(p: (i64, i64), q: (i64, i64)) -> i64 {
    let dx = (p.0 - q.0) as f64;
    let dy = (p.1 - q.1) as f64;
    ((dx * dx + dy * dy).sqrt() * 1000.0).round() as i64
}

fn length(points: &Points, order: &[usize]) -> i64 {
    let n = order.len();
    (0..n)
        .map(|i| distance(points.0[order[i]], points.0[order[(i + 1) % n]]))
        .sum()
}

impl Transition for Swap {
    type Context = Points;
    type State = Tour;

    fn propose(rng: &mut RandomSource, _ctx: &Points, state: &Tour) -> Self {
        let n = state.0.len();
        Swap(rng.rng.gen_range(0..n), rng.rng.gen_range(0..n))
    }
}

impl EnergyMeasurable for Tour {
    type Context = Points;

    fn energy(&self, ctx: &Points) -> i64 {
        length(ctx, &self.0)
    }
}

impl AnnealingState for Tour {
    type Transition = Swap;

    fn apply(&mut self, _ctx: &Points, op: &Swap) -> Option<()> {
        if op.0 == op.1 || op.0 >= self.0.len() || op.1 >= self.0.len() {
            return None;
        }
        self.0.swap(op.0, op.1);
        Some(())
    }
}

impl AnnealingStatePeeking for Tour {
    fn peek_energy(&self, ctx: &Points, op: &Swap, _current_energy: i64) -> Option<i64> {
        let mut moved = self.clone();
        moved.apply(ctx, op)?;
        Some(moved.energy(ctx))
    }
}

impl AnnealingStateBack for Tour {
    type Restore = Swap;

    fn apply_with_restore(&mut self, ctx: &Points, op: &Swap) -> Option<Swap> {
        self.apply(ctx, op)?;
        Some(*op)
    }

    fn back(&mut self, _ctx: &Points, restore: &Swap) {
        self.0.swap(restore.0, restore.1);
    }
}

fn points() -> Points {
    Points(vec![
        (0, 0),
        (10, 10),
        (0, 10),
        (10, 0),
        (5, 12),
        (12, 5),
        (-3, 4),
        (4, -3),
        (7, 7),
    ])
}

fn identity(n: usize) -> Tour {
    Tour((0..n).collect())
}

#[test]
fn tour_never_longer_than_identity() {
    let ctx = points();
    let n = ctx.0.len();
    let identity_length = length(&ctx, &identity(n).0);
    let mut annealer = Annealer::new(identity(n), ctx, LinearStepSchedule::new(20_000, 10, 5000));
    let best = annealer.anneal::<true>(&mut RandomSource::new(StdRng::seed_from_u64(2024)));
    let best_length = best.energy(&annealer.ctx);
    assert!(best_length <= identity_length);
    assert!(best_length < identity_length);
    let mut sorted = best.0.clone();
    sorted.sort();
    assert_eq!(sorted, identity(n).0);
    assert_eq!(annealer.metrics.len(), 5000);
}

#[test]
fn tour_with_restore_and_peek() {
    let ctx = points();
    let n = ctx.0.len();
    let identity_length = length(&ctx, &identity(n).0);
    let mut by_back =
        Annealer::new(identity(n), ctx.clone(), LinearStepSchedule::new(20_000, 10, 3000));
    let best = by_back.anneal_back::<false>(&mut RandomSource::new(StdRng::seed_from_u64(5)));
    assert!(best.energy(&by_back.ctx) < identity_length);
    let mut by_peek = Annealer::new(identity(n), ctx, LinearStepSchedule::new(20_000, 10, 3000));
    let best = by_peek.anneal_peek::<true>(&mut RandomSource::new(StdRng::seed_from_u64(6)));
    assert!(best.energy(&by_peek.ctx) < identity_length);
    assert_eq!(by_peek.metrics.len(), 3000);
}

#[test]
fn inapplicable_moves_still_use_up_steps() {
    let ctx = Points(vec![(0, 0)]);
    let mut annealer = Annealer::new(Tour(vec![0]), ctx, LinearStepSchedule::new(100, 1, 50));
    let best = annealer.anneal::<true>(&mut RandomSource::new(StdRng::seed_from_u64(1)));
    assert_eq!(best, Tour(vec![0]));
    assert_eq!(annealer.metrics.len(), 50);
    for m in annealer.metrics.iter() {
        assert!(!m.accept);
        assert_eq!(m.delta, 0);
    }
}

#[test]
fn zero_steps_returns_the_start() {
    let ctx = points();
    let n = ctx.0.len();
    let mut annealer = Annealer::new(identity(n), ctx, LinearStepSchedule::new(100, 1, 0));
    let best = annealer.anneal::<true>(&mut RandomSource::new(StdRng::seed_from_u64(1)));
    assert_eq!(best, identity(n));
    assert!(annealer.metrics.is_empty());
}

#[test]
fn tour_fast_paths_agree() {
    let ctx = points();
    let mut tour = identity(ctx.0.len());
    assert!(run_peeking_and_check(&mut RandomSource::new(StdRng::seed_from_u64(3)), &ctx, &mut tour, 500).is_ok());
    assert!(run_back_and_check(&mut RandomSource::new(StdRng::seed_from_u64(4)), &ctx, &mut tour, 500).is_ok());
}

/// A tour whose peek forgets the closing edge, and whose undo does nothing:
/// it breaks the contracts of its traits, which is what the checks catch.
#[derive(Debug, Clone)]
struct Careless(Vec<usize>);

impl Transition for CarelessSwap {
    type Context = Points;
    type State = Careless;

    fn propose(_rng: &mut RandomSource, _ctx: &Points, _state: &Careless) -> Self {
        CarelessSwap(0, 1)
    }
}

#[derive(Debug, Clone, Copy)]
struct CarelessSwap(usize, usize);

impl EnergyMeasurable for Careless {
    type Context = Points;

    fn energy(&self, ctx: &Points) -> i64 {
        length(ctx, &self.0)
    }
}

impl AnnealingState for Careless {
    type Transition = CarelessSwap;

    fn apply(&mut self, _ctx: &Points, op: &CarelessSwap) -> Option<()> {
        self.0.swap(op.0, op.1);
        Some(())
    }
}

impl AnnealingStatePeeking for Careless {
    fn peek_energy(&self, ctx: &Points, op: &CarelessSwap, _current: i64) -> Option<i64> {
        let mut moved = self.0.clone();
        moved.swap(op.0, op.1);
        let open: i64 = moved.windows(2).map(|w| distance(ctx.0[w[0]], ctx.0[w[1]])).sum();
        Some(open)
    }
}

impl AnnealingStateBack for Careless {
    type Restore = ();

    fn apply_with_restore(&mut self, ctx: &Points, op: &CarelessSwap) -> Option<()> {
        self.apply(ctx, op)
    }

    fn back(&mut self, _ctx: &Points, _restore: &()) {}
}

#[test]
fn broken_fast_paths_are_reported() {
    let ctx = Points(vec![(0, 0), (3, 0), (3, 4)]);
    let mut state = Careless(vec![0, 1, 2]);
    let r = run_peeking_and_check(&mut RandomSource::new(StdRng::seed_from_u64(1)), &ctx, &mut state, 3);
    // After the swap the tour is 1, 0, 2: the open path is 3 + 5 = 8 units,
    // the closed tour adds the 4 units from 2 back to 1.
    assert_eq!(
        r,
        Err(Mismatch {
            expected: 12000,
            actual: 8000
        })
    );
    let mut state = Careless(vec![0, 1, 2, 0]);
    let ctx = Points(vec![(0, 0), (3, 0), (3, 4)]);
    let before = state.energy(&ctx);
    let r = run_back_and_check(&mut RandomSource::new(StdRng::seed_from_u64(1)), &ctx, &mut state, 3);
    assert!(r.is_err());
    assert_eq!(r.unwrap_err().expected, before);
}

#[test]
fn zero_checks_pass_and_leave_the_state() {
    let ctx = Points(vec![(0, 0), (3, 0), (3, 4)]);
    let mut state = Careless(vec![0, 1, 2]);
    assert_eq!(run_peeking_and_check(&mut RandomSource::new(StdRng::seed_from_u64(1)), &ctx, &mut state, 0), Ok(()));
    assert_eq!(run_back_and_check(&mut RandomSource::new(StdRng::seed_from_u64(1)), &ctx, &mut state, 0), Ok(()));
    assert_eq!(state.0, vec![0, 1, 2]);
}

#[test]
fn single_checks() {
    let ctx = Points(vec![(0, 0), (3, 0), (3, 4)]);
    let mut careless = Careless(vec![0, 1, 2]);
    assert_eq!(
        check_peek_step(&ctx, &mut careless, &CarelessSwap(0, 1)),
        Err(Mismatch {
            expected: 12000,
            actual: 8000
        })
    );
    assert_eq!(careless.0, vec![1, 0, 2]);
    let mut tour = Tour(vec![0, 1, 2]);
    assert_eq!(check_peek_step(&ctx, &mut tour, &Swap(0, 2)), Ok(()));
    assert_eq!(tour, Tour(vec![2, 1, 0]));
    assert_eq!(check_peek_step(&ctx, &mut tour, &Swap(1, 1)), Ok(()));
    assert_eq!(tour, Tour(vec![2, 1, 0]));
    assert_eq!(check_back_step(&ctx, &mut tour, &Swap(0, 1)), Ok(()));
    assert_eq!(tour, Tour(vec![1, 2, 0]));
    assert_eq!(agree(3, 3), Ok(()));
    assert_eq!(agree(3, 4), Err(Mismatch { expected: 3, actual: 4 }));
}
