//! Progress counters and cooling schedules.
use vstd::prelude::*;

use crate::clock;

verus! {

/// The completed part of a run: `numerator / denominator`. The numerator may
/// pass the denominator once a progress has been advanced past its maximum.
#[derive(Debug, Clone, Copy, PartialEq, Eq, Structural)]
pub struct Fraction {
    pub numerator: u64,
    pub denominator: u64,
}

/// A counter that moves forward as a run goes on.
pub trait Progress: Sized {
    type Maximum;

    /// Consistency of the counter's own fields.
    spec fn wf(&self) -> bool;

    /// How many times `update` has been called since `zero`.
    spec fn steps(&self) -> nat;

    /// Whether `update` can be called without the counter running out of room.
    spec fn can_advance(&self) -> bool;

    fn zero() -> (p: Self)
        ensures
            p.wf(),
            p.steps() == 0,
    ;

    fn update(&mut self)
        requires
            old(self).wf(),
            old(self).can_advance(),
        ensures
            final(self).wf(),
            final(self).steps() == old(self).steps() + 1,
    ;

    /// The completed part of `maximum`.
    fn progress(&self, maximum: Self::Maximum) -> Fraction;
}

/// A progress counted in steps.
#[derive(Debug, Clone, Copy)]
pub struct Step(pub usize);

impl Progress for Step {
    type Maximum = usize;

    open spec fn wf(&self) -> bool {
        true
    }

    open spec fn steps(&self) -> nat {
        self.0 as nat
    }

    open spec fn can_advance(&self) -> bool {
        self.0 < usize::MAX
    }

    fn zero() -> (p: Self)
        ensures
            p.0 == 0,
    {
        Step(0)
    }

    fn update(&mut self)
        ensures
            final(self).0 == old(self).0 + 1,
    {
        self.0 = self.0 + 1;
    }

    fn progress(&self, maximum: usize) -> (f: Fraction)
        ensures
            f == (Fraction { numerator: self.0 as u64, denominator: maximum as u64 }),
    {
        Fraction { numerator: self.0 as u64, denominator: maximum as u64 }
    }
}

/// A progress measured by the wall clock, in nanoseconds since `zero`.
///
/// Each `update` moves the reading at least one nanosecond forward, so that a
/// run bounded in time ends after finitely many steps whatever the clock does.
#[derive(Clone, Copy)]
pub struct Time {
    start: std::time::Instant,
    elapsed: u64,
    advances: Ghost<nat>,
}

impl Time {
    /// The nanoseconds that had passed at the last reading.
    pub closed spec fn elapsed_nanos(&self) -> nat {
        self.elapsed as nat
    }

    /// The nanoseconds that had passed at the last reading.
    pub fn elapsed(&self) -> (r: u64)
        ensures
            r == self.elapsed_nanos(),
    {
        self.elapsed
    }
}

/// The reading that follows `previous` when the clock says `measured`
/// nanoseconds: the larger of the two, but at least one past `previous`, and
/// at most `u64::MAX`.
pub open spec fn next_reading_spec(previous: nat, measured: nat) -> nat {
    let floor = previous + 1;
    let larger = if measured > floor { measured } else { floor };
    if larger > u64::MAX { u64::MAX as nat } else { larger }
}

/// Computes `next_reading_spec` on machine integers.
pub fn next_reading(previous: u64, measured: u128) -> (r: u64)
    requires
        previous < u64::MAX,
    ensures
        r == next_reading_spec(previous as nat, measured as nat),
{
    let floor = previous + 1;
    if measured <= floor as u128 {
        floor
    } else if measured >= u64::MAX as u128 {
        u64::MAX
    } else {
        measured as u64
    }
}

impl Progress for Time {
    type Maximum = u64;

    closed spec fn wf(&self) -> bool {
        self.advances@ <= self.elapsed
    }

    closed spec fn steps(&self) -> nat {
        self.advances@
    }

    closed spec fn can_advance(&self) -> bool {
        self.elapsed < u64::MAX
    }

    fn zero() -> (p: Self)
        ensures
            p.elapsed_nanos() == 0,
    {
        Time { start: clock::now(), elapsed: 0, advances: Ghost(0) }
    }

    /// Takes a reading of the clock, as `next_reading` makes of it.
    fn update(&mut self)
        ensures
            exists|measured: u128|
                final(self).elapsed_nanos() == #[trigger] next_reading_spec(
                    old(self).elapsed_nanos(),
                    measured as nat,
                ),
    {
        let measured = clock::as_nanos(&clock::elapsed(&self.start));
        self.elapsed = next_reading(self.elapsed, measured);
        self.advances = Ghost(self.advances@ + 1);
        assert(self.elapsed_nanos() == next_reading_spec(old(self).elapsed_nanos(), measured as nat));
    }

    fn progress(&self, maximum: u64) -> (f: Fraction)
        ensures
            f == (Fraction { numerator: self.elapsed_nanos() as u64, denominator: maximum }),
    {
        Fraction { numerator: self.elapsed, denominator: maximum }
    }
}

/// Maps a progress to a temperature and decides when a run stops.
pub trait Schedule {
    type Progress: Progress;

    /// Whether a run goes on at `progress`.
    spec fn continues(&self, progress: &Self::Progress) -> bool;

    /// A bound on the number of steps of a run.
    spec fn budget(&self) -> nat;

    /// Whether a run stops exactly once it has made `budget` steps.
    spec fn counts_steps(&self) -> bool;

    /// The completed part of the run at `progress`.
    spec fn fraction_of(&self, progress: &Self::Progress) -> Fraction;

    /// The temperature at `progress`.
    spec fn temperature_of(&self, progress: &Self::Progress) -> u64;

    /// The completed part of the run.
    fn progress_0_1(&self, progress: &Self::Progress) -> (f: Fraction)
        ensures
            f == self.fraction_of(progress),
    ;

    fn should_continue(&self, progress: &Self::Progress) -> (r: bool)
        requires
            progress.wf(),
        ensures
            r == self.continues(progress),
            r ==> progress.steps() < self.budget() && progress.can_advance(),
            self.counts_steps() ==> (r <==> progress.steps() < self.budget()),
    ;

    /// The temperature at `progress`, in units of energy.
    fn temperature(&self, progress: &Self::Progress) -> (t: u64)
        ensures
            t == self.temperature_of(progress),
    ;
}

/// The temperature of a linear schedule after `done` of `total` units:
/// `t_max - (t_max - t_min) * done / total`, rounded down, on a straight line
/// from `t_max` at the start through `t_min` at the end and on past it; held
/// within what a `u64` holds (0 at the least). A schedule of no units is at
/// its end from the start, at `t_min`.
pub open spec fn linear_temperature(t_max: int, t_min: int, done: int, total: int) -> int {
    if total == 0 {
        t_min
    } else {
        let t = (t_max * total - (t_max - t_min) * done) / total;
        if t < 0 {
            0
        } else if t > u64::MAX {
            u64::MAX as int
        } else {
            t
        }
    }
}

/// A linear schedule that cools (`t_min <= t_max`) never warms up: the
/// temperature after more units is at most the temperature after fewer. It
/// starts at `t_max` and reaches `t_min` at the end.
pub proof fn lemma_linear_temperature_non_increasing(
    t_max: nat,
    t_min: nat,
    total: nat,
    earlier: nat,
    later: nat,
)
    requires
        t_min <= t_max <= u64::MAX,
        earlier <= later,
    ensures
        linear_temperature(t_max as int, t_min as int, later as int, total as int)
            <= linear_temperature(t_max as int, t_min as int, earlier as int, total as int),
        total > 0 ==> linear_temperature(t_max as int, t_min as int, 0, total as int) == t_max,
        linear_temperature(t_max as int, t_min as int, total as int, total as int) == t_min,
{
    if total > 0 {
        let n = total as int;
        let e = earlier as int;
        let l = later as int;
        let top = t_max * n - (t_max - t_min) * e;
        let low = t_max * n - (t_max - t_min) * l;
        assert(low <= top) by (nonlinear_arith)
            requires t_min <= t_max, e <= l, top == t_max * n - (t_max - t_min) * e,
                low == t_max * n - (t_max - t_min) * l;
        vstd::arithmetic::div_mod::lemma_div_is_ordered(low, top, n);
        assert(t_max * n - (t_max - t_min) * 0 == t_max * n) by (nonlinear_arith);
        assert(t_max * n - (t_max - t_min) * n == t_min * n) by (nonlinear_arith);
        vstd::arithmetic::div_mod::lemma_div_multiples_vanish(t_max as int, n);
        vstd::arithmetic::div_mod::lemma_div_multiples_vanish(t_min as int, n);
        assert(t_max * n == n * t_max) by (nonlinear_arith);
        assert(t_min * n == n * t_min) by (nonlinear_arith);
    }
}

/// Computes `linear_temperature` on machine integers.
fn linear_temperature_exec(t_max: u64, t_min: u64, done: u64, total: u64) -> (t: u64)
    ensures
        t == linear_temperature(t_max as int, t_min as int, done as int, total as int),
{
    if total == 0 {
        return t_min;
    }
    let n = total as u128;
    let d = done as u128;
    assert(t_max * n <= 0xffff_ffff_ffff_ffff * 0xffff_ffff_ffff_ffff) by (nonlinear_arith)
        requires t_max <= 0xffff_ffff_ffff_ffff, n <= 0xffff_ffff_ffff_ffff;
    let top = (t_max as u128) * n;
    if t_max >= t_min {
        let gap = (t_max - t_min) as u128;
        assert(gap * d <= 0xffff_ffff_ffff_ffff * 0xffff_ffff_ffff_ffff) by (nonlinear_arith)
            requires gap <= 0xffff_ffff_ffff_ffff, d <= 0xffff_ffff_ffff_ffff;
        let fall = gap * d;
        if fall >= top {
            let ghost num = top as int - fall as int;
            assert(num / (n as int) <= 0) by (nonlinear_arith)
                requires num <= 0, n > 0;
            0
        } else {
            let t = (top - fall) / n;
            assert(t <= t_max) by (nonlinear_arith)
                requires t as int == (top as int - fall as int) / (n as int), top == t_max * n, fall >= 0, n > 0,
                    fall < top;
            t as u64
        }
    } else {
        let gap = (t_min - t_max) as u128;
        assert(gap * d <= 0xffff_ffff_ffff_ffff * 0xffff_ffff_ffff_ffff) by (nonlinear_arith)
            requires gap <= 0xffff_ffff_ffff_ffff, d <= 0xffff_ffff_ffff_ffff;
        let rise = gap * d;
        assert((t_max - t_min) * d == -(gap * d)) by (nonlinear_arith)
            requires gap == t_min - t_max;
        if rise > u128::MAX - top {
            let ghost num = top as int + rise as int;
            assert(num / (n as int) > 0xffff_ffff_ffff_ffff) by (nonlinear_arith)
                requires num > 0xffff_ffff_ffff_ffff_ffff_ffff_ffff_ffff, n <= 0xffff_ffff_ffff_ffff, n > 0;
            u64::MAX
        } else {
            let t = (top + rise) / n;
            if t > u64::MAX as u128 {
                u64::MAX
            } else {
                t as u64
            }
        }
    }
}

/// Cooling in a straight line over a fixed number of steps.
pub struct LinearStepSchedule {
    pub t_max: u64,
    pub t_min: u64,
    pub max_steps: usize,
}

impl LinearStepSchedule {
    pub fn new(tmax: u64, tmin: u64, max_steps: usize) -> (s: Self)
        ensures
            s.t_max == tmax,
            s.t_min == tmin,
            s.max_steps == max_steps,
    {
        Self { t_max: tmax, t_min: tmin, max_steps }
    }

    /// The temperature after `steps` steps.
    pub open spec fn temperature_at(&self, steps: int) -> int {
        linear_temperature(self.t_max as int, self.t_min as int, steps, self.max_steps as int)
    }
}

impl Schedule for LinearStepSchedule {
    type Progress = Step;

    open spec fn continues(&self, progress: &Step) -> bool {
        progress.0 < self.max_steps
    }

    open spec fn budget(&self) -> nat {
        self.max_steps as nat
    }

    open spec fn counts_steps(&self) -> bool {
        true
    }

    open spec fn fraction_of(&self, progress: &Step) -> Fraction {
        Fraction { numerator: progress.0 as u64, denominator: self.max_steps as u64 }
    }

    open spec fn temperature_of(&self, progress: &Step) -> u64 {
        self.temperature_at(progress.0 as int) as u64
    }

    fn progress_0_1(&self, progress: &Step) -> (f: Fraction)
        ensures
            f == (Fraction { numerator: progress.0 as u64, denominator: self.max_steps as u64 }),
    {
        progress.progress(self.max_steps)
    }

    fn should_continue(&self, progress: &Step) -> bool {
        progress.0 < self.max_steps
    }

    fn temperature(&self, progress: &Step) -> (t: u64)
        ensures
            t == self.temperature_at(progress.0 as int),
    {
        linear_temperature_exec(self.t_max, self.t_min, progress.0 as u64, self.max_steps as u64)
    }
}

/// A step schedule goes on through exactly `max_steps` advances: the progress
/// reached from `zero` by `advances` calls of `update` is `Step(advances)`, and
/// the run continues there exactly when `advances < max_steps`.
pub proof fn lemma_step_schedule_stops_after_max_steps(s: LinearStepSchedule, advances: usize)
    ensures
        s.continues(&Step(advances)) <==> advances < s.max_steps,
        s.counts_steps(),
        s.budget() == s.max_steps,
        Step(advances).steps() == advances,
{
}

/// Cooling in a straight line over a fixed time, in nanoseconds.
pub struct LinearTimeSchedule {
    pub t_max: u64,
    pub t_min: u64,
    pub max_time_nanos: u64,
}

impl LinearTimeSchedule {
    pub fn new(tmax: u64, tmin: u64, max_time_nanos: u64) -> (s: Self)
        ensures
            s.t_max == tmax,
            s.t_min == tmin,
            s.max_time_nanos == max_time_nanos,
    {
        Self { t_max: tmax, t_min: tmin, max_time_nanos }
    }

    /// The temperature once `nanos` nanoseconds have passed.
    pub open spec fn temperature_at(&self, nanos: int) -> int {
        linear_temperature(self.t_max as int, self.t_min as int, nanos, self.max_time_nanos as int)
    }
}

impl Schedule for LinearTimeSchedule {
    type Progress = Time;

    open spec fn continues(&self, progress: &Time) -> bool {
        progress.elapsed_nanos() < self.max_time_nanos
    }

    open spec fn budget(&self) -> nat {
        self.max_time_nanos as nat
    }

    open spec fn counts_steps(&self) -> bool {
        false
    }

    open spec fn fraction_of(&self, progress: &Time) -> Fraction {
        Fraction { numerator: progress.elapsed_nanos() as u64, denominator: self.max_time_nanos }
    }

    open spec fn temperature_of(&self, progress: &Time) -> u64 {
        self.temperature_at(progress.elapsed_nanos() as int) as u64
    }

    fn progress_0_1(&self, progress: &Time) -> (f: Fraction)
        ensures
            f == (Fraction {
                numerator: progress.elapsed_nanos() as u64,
                denominator: self.max_time_nanos,
            }),
    {
        progress.progress(self.max_time_nanos)
    }

    fn should_continue(&self, progress: &Time) -> bool {
        progress.elapsed < self.max_time_nanos
    }

    fn temperature(&self, progress: &Time) -> (t: u64)
        ensures
            t == self.temperature_at(progress.elapsed_nanos() as int),
    {
        linear_temperature_exec(self.t_max, self.t_min, progress.elapsed, self.max_time_nanos)
    }
}

} // verus!
