use rand::rngs::StdRng;
use rusty_simanneal::random::RandomSource;
use rand::SeedableRng;
use rusty_simanneal::metropolis::{coin_from_draws, draw_below, metropolis_accepts};
use rusty_simanneal::trace::decide_step;

#[test]
fn lower_or_equal_energy_always_accepted() {
    let mut rng = seeded(1);
    for delta in [-1_000_000_000i128, -1, 0] {
        for t in [0u64, 1, 1000] {
            assert!(metropolis_accepts(&mut rng, delta, t).0);
        }
    }
}

#[test]
fn rise_at_zero_temperature_rejected() {
    let mut rng = seeded(2);
    for _ in 0..100 {
        assert!(!metropolis_accepts(&mut rng, 1, 0).0);
    }
}

fn acceptance_rate(delta: i128, t: u64, seed: u64) -> f64 {
    let mut rng = seeded(seed);
    let trials = 20_000;
    let mut accepted = 0;
    for _ in 0..trials {
        if metropolis_accepts(&mut rng, delta, t).0 {
            accepted += 1;
        }
    }
    accepted as f64 / trials as f64
}

#[test]
fn rise_accepted_with_boltzmann_probability() {
    for (delta, t) in [(1i128, 2u64), (10, 10), (5, 2), (3, 1000)] {
        let expected = (-(delta as f64) / t as f64).exp();
        let rate = acceptance_rate(delta, t, 17);
        assert!((rate - expected).abs() < 0.02, "{} {} {}", delta, t, rate);
    }
}

#[test]
fn huge_rise_rejected() {
    let mut rng = seeded(3);
    for _ in 0..100 {
        assert!(!metropolis_accepts(&mut rng, i64::MAX as i128 - (i64::MIN as i128), 1).0);
    }
}

#[test]
fn draw_below_compares_with_the_fraction() {
    // 2^63 stands for one half.
    assert!(!draw_below(1 << 63, 1, 2));
    assert!(draw_below((1 << 63) - 1, 1, 2));
    assert!(!draw_below(0, 0, 5));
    assert!(draw_below(u64::MAX, 7, 7));
    assert!(draw_below(0, 1, u64::MAX));
}

#[test]
fn step_decision() {
    assert!(decide_step(10, 5, false));
    assert!(decide_step(10, 10, false));
    assert!(!decide_step(10, 11, false));
    assert!(decide_step(10, 11, true));
}

#[test]
fn coin_on_given_draws() {
    // One half against a first draw of one half: the chain is empty.
    assert_eq!(coin_from_draws(1, 2, &[1 << 63]), Some((true, 1)));
    // A chain of one, broken by a larger draw.
    assert_eq!(coin_from_draws(1, 2, &[0, 5, 1]), Some((false, 2)));
    // A chain of three, then a break.
    assert_eq!(coin_from_draws(1, 1, &[3, 2, 1, 7]), Some((false, 4)));
    assert_eq!(coin_from_draws(1, 1, &[3, 2, 1, 1]), Some((false, 4)));
    assert_eq!(coin_from_draws(1, 1, &[9, 2, 3]), Some((true, 3)));
    // Every draw continues the chain.
    assert_eq!(coin_from_draws(1, 1, &[3, 2, 1]), None);
    assert_eq!(coin_from_draws(0, 1, &[]), None);
    // Zero never lets a draw fall below it.
    assert_eq!(coin_from_draws(0, 1, &[0]), Some((true, 1)));
}

fn seeded(seed: u64) -> RandomSource {
    RandomSource::new(StdRng::seed_from_u64(seed))
}
