//! The Metropolis acceptance rule, decided on integers.
use vstd::prelude::*;

use crate::random::RandomSource;

verus! {

/// 2^64: a draw `u` stands for the number `u / 2^64` in `[0, 1)`.
pub const TWO_POW_64: u128 = 0x1_0000_0000_0000_0000;

/// Whether the draw `u`, read as `u / 2^64`, lies below `num / den`.
pub fn draw_below(u: u64, num: u64, den: u64) -> (r: bool)
    ensures
        r == (u * den < num * TWO_POW_64),
{
    assert(u * den < TWO_POW_64 * TWO_POW_64) by (nonlinear_arith)
        requires u < TWO_POW_64, den < TWO_POW_64;
    assert(num * TWO_POW_64 < TWO_POW_64 * TWO_POW_64) by (nonlinear_arith)
        requires num < TWO_POW_64;
    (u as u128) * (den as u128) < (num as u128) * TWO_POW_64
}

/// Draw `i` of a coin's draws `s` continues its chain: the first falls below
/// `num / den`, each later one below the draw before it.
pub open spec fn chain_link(num: u64, den: u64, s: Seq<u64>, i: int) -> bool {
    if i == 0 {
        s[0] * den < num * TWO_POW_64
    } else {
        s[i] < s[i - 1]
    }
}

/// `s` are all the draws of one coin for `num / den`, and it came up `r`:
/// every draw but the last continues the chain, the last breaks it, and the
/// coin is `true` when the chain is of even length.
pub open spec fn coin_with(num: u64, den: u64, s: Seq<u64>, r: bool) -> bool {
    &&& s.len() >= 1
    &&& forall|i: int| 0 <= i < s.len() - 1 ==> #[trigger] chain_link(num, den, s, i)
    &&& !chain_link(num, den, s, s.len() - 1)
    &&& r == ((s.len() - 1) % 2 == 0)
}

/// The Metropolis test on a rise `delta` at a positive `temperature`
/// decided `r` on the draws `coins`, one sequence per coin: with
/// `whole = delta / temperature` and `rest = delta % temperature`, up to
/// `whole` coins for `exp(-1)` come up `true` one after another; the first
/// that falls `false` rejects; after `whole` of them one coin for
/// `exp(-rest / temperature)` decides.
pub open spec fn accepts_with(delta: int, temperature: int, coins: Seq<Seq<u64>>, r: bool) -> bool {
    let whole = delta / temperature;
    let rest = delta % temperature;
    &&& 1 <= coins.len() <= whole + 1
    &&& forall|i: int| 0 <= i < coins.len() - 1 ==> #[trigger] coin_with(1, 1, coins[i], true)
    &&& if coins.len() - 1 < whole {
        coin_with(1, 1, coins.last(), false) && !r
    } else {
        coin_with(rest as u64, temperature as u64, coins.last(), r)
    }
}

/// The coin for `num / den` on the given draws, read from the front: the
/// coin and the number of draws it took, or `None` when every draw continues
/// the chain, so that more would be needed.
pub fn coin_from_draws(num: u64, den: u64, draws: &[u64]) -> (r: Option<(bool, usize)>)
    ensures
        r matches Some((coin, used)) ==> used <= draws@.len() && coin_with(
            num,
            den,
            draws@.take(used as int),
            coin,
        ),
        r is None ==> forall|i: int| 0 <= i < draws@.len() ==> #[trigger] chain_link(num, den, draws@, i),
{
    let mut i: usize = 0;
    while i < draws.len()
        invariant
            i <= draws@.len(),
            forall|j: int| 0 <= j < i ==> #[trigger] chain_link(num, den, draws@, j),
        decreases draws@.len() - i,
    {
        let link = if i == 0 {
            draw_below(draws[0], num, den)
        } else {
            draws[i] < draws[i - 1]
        };
        if !link {
            let ghost s = draws@.take(i as int + 1);
            proof {
                assert forall|j: int| 0 <= j < s.len() - 1 implies #[trigger] chain_link(num, den, s, j) by {
                    assert(chain_link(num, den, draws@, j));
                    assert(s[j] == draws@[j]);
                    if j > 0 {
                        assert(s[j - 1] == draws@[j - 1]);
                    }
                }
                assert(s[i as int] == draws@[i as int]);
                if i > 0 {
                    assert(s[i - 1] == draws@[i - 1]);
                }
            }
            return Some((i % 2 == 0, i + 1));
        }
        i = i + 1;
    }
    None
}

/// Where the coin's chain stood before the last draw: the draw before it,
/// or above every draw while there is only one.
pub open spec fn chain_bound(s: Seq<u64>) -> int {
    if s.len() >= 2 {
        s[s.len() - 2] as int
    } else {
        TWO_POW_64 as int
    }
}

/// All draws `s` of a sequence of coins, one after another.
pub open spec fn concat(coins: Seq<Seq<u64>>) -> Seq<u64>
    decreases coins.len(),
{
    if coins.len() == 0 {
        Seq::empty()
    } else {
        concat(coins.drop_last()) + coins.last()
    }
}

/// A coin that comes up `true` with probability `exp(-num / den)`, for
/// `num / den` in `[0, 1]` (von Neumann's method): draws are taken one at a
/// time until `coin_from_draws` decides on them. Returns the coin and the
/// draws it took, which are what the record of `rng` gained.
fn exp_neg_fraction_coin(rng: &mut RandomSource, num: u64, den: u64) -> (r: (bool, Ghost<Seq<u64>>))
    requires
        0 < den,
        num <= den,
    ensures
        coin_with(num, den, r.1@, r.0),
        final(rng).drawn() == old(rng).drawn() + r.1@,
{
    let mut drawn: Vec<u64> = Vec::new();
    let first = rng.next_u64();
    drawn.push(first);
    loop
        invariant
            0 < den,
            drawn@.len() >= 1,
            rng.drawn() == old(rng).drawn() + drawn@,
            forall|i: int| 0 <= i < drawn@.len() - 1 ==> #[trigger] chain_link(num, den, drawn@, i),
        decreases chain_bound(drawn@),
    {
        match coin_from_draws(num, den, drawn.as_slice()) {
            Some((coin, used)) => {
                let ghost s = drawn@;
                proof {
                    if (used as int) < s.len() {
                        let k = used as int - 1;
                        let t = s.take(used as int);
                        assert(chain_link(num, den, s, k));
                        assert(t[k] == s[k]);
                        if k > 0 {
                            assert(t[k - 1] == s[k - 1]);
                        }
                        assert(chain_link(num, den, t, k));
                    }
                    assert(s.take(used as int) =~= s);
                }
                return (coin, Ghost(drawn@));
            },
            None => {
                let ghost before = drawn@;
                proof {
                    assert(chain_link(num, den, before, before.len() - 1));
                }
                let u = rng.next_u64();
                drawn.push(u);
                proof {
                    assert(drawn@ =~= before.push(u));
                    assert(rng.drawn() =~= old(rng).drawn() + drawn@);
                    assert forall|i: int| 0 <= i < drawn@.len() - 1 implies #[trigger] chain_link(
                        num,
                        den,
                        drawn@,
                        i,
                    ) by {
                        assert(chain_link(num, den, before, i));
                        assert(drawn@[i] == before[i]);
                        if i > 0 {
                            assert(drawn@[i - 1] == before[i - 1]);
                        }
                    }
                }
            },
        }
    }
}

/// The Metropolis test on an energy change `delta` at `temperature`: a
/// change that does not raise the energy is always accepted; a rise is
/// accepted with probability `exp(-delta / temperature)`, and never at
/// temperature zero. For a rise at a positive temperature the decision is
/// `accepts_with` on the draws taken, which are returned beside it, one
/// sequence per coin, and are exactly what the record of `rng` gained.
///
/// `exp(-delta / t)` is split as `exp(-1)^(delta / t) * exp(-(delta % t) / t)`,
/// one coin per factor; the first coin that falls `false` rejects.
pub fn metropolis_accepts(rng: &mut RandomSource, delta: i128, temperature: u64) -> (r: (
    bool,
    Ghost<Seq<Seq<u64>>>,
))
    ensures
        final(rng).drawn() == old(rng).drawn() + concat(r.1@),
        delta <= 0 ==> r.0 && r.1@.len() == 0,
        delta > 0 && temperature == 0 ==> !r.0 && r.1@.len() == 0,
        delta > 0 && temperature > 0 ==> accepts_with(delta as int, temperature as int, r.1@, r.0),
{
    if delta <= 0 {
        assert(old(rng).drawn() + concat(Seq::<Seq<u64>>::empty()) =~= old(rng).drawn());
        return (true, Ghost(Seq::empty()));
    }
    if temperature == 0 {
        assert(old(rng).drawn() + concat(Seq::<Seq<u64>>::empty()) =~= old(rng).drawn());
        return (false, Ghost(Seq::empty()));
    }
    let excess = delta as u128;
    let t = temperature as u128;
    let whole = excess / t;
    let rest = (excess % t) as u64;
    let ghost mut coins: Seq<Seq<u64>> = Seq::empty();
    assert(old(rng).drawn() + concat(coins) =~= old(rng).drawn());
    let mut i: u128 = 0;
    while i < whole
        invariant
            i <= whole,
            delta > 0,
            temperature > 0,
            whole == delta as int / temperature as int,
            coins.len() == i,
            rng.drawn() == old(rng).drawn() + concat(coins),
            forall|j: int| 0 <= j < coins.len() ==> #[trigger] coin_with(1, 1, coins[j], true),
        decreases whole - i,
    {
        let (coin, Ghost(drawn)) = exp_neg_fraction_coin(rng, 1, 1);
        let ghost before = coins;
        proof {
            coins = coins.push(drawn);
            assert(coins.drop_last() =~= before);
            assert(rng.drawn() =~= old(rng).drawn() + concat(coins));
            assert forall|j: int| 0 <= j < before.len() implies #[trigger] coin_with(1, 1, coins[j], true) by {
                assert(coins[j] == before[j]);
            }
        }
        if !coin {
            return (false, Ghost(coins));
        }
        i = i + 1;
    }
    let (coin, Ghost(drawn)) = exp_neg_fraction_coin(rng, rest, temperature);
    let ghost before = coins;
    proof {
        coins = coins.push(drawn);
        assert(coins.drop_last() =~= before);
        assert(rng.drawn() =~= old(rng).drawn() + concat(coins));
        assert forall|j: int| 0 <= j < before.len() implies #[trigger] coin_with(1, 1, coins[j], true) by {
            assert(coins[j] == before[j]);
        }
    }
    (coin, Ghost(coins))
}

} // verus!
