//! The seeded generator every draw of a run comes from.

use vstd::prelude::*;

verus! {

/// The increment that the generator adds to its state before each draw.
pub const PRNG_INCREMENT: u64 = 0x9e3779b97f4a7c15;

/// The state after one draw.
pub open spec fn prng_advance(state: u64) -> u64 {
    state.wrapping_add(PRNG_INCREMENT)
}

/// The value that a draw mixes out of the state it has just advanced to.
pub open spec fn prng_mix(state: u64) -> u64 {
    let a = (state ^ (state >> 30)).wrapping_mul(0xbf58476d1ce4e5b9);
    let b = (a ^ (a >> 27)).wrapping_mul(0x94d049bb133111eb);
    b ^ (b >> 31)
}

/// The value that the next draw from `state` gives.
pub open spec fn prng_draw(state: u64) -> u64 {
    prng_mix(prng_advance(state))
}

/// The number in `[lo, hi]` that the next draw from `state` picks.
pub open spec fn prng_pick(state: u64, lo: u64, hi: u64) -> u64 {
    (lo + prng_draw(state) as int % (hi - lo + 1)) as u64
}

/// Whether the next draw from `state` falls under `permille` in a thousand.
pub open spec fn prng_hit(state: u64, permille: u64) -> bool {
    prng_draw(state) % 1000 < permille
}

/// The state after `n` draws.
pub open spec fn prng_skip(state: u64, n: nat) -> u64
    decreases n,
{
    if n == 0 {
        state
    } else {
        prng_advance(prng_skip(state, (n - 1) as nat))
    }
}

/// Small local PRNG (splitmix64).
pub struct Prng(pub u64);

impl Prng {
    /// Draws the next 64-bit value.
    pub fn next(&mut self) -> (z: u64)
        ensures
            z == prng_draw(old(self).0),
            final(self).0 == prng_advance(old(self).0),
    {
        self.0 = self.0.wrapping_add(PRNG_INCREMENT);
        let mut z: u64 = self.0;
        z = (z ^ (z >> 30)).wrapping_mul(0xbf58476d1ce4e5b9);
        z = (z ^ (z >> 27)).wrapping_mul(0x94d049bb133111eb);
        z ^ (z >> 31)
    }

    /// Draws a number in `[lo, hi]`.
    pub fn range(&mut self, lo: u64, hi: u64) -> (n: u64)
        requires
            lo <= hi,
            hi - lo < u64::MAX,
        ensures
            n == prng_pick(old(self).0, lo, hi),
            lo <= n <= hi,
            final(self).0 == prng_advance(old(self).0),
    {
        lo + self.next() % (hi - lo + 1)
    }

    /// Draws whether an event of probability `permille` in a thousand happens.
    pub fn chance(&mut self, permille: u64) -> (hit: bool)
        ensures
            hit == prng_hit(old(self).0, permille),
            final(self).0 == prng_advance(old(self).0),
    {
        self.next() % 1000 < permille
    }
}

/// Every draw lands inside the range that was asked for.
pub proof fn law_pick_in_range(state: u64, lo: u64, hi: u64)
    requires
        lo <= hi,
        hi - lo < u64::MAX,
    ensures
        lo <= prng_pick(state, lo, hi) <= hi,
{
}

/// A probability of nothing never hits, and one of a full thousand always does.
pub proof fn law_chance_extremes(state: u64, permille: u64)
    ensures
        !prng_hit(state, 0),
        permille >= 1000 ==> prng_hit(state, permille),
{
}

/// Each draw moves the state on by the same step, whatever was drawn.
pub proof fn law_draws_move_on_step_by_step(state: u64, n: nat)
    ensures
        prng_skip(state, 0) == state,
        prng_skip(state, n + 1) == prng_advance(prng_skip(state, n)),
        prng_skip(state, n) as int == (state + n * 0x9e37_79b9_7f4a_7c15)
            % 0x1_0000_0000_0000_0000,
    decreases n,
{
    let w: int = 0x1_0000_0000_0000_0000;
    let step: int = 0x9e37_79b9_7f4a_7c15;
    if n == 0 {
        assert(0 * step == 0);
        vstd::arithmetic::div_mod::lemma_small_mod(state as nat, w as nat);
    } else {
        let m = (n - 1) as nat;
        law_draws_move_on_step_by_step(state, m);
        let before = prng_skip(state, m);
        assert(prng_skip(state, n) as int == (before + step) % w);
        vstd::arithmetic::div_mod::lemma_add_mod_noop(state + m * step, step, w);
        vstd::arithmetic::div_mod::lemma_small_mod(step as nat, w as nat);
        assert(n * step == m * step + step) by (nonlinear_arith)
            requires
                n == m + 1,
        ;
    }
}

/// A pick is the draw, taken around the range: two draws that differ by the
/// size of the range pick the same number.
pub proof fn law_pick_goes_around_the_range(state: u64, lo: u64, hi: u64)
    requires
        lo <= hi,
        hi - lo < u64::MAX,
    ensures
        (prng_draw(state) - (prng_pick(state, lo, hi) - lo)) % (hi - lo + 1) == 0,
{
    let d = prng_draw(state) as int;
    let n = hi - lo + 1;
    vstd::arithmetic::div_mod::lemma_fundamental_div_mod(d, n);
    let q = d / n;
    assert(d - d % n == n * q);
    vstd::arithmetic::div_mod::lemma_mod_multiples_basic(q, n);
    vstd::arithmetic::mul::lemma_mul_is_commutative(n, q);
}

/// A larger probability hits wherever a smaller one does, and one draw in a
/// thousand tells two neighbours apart.
pub proof fn law_chance_grows(state: u64, a: u64, b: u64)
    requires
        a <= b,
    ensures
        prng_hit(state, a) ==> prng_hit(state, b),
        prng_hit(state, b) && !prng_hit(state, a) <==> a <= prng_draw(state) % 1000 < b,
{
}

} // verus!
