//! The deterministic random stream: an xorshift128+ generator. One state pair
//! `(a, b)` of 64-bit words, one scramble per draw; every draw is a pure
//! function of the seed, which is what makes whole game runs reproducible.

use vstd::prelude::*;

verus! {

/// The `b` word after one draw: the xorshift128+ scramble of the pair `(a, b)`.
pub open spec fn xs_next_b(a: u64, b: u64) -> u64 {
    let t1 = a ^ (a << 23u64);
    let t2 = t1 ^ (t1 >> 17u64);
    t2 ^ (b ^ (b >> 26u64))
}

/// The value one draw returns: the new `b` word plus the old one, wrapping.
pub open spec fn xs_out(a: u64, b: u64) -> u64 {
    vstd::wrapping::u64_specs::wrapping_add(xs_next_b(a, b), b)
}

/// The state pair after one draw.
pub open spec fn xs_step(s: (u64, u64)) -> (u64, u64) {
    (s.1, xs_next_b(s.0, s.1))
}

/// The state pair after `n` draws.
pub open spec fn xs_iter(s: (u64, u64), n: nat) -> (u64, u64)
    decreases n,
{
    if n == 0 {
        s
    } else {
        xs_step(xs_iter(s, (n - 1) as nat))
    }
}

/// The state a seed starts from, before the warm-up draws.
pub open spec fn xs_seeded(seed: u64) -> (u64, u64) {
    (seed, (seed * 34) as u64)
}

/// The arithmetic `gen_min_max` applies to a raw draw `n`. The result sits in
/// `[min, max]`: almost every draw lands below `max`, but the top few raw
/// values land exactly on it (see `lemma_range_map_bounds`).
pub open spec fn range_map(n: u64, min: u64, max: u64) -> int
    recommends
        min < max,
{
    min + n as int / (u64::MAX as int / (max as int - min as int))
}

pub struct Xorshift128pState {
    a: u64,
    b: u64,
}

impl View for Xorshift128pState {
    type V = (u64, u64);

    closed spec fn view(&self) -> (u64, u64) {
        (self.a, self.b)
    }
}

impl Xorshift128pState {
    /// Seed the stream as `(seed, seed * 34)`, then discard six warm-up draws.
    pub fn new(seed: u64) -> (r: Xorshift128pState)
        requires
            seed <= u64::MAX / 34,
        ensures
            r@ == xs_iter(xs_seeded(seed), 6),
    {
        let b = seed * 34;
        let mut res = Xorshift128pState { a: seed, b };
        let mut i: usize = 0;
        while i < 6
            invariant
                i <= 6,
                res@ == xs_iter(xs_seeded(seed), i as nat),
            decreases 6 - i,
        {
            res.gen();
            i += 1;
        }
        res
    }

    /// One draw: scramble the pair and return the wrapping sum of the two
    /// `b` words, exactly as `xs_step` and `xs_out` state.
    pub fn gen(&mut self) -> (r: u64)
        ensures
            final(self)@ == xs_step(old(self)@),
            r == xs_out(old(self)@.0, old(self)@.1),
    {
        let mut t: u64 = self.a;
        let s: u64 = self.b;
        self.a = s;
        t ^= t << 23u64;
        t ^= t >> 17u64;
        t ^= s ^ (s >> 26u64);
        self.b = t;
        t.wrapping_add(s)
    }

    /// One draw mapped into `min..max` by `range_map`. `min < max` is a
    /// caller invariant, never a runtime check; the second premise keeps the
    /// final addition clear of 64-bit overflow (the result never strays more
    /// than a span past `min`, see the last two clauses).
    pub fn gen_min_max(&mut self, min: u64, max: u64) -> (r: u64)
        requires
            min < max,
            min as int + 2 * (max as int - min as int) <= u64::MAX as int,
        ensures
            final(self)@ == xs_step(old(self)@),
            r == range_map(xs_out(old(self)@.0, old(self)@.1), min, max),
            min <= r,
            (r as int) < min as int + 2 * (max as int - min as int),
    {
        let n = self.gen();
        proof {
            lemma_range_quotient_bound(min, max);
            lemma_range_divisor_pos(min, max);
            vstd::arithmetic::div_mod::lemma_div_is_ordered(
                n as int,
                u64::MAX as int,
                u64::MAX as int / (max as int - min as int),
            );
            vstd::arithmetic::div_mod::lemma_div_pos_is_pos(
                n as int,
                u64::MAX as int / (max as int - min as int),
            );
        }
        n / (u64::MAX / (max - min)) + min
    }
}

/// No draw lands more than one span short of twice the range width:
/// `u64::MAX` divided by its own quotient by the span stays below twice
/// the span.
proof fn lemma_range_quotient_bound(min: u64, max: u64)
    requires
        min < max,
    ensures
        u64::MAX as int / (u64::MAX as int / (max as int - min as int)) < 2 * (max as int
            - min as int),
{
    let m = u64::MAX as int;
    let d = max as int - min as int;
    let q = m / d;
    vstd::arithmetic::div_mod::lemma_div_non_zero(m, d);
    vstd::arithmetic::div_mod::lemma_fundamental_div_mod(m, d);
    vstd::arithmetic::div_mod::lemma_mod_division_less_than_divisor(m, d);
    assert(m < d * q + d);
    assert(d * q + d <= q * (2 * d)) by (nonlinear_arith)
        requires
            q >= 1,
            d >= 1,
    ;
    vstd::arithmetic::div_mod::lemma_multiply_divide_lt(m, q, 2 * d);
}

/// The divisor `gen_min_max` divides by is never zero.
proof fn lemma_range_divisor_pos(min: u64, max: u64)
    requires
        min < max,
    ensures
        u64::MAX as int / (max as int - min as int) >= 1,
{
    vstd::arithmetic::div_mod::lemma_div_non_zero(u64::MAX as int, max as int - min as int);
}

/// Law: every raw draw below `(max - min) * (u64::MAX / (max - min))` lands
/// in `[min, max)`. Draws at or above that bound — at most
/// `u64::MAX % (max - min) + 1` of the 2^64 raw values — land exactly on
/// `max`, so the bound on `n` is the one premise this law needs.
pub proof fn lemma_range_map_bounds(n: u64, min: u64, max: u64)
    requires
        min < max,
        n < (max as int - min as int) * (u64::MAX as int / (max as int - min as int)),
    ensures
        min <= range_map(n, min, max) < max,
{
    lemma_range_divisor_pos(min, max);
    let d = max as int - min as int;
    let q = u64::MAX as int / d;
    vstd::arithmetic::div_mod::lemma_div_pos_is_pos(n as int, q);
    assert(d * q == q * d) by (nonlinear_arith);
    vstd::arithmetic::div_mod::lemma_multiply_divide_lt(n as int, q, d);
}

} // verus!
