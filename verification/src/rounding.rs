//! Round-to-nearest division for the fixed-point percentage arithmetic.
//!
//! Every percentage the library reports is an exact rational `n / d`
//! scaled into fixed point; this module rounds such a quotient to the
//! nearest integer, ties to even.

use vstd::arithmetic::div_mod::{
    lemma_div_is_ordered, lemma_div_multiples_vanish, lemma_div_pos_is_pos,
    lemma_fundamental_div_mod, lemma_mod_division_less_than_divisor,
};
use vstd::arithmetic::mul::{lemma_mul_increases, lemma_mul_is_commutative};
use vstd::prelude::*;

verus! {

/// `n / d` rounded to the nearest integer, ties to even.
pub open spec fn div_round_half_even(n: int, d: int) -> int
    recommends
        0 <= n,
        1 <= d,
{
    let q = n / d;
    let r = n % d;
    if 2 * r < d {
        q
    } else if 2 * r > d {
        q + 1
    } else if q % 2 == 0 {
        q
    } else {
        q + 1
    }
}

/// The rounded quotient never exceeds the argument.
pub proof fn lemma_div_round_le_self(n: int, d: int)
    requires
        0 <= n,
        1 <= d,
    ensures
        0 <= div_round_half_even(n, d) <= n,
{
    lemma_fundamental_div_mod(n, d);
    lemma_div_pos_is_pos(n, d);
    lemma_mod_division_less_than_divisor(n, d);
    let q = n / d;
    let r = n % d;
    if q > 0 {
        lemma_mul_increases(d, q);
    }
    if 2 * r >= d {
        assert(r >= 1);
    }
}

/// If `n <= b * d`, the rounded quotient is at most `b`.
pub proof fn lemma_div_round_le_bound(n: int, d: int, b: int)
    requires
        0 <= n,
        1 <= d,
        0 <= b,
        n <= b * d,
    ensures
        div_round_half_even(n, d) <= b,
{
    lemma_div_is_ordered(n, b * d, d);
    lemma_mul_is_commutative(b, d);
    lemma_div_multiples_vanish(b, d);
    assert(n / d <= b);
    if div_round_half_even(n, d) == n / d + 1 {
        lemma_fundamental_div_mod(n, d);
        lemma_mod_division_less_than_divisor(n, d);
        assert(n % d >= 1);
        if n / d == b {
            assert(n == d * b + n % d);
            assert(false);
        }
    }
}

/// Executable form of [`div_round_half_even`].
pub fn rounded_div_u128(n: u128, d: u128) -> (q: u128)
    requires
        1 <= d,
    ensures
        q == div_round_half_even(n as int, d as int),
        q <= n,
{
    proof {
        lemma_div_round_le_self(n as int, d as int);
    }
    let quot = n / d;
    let rem = n % d;
    if rem < d - rem {
        quot
    } else if rem > d - rem {
        quot + 1
    } else if quot % 2 == 0 {
        quot
    } else {
        quot + 1
    }
}

} // verus!
