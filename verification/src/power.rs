//! Powers of a `u32`, and the facts about powers and divisibility that the
//! schedule rests on.

use vstd::arithmetic::div_mod::{
    lemma_fundamental_div_mod, lemma_fundamental_div_mod_converse, lemma_mod_multiples_basic,
};
use vstd::arithmetic::mul::{lemma_mul_is_associative, lemma_mul_is_commutative};
use vstd::arithmetic::power::{
    lemma0_pow, lemma1_pow, lemma_pow0, lemma_pow1, lemma_pow_adds, lemma_pow_increases,
    lemma_pow_positive, pow,
};
use vstd::prelude::*;

verus! {

/// Raising the exponent by one multiplies the power by the base.
pub proof fn lemma_pow_next(base: int, exp: nat)
    ensures
        pow(base, exp + 1) == pow(base, exp) * base,
{
    lemma_pow_adds(base, exp, 1);
    lemma_pow1(base);
}

/// Divisibility is transitive: where `a` divides `b` and `b` divides `c`, `a`
/// divides `c`.
pub proof fn lemma_divides_transitive(a: int, b: int, c: int)
    requires
        a > 0,
        b > 0,
        b % a == 0,
        c % b == 0,
    ensures
        c % a == 0,
{
    lemma_fundamental_div_mod(b, a);
    lemma_fundamental_div_mod(c, b);
    let q = (b / a) * (c / b);
    assert(c == q * a) by {
        lemma_mul_is_associative(a, b / a, c / b);
        lemma_mul_is_commutative(a, q);
    }
    lemma_mod_multiples_basic(q, a);
}

/// A lower power of a positive base divides every higher power of it.
pub proof fn lemma_pow_divides(base: int, low: nat, high: nat)
    requires
        base > 0,
        low <= high,
    ensures
        pow(base, low) > 0,
        pow(base, high) % pow(base, low) == 0,
{
    lemma_pow_positive(base, low);
    lemma_pow_adds(base, (high - low) as nat, low);
    lemma_mod_multiples_basic(pow(base, (high - low) as nat), pow(base, low));
}

/// Rounding a positive `x` up to a multiple of `m`: a multiple stays where it
/// is, anything else goes to the multiple above the one that rounding down
/// gives.
pub proof fn lemma_round_up(x: int, m: int)
    requires
        x > 0,
        m > 0,
    ensures
        x % m == 0 ==> ((x - 1) / m + 1) * m == x == (x / m) * m,
        x % m != 0 ==> ((x - 1) / m + 1) * m == (x / m) * m + m,
        x == (x / m) * m + x % m,
        0 <= x % m < m,
        (x / m) * m == 0 <==> x < m,
{
    let q = x / m;
    let r = x % m;
    lemma_fundamental_div_mod(x, m);
    assert(q * m == m * q && (q - 1) * m == q * m - m && (q + 1) * m == q * m + m && 0 * m == 0)
        by (nonlinear_arith);
    assert(q >= 0 && (q * m == 0 <==> q == 0)) by (nonlinear_arith)
        requires
            x == m * q + r,
            0 <= r < m,
            x > 0,
    ;
    if r == 0 {
        lemma_fundamental_div_mod_converse(x - 1, m, q - 1, m - 1);
    } else {
        lemma_fundamental_div_mod_converse(x - 1, m, q, r - 1);
    }
}

/// `base` to the power `exp`, or `None` where that does not fit in a `u32`.
pub fn checked_pow(base: u32, exp: u32) -> (r: Option<u32>)
    ensures
        match r {
            Some(power) => power == pow(base as int, exp as nat),
            None => pow(base as int, exp as nat) > u32::MAX,
        },
{
    if base <= 1 {
        proof {
            lemma_pow0(base as int);
            lemma1_pow(exp as nat);
            if exp > 0 {
                lemma0_pow(exp as nat);
            }
        }
        return Some(if exp == 0 { 1 } else { base });
    }
    let mut power: u32 = 1;
    let mut done: u32 = 0;
    proof {
        lemma_pow0(base as int);
    }
    while done < exp
        invariant
            base > 1,
            done <= exp,
            power == pow(base as int, done as nat),
        decreases exp - done,
    {
        proof {
            lemma_pow_next(base as int, done as nat);
        }
        match power.checked_mul(base) {
            Some(next) => {
                power = next;
                done = done + 1;
            },
            None => {
                proof {
                    lemma_pow_increases(base as nat, (done + 1) as nat, exp as nat);
                }
                return None;
            },
        }
    }
    Some(power)
}

} // verus!
