//! Modular exponentiation by square-and-multiply.

use vstd::arithmetic::div_mod::{lemma_mul_mod_noop_left, lemma_mul_mod_noop_right, lemma_small_mod};
use vstd::arithmetic::power::{lemma_pow_mod_noop, lemma_pow_multiplies, lemma_square_is_pow2, pow, lemma_pow0, lemma_pow1, lemma_pow_adds};
use vstd::prelude::*;

verus! {

/// `base^exp mod modulus`, over unbounded integers.
pub open spec fn mod_pow(base: int, exp: nat, modulus: int) -> int {
    pow(base, exp) % modulus
}

/// One odd step: folding one factor of `b` into the accumulator keeps the
/// accumulated product unchanged modulo `m`.
proof fn lemma_fold_factor(r: int, b: int, e: nat, m: int)
    requires
        m > 0,
        e > 0,
    ensures
        ((r * b) % m * pow(b, (e - 1) as nat)) % m == (r * pow(b, e)) % m,
{
    lemma_pow1(b);
    lemma_pow_adds(b, 1, (e - 1) as nat);
    lemma_mul_mod_noop_left(r * b, pow(b, (e - 1) as nat), m);
    assert(r * b * pow(b, (e - 1) as nat) == r * (b * pow(b, (e - 1) as nat))) by (nonlinear_arith);
}

/// One squaring step: an even exponent of `b` is half that exponent of
/// `b * b mod m`, modulo `m`.
proof fn lemma_square_base(r: int, b: int, k: nat, m: int)
    requires
        m > 0,
    ensures
        (r * pow((b * b) % m, k)) % m == (r * pow(b, 2 * k)) % m,
{
    lemma_square_is_pow2(b);
    lemma_pow_multiplies(b, 2, k);
    lemma_mul_mod_noop_right(r, pow((b * b) % m, k), m);
    lemma_pow_mod_noop(b * b, k, m);
    lemma_mul_mod_noop_right(r, pow(b * b, k), m);
}

/// Computes `base^exp mod modulus` with 128-bit intermediates, so that the
/// product of two residues never overflows.
pub fn pow_mod(base: u64, exp: u64, modulus: u64) -> (r: u64)
    requires
        modulus > 0,
    ensures
        r as int == mod_pow(base as int, exp as nat, modulus as int),
        r < modulus,
{
    let m: u128 = modulus as u128;
    let mut result: u128 = 1u128 % m;
    let mut b: u128 = (base % modulus) as u128;
    let mut e: u64 = exp;
    proof {
        lemma_pow_mod_noop(base as int, exp as nat, modulus as int);
        lemma_mul_mod_noop_left(1, pow(b as int, e as nat), m as int);
    }
    while e > 0
        invariant
            m == modulus as u128,
            m > 0,
            m <= u64::MAX,
            result < m,
            b < m,
            (result * pow(b as int, e as nat)) % (m as int)
                == mod_pow(base as int, exp as nat, modulus as int),
        decreases e,
    {
        let ghost r0 = result as int;
        let ghost b0 = b as int;
        let ghost e0 = e as nat;
        assert(b * b <= (m - 1) * (m - 1)) by (nonlinear_arith)
            requires b < m;
        assert((m - 1) * (m - 1) < 0x1_0000_0000_0000_0000_0000_0000_0000_0000) by (nonlinear_arith)
            requires m <= u64::MAX;
        if e & 1 == 1 {
            assert(result * b <= (m - 1) * (m - 1)) by (nonlinear_arith)
                requires result < m, b < m;
            result = (result * b) % m;
            proof {
                lemma_fold_factor(r0, b0, e0, m as int);
            }
        }
        let ghost r1 = result as int;
        assert(e & 1 == 1 ==> (e >> 1) * 2 == e - 1) by (bit_vector);
        assert(e & 1 != 1 ==> (e >> 1) * 2 == e) by (bit_vector);
        b = (b * b) % m;
        e = e >> 1;
        proof {
            lemma_square_base(r1, b0, e as nat, m as int);
        }
    }
    proof {
        lemma_pow0(b as int);
        lemma_small_mod(result as nat, m as nat);
    }
    result as u64
}

/// Any base raised to the power zero is one modulo every modulus above one.
pub proof fn lemma_mod_pow_zero_exponent(base: int, modulus: int)
    requires
        modulus > 1,
    ensures
        mod_pow(base, 0, modulus) == 1,
{
    lemma_pow0(base);
    lemma_small_mod(1, modulus as nat);
}

/// Diffie-Hellman agreement: raising `g^a mod p` to `b` gives the same
/// residue as raising `g^b mod p` to `a`, for every pair of exponents.
pub proof fn lemma_dh_agreement(g: int, a: nat, b: nat, p: int)
    requires
        p > 0,
    ensures
        mod_pow(mod_pow(g, a, p), b, p) == mod_pow(mod_pow(g, b, p), a, p),
        mod_pow(mod_pow(g, a, p), b, p) == mod_pow(g, a * b, p),
{
    lemma_pow_mod_noop(pow(g, a), b, p);
    lemma_pow_mod_noop(pow(g, b), a, p);
    lemma_pow_multiplies(g, a, b);
    lemma_pow_multiplies(g, b, a);
    assert(a * b == b * a) by (nonlinear_arith);
}

} // verus!
