//! Facts about powers modulo `p` of an element whose order is known.

use crate::protocol::{divides, has_order, is_prime, mod_exp};
use vstd::arithmetic::div_mod::{
    lemma_fundamental_div_mod, lemma_mod_add_multiples_vanish, lemma_mod_multiples_basic,
    lemma_mul_mod_noop, lemma_mul_mod_noop_right, lemma_small_mod, lemma_sub_mod_noop,
};
use vstd::arithmetic::power::{
    lemma1_pow, lemma_pow_adds, lemma_pow_mod_noop, lemma_pow_multiplies, pow,
};
use vstd::prelude::*;

verus! {

/// A product of two reduced powers of `g` is the reduced power of the sum of
/// the exponents.
pub proof fn lemma_mod_exp_adds(g: nat, a: nat, b: nat, p: nat)
    requires
        p > 0,
    ensures
        (mod_exp(g, a, p) * mod_exp(g, b, p)) % p == mod_exp(g, a + b, p),
{
    let gi = g as int;
    let pi = p as int;
    lemma_pow_adds(gi, a, b);
    lemma_mul_mod_noop(pow(gi, a), pow(gi, b), pi);
}

/// A reduced power of a reduced power of `g` is the reduced power of the
/// product of the exponents.
pub proof fn lemma_mod_exp_multiplies(g: nat, a: nat, b: nat, p: nat)
    requires
        p > 0,
    ensures
        mod_exp(mod_exp(g, a, p), b, p) == mod_exp(g, a * b, p),
{
    let gi = g as int;
    let pi = p as int;
    lemma_pow_mod_noop(pow(gi, a), b, pi);
    lemma_pow_multiplies(gi, a, b);
}

/// Where `g^q` is 1 modulo `p`, so is `g` raised to any multiple of `q`.
pub proof fn lemma_mod_exp_multiple_of_order(g: nat, q: nat, t: nat, p: nat)
    requires
        p > 0,
        mod_exp(g, q, p) == 1,
    ensures
        mod_exp(g, q * t, p) == 1,
{
    lemma_mod_exp_multiplies(g, q, t, p);
    lemma1_pow(t);
    assert(p > 1) by {
        assert(pow(g as int, q) % 1 == 0);
    }
    lemma_small_mod(1, p);
}

/// Where `g^q` is 1 modulo `p`, an exponent may be reduced modulo `q`.
pub proof fn lemma_mod_exp_reduces_exponent(g: nat, q: nat, a: nat, p: nat)
    requires
        p > 0,
        q > 0,
        mod_exp(g, q, p) == 1,
    ensures
        mod_exp(g, a, p) == mod_exp(g, a % q, p),
{
    let t = a / q;
    let r = a % q;
    lemma_fundamental_div_mod(a as int, q as int);
    assert(a == q * t + r);
    lemma_mod_exp_multiple_of_order(g, q, t, p);
    lemma_mod_exp_adds(g, q * t, r, p);
    assert(mod_exp(g, a, p) == (1 * mod_exp(g, r, p)) % p);
    lemma_small_mod(mod_exp(g, r, p), p);
}

/// Where `g^q` is 1 modulo `p`, exponents that are congruent modulo `q` give
/// the same power.
pub proof fn lemma_mod_exp_congruent_exponents(g: nat, q: nat, a: nat, b: nat, p: nat)
    requires
        p > 0,
        q > 0,
        mod_exp(g, q, p) == 1,
        a % q == b % q,
    ensures
        mod_exp(g, a, p) == mod_exp(g, b, p),
{
    lemma_mod_exp_reduces_exponent(g, q, a, p);
    lemma_mod_exp_reduces_exponent(g, q, b, p);
}

/// Where `g` has order `q` modulo `p`, equal powers have exponents that are
/// congruent modulo `q`.
pub proof fn lemma_mod_exp_injective(g: nat, q: nat, a: nat, b: nat, p: nat)
    requires
        p > 0,
        has_order(g, q, p),
        mod_exp(g, a, p) == mod_exp(g, b, p),
    ensures
        a % q == b % q,
{
    let ra = a % q;
    let rb = b % q;
    lemma_mod_exp_reduces_exponent(g, q, a, p);
    lemma_mod_exp_reduces_exponent(g, q, b, p);
    if ra <= rb {
        lemma_equal_powers_within_order(g, q, ra, rb, p);
    } else {
        lemma_equal_powers_within_order(g, q, rb, ra, p);
    }
}

/// Where `g` has order `q` modulo `p`, two exponents below `q` with equal
/// powers are equal.
proof fn lemma_equal_powers_within_order(g: nat, q: nat, lo: nat, hi: nat, p: nat)
    requires
        p > 0,
        has_order(g, q, p),
        lo <= hi < q,
        mod_exp(g, lo, p) == mod_exp(g, hi, p),
    ensures
        lo == hi,
{
    let d = (hi - lo) as nat;
    let rest = (q - lo) as nat;
    // g^lo · g^(q - lo) = g^q = 1, and g^hi · g^(q - lo) = g^(q + d) = g^d.
    lemma_mod_exp_adds(g, lo, rest, p);
    lemma_mod_exp_adds(g, hi, rest, p);
    assert(lo + rest == q);
    assert(hi + rest == q + d);
    assert(mod_exp(g, q + d, p) == 1);
    assert((q + d) % q == d % q) by {
        lemma_mod_add_multiples_vanish(d as int, q as int);
    }
    lemma_mod_exp_congruent_exponents(g, q, q + d, d, p);
    assert(mod_exp(g, d, p) == 1);
}

/// A prime `q` divides no product `a·b` in which it divides neither `a` nor
/// `b`, for `b` below `q`.
proof fn lemma_prime_divides_no_small_product(q: nat, a: int, b: nat)
    requires
        is_prime(q),
        a % (q as int) != 0,
        0 < b < q,
    ensures
        (a * b) % (q as int) != 0,
    decreases b,
{
    let qi = q as int;
    if b == 1 {
        assert(a * 1 == a);
    } else if (a * b) % qi == 0 {
        // q = b·t + r with 0 < r < b, and q divides a·r = a·q - (a·b)·t.
        let t = (q / b) as int;
        let r = q % b;
        assert(!divides(b, q));
        lemma_fundamental_div_mod(qi, b as int);
        assert(a * r == a * qi - (a * b) * t) by (nonlinear_arith)
            requires
                qi == b * t + r,
        ;
        lemma_mod_multiples_basic(a, qi);
        lemma_mul_mod_noop(a * b, t, qi);
        assert((0 * (t % qi)) == 0);
        lemma_sub_mod_noop(a * qi, (a * b) * t, qi);
        assert((a * r) % qi == 0);
        lemma_prime_divides_no_small_product(q, a, r);
    }
}

/// A prime `q` that divides a product divides one of the factors.
pub proof fn lemma_prime_divides_factor(q: nat, a: int, b: int)
    requires
        is_prime(q),
        (a * b) % (q as int) == 0,
    ensures
        a % (q as int) == 0 || b % (q as int) == 0,
{
    let qi = q as int;
    let r = b % qi;
    if a % qi != 0 && r != 0 {
        lemma_mul_mod_noop_right(a, b, qi);
        lemma_prime_divides_no_small_product(q, a, r as nat);
    }
}

} // verus!
