//! The boundary to `num_bigint` and `rand`.
//!
//! The library computes on `num_bigint::BigUint` and draws its random numbers
//! from `rand`. Verus does not look inside either crate: each item below, but
//! for [`is_zero`], states for one of their functions what the rest of the
//! library relies on, and is believed without proof. All of it is phrased over
//! [`nat_of`], the natural number that a `BigUint` stands for.

use num_bigint::{BigUint, RandBigInt};
use rand::rngs::ThreadRng;
use vstd::arithmetic::power::pow;
use vstd::prelude::*;

verus! {

/// `num_bigint::BigUint`, an unsigned integer of arbitrary size. Its digits are
/// hidden; only [`nat_of`] speaks of what it holds.
#[verifier::external_type_specification]
#[verifier::external_body]
pub struct ExBigUint(num_bigint::BigUint);

/// `rand::rngs::ThreadRng`, the handle to the thread-local generator that the
/// operating system seeds. Nothing is known of its state.
#[verifier::external_type_specification]
#[verifier::external_body]
pub struct ExThreadRng(rand::rngs::ThreadRng);

/// The natural number that a `BigUint` stands for.
pub uninterp spec fn nat_of(n: BigUint) -> nat;

/// `BigUint::modpow` returns `(base ^ exponent) % modulus` and panics on a
/// zero modulus, which `requires` leaves out.
pub assume_specification[ BigUint::modpow ](
    base: &BigUint,
    exponent: &BigUint,
    modulus: &BigUint,
) -> (r: BigUint)
    requires
        nat_of(*modulus) > 0,
    ensures
        nat_of(r) == pow(nat_of(*base) as int, nat_of(*exponent)) % (nat_of(*modulus) as int),
;

/// `rand::thread_rng` hands out the calling thread's generator, which the
/// operating system seeds on first use. Nothing is claimed of it.
pub assume_specification[ rand::thread_rng ]() -> ThreadRng;

/// `&BigUint * &BigUint`: the product of the two numbers.
#[verifier::external_body]
pub(crate) fn big_mul(a: &BigUint, b: &BigUint) -> (r: BigUint)
    ensures
        nat_of(r) == nat_of(*a) * nat_of(*b),
{
    a * b
}

/// `&BigUint - &BigUint`: the difference. The subtraction panics when the
/// right-hand side is the larger one, which `requires` leaves out.
#[verifier::external_body]
pub(crate) fn big_sub(a: &BigUint, b: &BigUint) -> (r: BigUint)
    requires
        nat_of(*a) >= nat_of(*b),
    ensures
        nat_of(r) == nat_of(*a) - nat_of(*b),
{
    a - b
}

/// `&BigUint % &BigUint`: the remainder of the division of `a` by `m`. The
/// division panics on a zero divisor, which `requires` leaves out.
#[verifier::external_body]
pub(crate) fn big_rem(a: &BigUint, m: &BigUint) -> (r: BigUint)
    requires
        nat_of(*m) > 0,
    ensures
        nat_of(r) == nat_of(*a) % nat_of(*m),
{
    a % m
}

/// `BigUint`'s `>=`: the order of the numbers.
#[verifier::external_body]
pub(crate) fn big_ge(a: &BigUint, b: &BigUint) -> (r: bool)
    ensures
        r == (nat_of(*a) >= nat_of(*b)),
{
    a >= b
}

/// `BigUint`'s `==`: two values are equal exactly when they stand for the same
/// number.
#[verifier::external_body]
pub(crate) fn big_eq(a: &BigUint, b: &BigUint) -> (r: bool)
    ensures
        r == (nat_of(*a) == nat_of(*b)),
{
    a == b
}

/// `BigUint::from(u32)`: the `BigUint` that stands for `v`.
#[verifier::external_body]
pub(crate) fn big_from_u32(v: u32) -> (r: BigUint)
    ensures
        nat_of(r) == v,
{
    BigUint::from(v)
}

/// `RandBigInt::gen_biguint_below` draws numbers of as many bits as `bound`
/// has until one lies below `bound`, and returns that one. Which number it is
/// depends on the generator and is left open. The call panics on a zero bound,
/// which `requires` leaves out.
#[verifier::external_body]
pub(crate) fn big_random_below(rng: &mut ThreadRng, bound: &BigUint) -> (r: BigUint)
    requires
        nat_of(*bound) > 0,
    ensures
        nat_of(r) < nat_of(*bound),
{
    rng.gen_biguint_below(bound)
}

/// Whether `n` stands for zero. A caller that holds a `BigUint` of unknown
/// value learns here whether it may serve as a modulus, an order or a bound:
/// the operations of [`crate::ZKP`] ask for positive ones.
pub fn is_zero(n: &BigUint) -> (r: bool)
    ensures
        r == (nat_of(*n) == 0),
{
    let zero = big_from_u32(0);
    big_eq(n, &zero)
}

} // verus!
