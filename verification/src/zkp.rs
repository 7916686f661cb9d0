//! The proof engine: the group parameters and the four operations on them.

use crate::bignum::{big_eq, big_ge, big_mul, big_random_below, big_rem, big_sub, nat_of};
use crate::protocol::{mod_exp, relation_holds, response, GroupParams};
use num_bigint::BigUint;
use vstd::arithmetic::div_mod::{lemma_mod_add_multiples_vanish, lemma_sub_mod_noop_right};
use vstd::prelude::*;

verus! {

/// The agreed group description: modulus `p`, subgroup order `q`, and two
/// generators `g` and `h` of the subgroup of order `q`.
///
/// The parameters are taken as they are given. That they form a valid group is
/// the caller's obligation; the operations only need the modulus they divide
/// by to be positive.
pub struct ZKP {
    pub p: BigUint,
    pub q: BigUint,
    pub g: BigUint,
    pub h: BigUint,
}

impl View for ZKP {
    type V = GroupParams;

    open spec fn view(&self) -> GroupParams {
        GroupParams {
            p: nat_of(self.p),
            q: nat_of(self.q),
            g: nat_of(self.g),
            h: nat_of(self.h),
        }
    }
}

impl ZKP {
    /// The verdict on a transcript: what [`ZKP::verify`] returns on it. It is
    /// read off the numbers that the parameters and the transcript stand for.
    pub open spec fn verdict(
        &self,
        r1: BigUint,
        r2: BigUint,
        y1: BigUint,
        y2: BigUint,
        c: BigUint,
        s: BigUint,
    ) -> bool {
        self@.accepts(nat_of(r1), nat_of(r2), nat_of(y1), nat_of(y2), nat_of(c), nat_of(s))
    }

    /// `n^exponent mod modulus`, for a positive modulus.
    pub fn exponentiate(n: &BigUint, exponent: &BigUint, modulus: &BigUint) -> (r: BigUint)
        requires
            nat_of(*modulus) > 0,
        ensures
            nat_of(r) == mod_exp(nat_of(*n), nat_of(*exponent), nat_of(*modulus)),
            nat_of(r) < nat_of(*modulus),
    {
        n.modpow(exponent, modulus)
    }

    /// The response `s = (k - c·x) mod q` to the challenge `c`, for the
    /// commitment `k` and the secret `x`.
    ///
    /// The result is always the canonical representative in `[0, q)`, also
    /// where `c·x` exceeds `k` by a multiple of `q`: the response is then 0,
    /// not `q`. None of `k`, `c`, `x` needs to lie below `q`.
    ///
    /// A commitment `k` must be fresh for every proof. Two responses to
    /// different challenges for the same `k` give the secret away, and nothing
    /// here detects the reuse.
    pub fn solve(&self, k: &BigUint, c: &BigUint, x: &BigUint) -> (s: BigUint)
        requires
            self@.q > 0,
        ensures
            nat_of(s) == response(nat_of(*k), nat_of(*c), nat_of(*x), self@.q),
            nat_of(s) < self@.q,
    {
        let cx = big_mul(c, x);
        if big_ge(k, &cx) {
            let diff = big_sub(k, &cx);
            big_rem(&diff, &self.q)
        } else {
            let excess = big_sub(&cx, k);
            let reduced = big_rem(&excess, &self.q);
            let lifted = big_sub(&self.q, &reduced);
            proof {
                let q = self@.q as int;
                let d = nat_of(excess) as int;
                lemma_mod_add_multiples_vanish(-(d % q), q);
                lemma_sub_mod_noop_right(0, d, q);
            }
            big_rem(&lifted, &self.q)
        }
    }

    /// Whether the transcript `(r1, r2, y1, y2, c, s)` satisfies both
    /// verification equations, `r1 = g^s · y1^c mod p` and
    /// `r2 = h^s · y2^c mod p`. A transcript that fails them is no error: the
    /// answer is `false`.
    pub fn verify(
        &self,
        r1: &BigUint,
        r2: &BigUint,
        y1: &BigUint,
        y2: &BigUint,
        c: &BigUint,
        s: &BigUint,
    ) -> (ok: bool)
        requires
            self@.p > 0,
        ensures
            ok == self.verdict(*r1, *r2, *y1, *y2, *c, *s),
    {
        let cond1 = self.check_relation(&self.g, y1, r1, c, s);
        let cond2 = self.check_relation(&self.h, y2, r2, c, s);
        cond1 && cond2
    }

    /// One verification equation: whether `r = (g^s mod p) · (y^c mod p) mod p`.
    fn check_relation(&self, g: &BigUint, y: &BigUint, r: &BigUint, c: &BigUint, s: &BigUint) -> (ok:
        bool)
        requires
            self@.p > 0,
        ensures
            ok == relation_holds(
                self@.p,
                nat_of(*g),
                nat_of(*y),
                nat_of(*r),
                nat_of(*c),
                nat_of(*s),
            ),
    {
        let gs = g.modpow(s, &self.p);
        let yc = y.modpow(c, &self.p);
        let product = big_mul(&gs, &yc);
        let expected = big_rem(&product, &self.p);
        big_eq(r, &expected)
    }

    /// A number in `[0, bound)`, drawn from the thread's generator. Which one
    /// it is depends on the generator alone.
    pub fn generate_random_below(bound: &BigUint) -> (r: BigUint)
        requires
            nat_of(*bound) > 0,
        ensures
            nat_of(r) < nat_of(*bound),
    {
        let mut rng = rand::thread_rng();
        big_random_below(&mut rng, bound)
    }
}

/// `verify` is a pure predicate: parameters and transcripts that stand for the
/// same numbers get the same verdict, so a repeated call returns the same
/// boolean.
pub proof fn theorem_verdict_repeatable(
    first: ZKP,
    r1: BigUint,
    r2: BigUint,
    y1: BigUint,
    y2: BigUint,
    c: BigUint,
    s: BigUint,
    again: ZKP,
    r1_again: BigUint,
    r2_again: BigUint,
    y1_again: BigUint,
    y2_again: BigUint,
    c_again: BigUint,
    s_again: BigUint,
)
    requires
        first@ == again@,
        nat_of(r1) == nat_of(r1_again),
        nat_of(r2) == nat_of(r2_again),
        nat_of(y1) == nat_of(y1_again),
        nat_of(y2) == nat_of(y2_again),
        nat_of(c) == nat_of(c_again),
        nat_of(s) == nat_of(s_again),
    ensures
        first.verdict(r1, r2, y1, y2, c, s) == again.verdict(
            r1_again,
            r2_again,
            y1_again,
            y2_again,
            c_again,
            s_again,
        ),
{
}

} // verus!
