//! What the protocol guarantees, proved over the model of
//! [`crate::protocol`].
//!
//! Throughout, the honest prover holds the secret `x`, publishes
//! `y1 = g^x mod p` and `y2 = h^x mod p`, commits to `k` with
//! `r1 = g^k mod p` and `r2 = h^k mod p`, and answers the challenge `c` with
//! `s = (k - c·x) mod q`.

use crate::lemmas::{
    lemma_mod_exp_adds, lemma_mod_exp_congruent_exponents, lemma_mod_exp_injective,
    lemma_mod_exp_multiplies, lemma_prime_divides_factor,
};
use crate::protocol::{is_prime, mod_exp, relation_holds, response, GroupParams};
use vstd::arithmetic::div_mod::{
    lemma_add_mod_noop_right, lemma_mod_add_multiples_vanish, lemma_mod_equivalence,
    lemma_small_mod, lemma_sub_mod_noop, lemma_sub_mod_noop_right,
};
use vstd::prelude::*;

verus! {

/// The response lies in `[0, q)` and is congruent to `k - c·x` modulo `q`,
/// whether or not `c·x` exceeds `k`.
pub proof fn theorem_response_range(k: nat, c: nat, x: nat, q: nat)
    requires
        q > 0,
    ensures
        response(k, c, x, q) < q,
        (response(k, c, x, q) + c * x) % q == k % q,
        k >= c * x ==> response(k, c, x, q) == ((k - c * x) as nat) % q,
        k < c * x ==> response(k, c, x, q) == ((q - ((c * x - k) as nat) % q) as nat) % q,
{
    let qi = q as int;
    let d = k - c * x;
    lemma_add_mod_noop_right((c * x) as int, d, qi);
    if k < c * x {
        lemma_mod_add_multiples_vanish(-((-d) % qi), qi);
        lemma_sub_mod_noop_right(0, -d, qi);
    }
}

/// The algebraic identity behind the protocol, for one generator: where
/// `g^q` is 1 modulo `p`, the honest response `s` satisfies
/// `(g^s · y^c) mod p = r` for `y = g^x mod p` and `r = g^k mod p`.
pub proof fn theorem_response_identity(p: nat, q: nat, g: nat, x: nat, k: nat, c: nat)
    requires
        p > 0,
        q > 0,
        mod_exp(g, q, p) == 1,
    ensures
        (mod_exp(g, response(k, c, x, q), p) * mod_exp(mod_exp(g, x, p), c, p)) % p == mod_exp(
            g,
            k,
            p,
        ),
        relation_holds(p, g, mod_exp(g, x, p), mod_exp(g, k, p), c, response(k, c, x, q)),
{
    let s = response(k, c, x, q);
    lemma_combined_exponent(p, g, x, c, s);
    theorem_response_range(k, c, x, q);
    assert(x * c == c * x) by (nonlinear_arith);
    lemma_mod_exp_congruent_exponents(g, q, s + x * c, k, p);
}

/// Completeness: in a valid group, the verifier accepts the honest prover's
/// transcript, for every secret, commitment and challenge.
pub proof fn theorem_completeness(grp: GroupParams, x: nat, k: nat, c: nat)
    requires
        grp.valid(),
    ensures
        grp.accepts(
            mod_exp(grp.g, k, grp.p),
            mod_exp(grp.h, k, grp.p),
            mod_exp(grp.g, x, grp.p),
            mod_exp(grp.h, x, grp.p),
            c,
            response(k, c, x, grp.q),
        ),
{
    theorem_response_identity(grp.p, grp.q, grp.g, x, k, c);
    theorem_response_identity(grp.p, grp.q, grp.h, x, k, c);
}

/// Soundness against a wrong response: in a valid group, with everything else
/// in the honest transcript unchanged, the verifier accepts a response `s`
/// exactly when `s` is congruent modulo `q` to the honest one.
pub proof fn theorem_accepted_responses(grp: GroupParams, x: nat, k: nat, c: nat, s: nat)
    requires
        grp.valid(),
    ensures
        grp.accepts(
            mod_exp(grp.g, k, grp.p),
            mod_exp(grp.h, k, grp.p),
            mod_exp(grp.g, x, grp.p),
            mod_exp(grp.h, x, grp.p),
            c,
            s,
        ) <==> s % grp.q == response(k, c, x, grp.q),
{
    let p = grp.p;
    let q = grp.q;
    let honest = response(k, c, x, q);
    theorem_response_range(k, c, x, q);
    lemma_small_mod(honest, q);
    lemma_combined_exponent(p, grp.g, x, c, s);
    lemma_combined_exponent(p, grp.h, x, c, s);
    lemma_small_mod(mod_exp(grp.g, k, p), p);
    lemma_small_mod(mod_exp(grp.h, k, p), p);
    assert((s + x * c) % q == (s % q + x * c) % q) by {
        lemma_add_mod_noop_right((x * c) as int, s as int, q as int);
    }
    assert(x * c == c * x) by (nonlinear_arith);
    if s % q == honest {
        lemma_mod_exp_congruent_exponents(grp.g, q, s + x * c, k, p);
        lemma_mod_exp_congruent_exponents(grp.h, q, s + x * c, k, p);
    }
    if relation_holds(p, grp.g, mod_exp(grp.g, x, p), mod_exp(grp.g, k, p), c, s) {
        lemma_mod_exp_injective(grp.g, q, s + x * c, k, p);
        // s and the honest response differ by a multiple of q.
        lemma_mod_equivalence((s + x * c) as int, (honest + c * x) as int, q as int);
        lemma_mod_equivalence(s as int, honest as int, q as int);
    }
}

/// Soundness against a wrong witness: in a valid group, a response computed
/// from a secret `x_fake` in place of `x` is rejected whenever
/// `c·(x - x_fake)` is not a multiple of `q`.
pub proof fn theorem_wrong_witness_rejected(
    grp: GroupParams,
    x: nat,
    x_fake: nat,
    k: nat,
    c: nat,
)
    requires
        grp.valid(),
        (c * (x - x_fake)) % (grp.q as int) != 0,
    ensures
        response(k, c, x_fake, grp.q) != response(k, c, x, grp.q),
        !grp.accepts(
            mod_exp(grp.g, k, grp.p),
            mod_exp(grp.h, k, grp.p),
            mod_exp(grp.g, x, grp.p),
            mod_exp(grp.h, x, grp.p),
            c,
            response(k, c, x_fake, grp.q),
        ),
{
    let q = grp.q;
    let fake = response(k, c, x_fake, q);
    theorem_response_range(k, c, x_fake, q);
    lemma_small_mod(fake, q);
    assert((k - c * x_fake) - (k - c * x) == c * (x - x_fake)) by (nonlinear_arith);
    lemma_mod_equivalence(k - c * x_fake, k - c * x, q as int);
    theorem_accepted_responses(grp, x, k, c, fake);
}

/// Soundness in a subgroup of prime order: a response computed from a secret
/// that differs from `x` modulo `q` is rejected on every challenge but those
/// that are multiples of `q`. Of the `q` challenges below `q`, only 0 lets a
/// wrong witness pass.
pub proof fn theorem_wrong_witness_rejected_in_prime_order(
    grp: GroupParams,
    x: nat,
    x_fake: nat,
    k: nat,
    c: nat,
)
    requires
        grp.valid(),
        is_prime(grp.q),
        x % grp.q != x_fake % grp.q,
        c % grp.q != 0,
    ensures
        !grp.accepts(
            mod_exp(grp.g, k, grp.p),
            mod_exp(grp.h, k, grp.p),
            mod_exp(grp.g, x, grp.p),
            mod_exp(grp.h, x, grp.p),
            c,
            response(k, c, x_fake, grp.q),
        ),
{
    let qi = grp.q as int;
    lemma_mod_equivalence(x as int, x_fake as int, qi);
    if (c * (x - x_fake)) % qi == 0 {
        lemma_prime_divides_factor(grp.q, c as int, x - x_fake);
    }
    theorem_wrong_witness_rejected(grp, x, x_fake, k, c);
}

/// Why a commitment serves once: for a prime order `q`, the responses to two
/// challenges that differ modulo `q`, given for one and the same commitment,
/// fix the secret modulo `q`. Whoever sees both can solve for it.
pub proof fn theorem_reused_commitment_fixes_secret(
    q: nat,
    k: nat,
    x: nat,
    k_other: nat,
    x_other: nat,
    c1: nat,
    c2: nat,
)
    requires
        is_prime(q),
        c1 % q != c2 % q,
        response(k, c1, x, q) == response(k_other, c1, x_other, q),
        response(k, c2, x, q) == response(k_other, c2, x_other, q),
    ensures
        x % q == x_other % q,
{
    let qi = q as int;
    let d1 = (k - c1 * x) - (k_other - c1 * x_other);
    let d2 = (k - c2 * x) - (k_other - c2 * x_other);
    lemma_mod_equivalence(k - c1 * x, k_other - c1 * x_other, qi);
    lemma_mod_equivalence(k - c2 * x, k_other - c2 * x_other, qi);
    assert(d1 - d2 == (c2 - c1) * (x - x_other)) by (nonlinear_arith)
        requires
            d1 == (k - c1 * x) - (k_other - c1 * x_other),
            d2 == (k - c2 * x) - (k_other - c2 * x_other),
    ;
    // q divides d1 and d2, hence their difference.
    lemma_sub_mod_noop(d1, d2, qi);
    lemma_small_mod(0, q);
    lemma_prime_divides_factor(q, c2 - c1, x - x_other);
    lemma_mod_equivalence(c2 as int, c1 as int, qi);
    lemma_mod_equivalence(x as int, x_other as int, qi);
}

/// `(g^s mod p) · ((g^x mod p)^c mod p) mod p` is `g^(s + x·c) mod p`.
proof fn lemma_combined_exponent(p: nat, g: nat, x: nat, c: nat, s: nat)
    requires
        p > 0,
    ensures
        (mod_exp(g, s, p) * mod_exp(mod_exp(g, x, p), c, p)) % p == mod_exp(g, s + x * c, p),
{
    lemma_mod_exp_multiplies(g, x, c, p);
    lemma_mod_exp_adds(g, s, x * c, p);
}

} // verus!
