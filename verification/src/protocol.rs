//! The mathematics of the protocol, over the natural numbers.
//!
//! The executable operations are specified against the functions of this file.

use vstd::arithmetic::power::pow;
use vstd::prelude::*;

verus! {

/// `b^e mod m`.
pub open spec fn mod_exp(b: nat, e: nat, m: nat) -> nat {
    (pow(b as int, e) % (m as int)) as nat
}

/// The prover's response `(k - c·x) mod q`: the representative in `[0, q)` of
/// the difference taken over the integers, which may be negative.
pub open spec fn response(k: nat, c: nat, x: nat, q: nat) -> nat {
    ((k - c * x) % (q as int)) as nat
}

/// One verification equation: `r = (g^s mod p) · (y^c mod p) mod p`.
pub open spec fn relation_holds(p: nat, g: nat, y: nat, r: nat, c: nat, s: nat) -> bool {
    r == (mod_exp(g, s, p) * mod_exp(y, c, p)) % p
}

/// `g` has multiplicative order `q` modulo `p`: `q` is the least positive
/// exponent that takes `g` to 1.
pub open spec fn has_order(g: nat, q: nat, p: nat) -> bool {
    &&& q > 0
    &&& mod_exp(g, q, p) == 1
    &&& forall|j: nat| 0 < j < q ==> #[trigger] mod_exp(g, j, p) != 1
}

/// `d` divides `n`.
pub open spec fn divides(d: nat, n: nat) -> bool {
    d > 0 && n % d == 0
}

/// `n` is prime: it exceeds 1 and no number strictly between 1 and `n` divides
/// it.
pub open spec fn is_prime(n: nat) -> bool {
    &&& n > 1
    &&& forall|d: nat| 1 < d < n ==> !#[trigger] divides(d, n)
}

/// A group description: the modulus `p`, the order `q` of the subgroup, and its
/// two generators `g` and `h`.
pub struct GroupParams {
    pub p: nat,
    pub q: nat,
    pub g: nat,
    pub h: nat,
}

impl GroupParams {
    /// What the protocol asks of a group description: both generators lie
    /// strictly between 1 and `p` and have order `q` modulo `p`.
    pub open spec fn valid(self) -> bool {
        &&& 1 < self.g < self.p
        &&& 1 < self.h < self.p
        &&& has_order(self.g, self.q, self.p)
        &&& has_order(self.h, self.q, self.p)
    }

    /// The verifier's verdict on a transcript: both verification equations
    /// hold, the one for `g`, `y1`, `r1` and the one for `h`, `y2`, `r2`.
    pub open spec fn accepts(self, r1: nat, r2: nat, y1: nat, y2: nat, c: nat, s: nat) -> bool {
        &&& relation_holds(self.p, self.g, y1, r1, c, s)
        &&& relation_holds(self.p, self.h, y2, r2, c, s)
    }
}

} // verus!
