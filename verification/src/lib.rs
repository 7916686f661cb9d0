//! Chaum–Pedersen proofs of equality of two discrete logarithms.
//!
//! A prover who knows `x` with `y1 = g^x mod p` and `y2 = h^x mod p` convinces a
//! verifier of that fact without revealing `x`. The arithmetic runs on
//! `num_bigint::BigUint`; every contract is stated over the natural number that
//! such a value stands for.
//!
//! - [`zkp`] holds the engine: the group parameters and the operations
//!   `exponentiate`, `solve`, `verify` and `generate_random_below`.
//! - [`protocol`] is the mathematical model that their contracts refer to.
//! - [`theorems`] proves what the protocol guarantees: completeness, soundness
//!   and the identity behind them.
//! - [`bignum`] is the boundary to the arithmetic and the random source.

pub mod bignum;
mod lemmas;
pub mod protocol;
pub mod theorems;
pub mod zkp;

pub use zkp::ZKP;
