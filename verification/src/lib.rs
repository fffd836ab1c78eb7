//! A small PLONK-style proving system: a fixed multiply/add gate with a
//! permutation argument for copy constraints, over an FFT-friendly prime
//! field, with a transparent digest-based commitment layer standing behind
//! the commitment interface.
//!
//! - [`arithmetic`]: the prime fields and the affine-point interface, with
//!   exact modular contracts on every operation.
//! - [`circuit`]: columns, symbolic gate expressions, the constraint-system
//!   shape, and the assignment capability circuits synthesize against.
//! - [`gadgets`]: the standard three-column backend packing multiply, add
//!   and single-cell allocations into rows.
//! - [`domain`]: coefficient/evaluation transforms over the base and
//!   extended coset domains.
//! - [`transcript`]: the Fiat–Shamir hasher.
//! - [`polycommit`]: parameters, commitments and openings.
//! - [`plonk`]: the reference string, the prover and the verifier with its
//!   deferred guard.

pub mod arithmetic;
pub mod circuit;
pub mod domain;
pub mod gadgets;
pub mod plonk;
pub mod polycommit;
pub mod transcript;
