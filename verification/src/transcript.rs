//! The Fiat–Shamir transcript: a hasher over a field whose behaviour is
//! pinned exactly by spec functions, so challenge derivation is deterministic
//! in the sequence of absorbed elements.

use vstd::prelude::*;
use crate::arithmetic::Field;
use crate::arithmetic::fadd;
use crate::arithmetic::fmul;

verus! {

/// A transcript hasher over a field: absorbs elements, squeezes challenges.
/// Every operation's result is an exact function of the state, stated through
/// the spec functions, so prover and verifier derive identical challenges.
pub trait Hasher<F: Field>: Sized {
    /// The state the hasher starts in.
    spec fn init_spec() -> nat;

    /// The state after absorbing the residue x into state s.
    spec fn absorb_spec(s: nat, x: nat) -> nat;

    /// The element squeezed out of state s.
    spec fn squeeze_spec(s: nat) -> nat;

    /// The state after squeezing from state s.
    spec fn after_squeeze_spec(s: nat) -> nat;

    /// The current state.
    spec fn state(self) -> nat;

    fn init() -> (r: Self)
        ensures
            r.state() == Self::init_spec(),
    ;

    fn absorb(&mut self, x: F)
        ensures
            final(self).state() == Self::absorb_spec(old(self).state(), x.val()),
    ;

    fn squeeze(&mut self) -> (r: F)
        ensures
            r.val() == Self::squeeze_spec(old(self).state()),
            final(self).state() == Self::after_squeeze_spec(old(self).state()),
    ;
}

/// A toy sponge over one field element of state. It is not a strong
/// cryptographic hash and is meant for testing the protocol wiring.
pub struct DummyHash<F: Field> {
    state: F,
}

impl<F: Field> Hasher<F> for DummyHash<F> {
    open spec fn init_spec() -> nat {
        1
    }

    open spec fn absorb_spec(s: nat, x: nat) -> nat {
        fadd(F::modulus(), fmul(F::modulus(), fadd(F::modulus(), s, x), fadd(F::modulus(), s, x)), x)
    }

    open spec fn squeeze_spec(s: nat) -> nat {
        s
    }

    open spec fn after_squeeze_spec(s: nat) -> nat {
        fadd(F::modulus(), fmul(F::modulus(), s, s), 1)
    }

    closed spec fn state(self) -> nat {
        self.state.val()
    }

    fn init() -> (r: Self) {
        DummyHash { state: F::one() }
    }

    fn absorb(&mut self, x: F) {
        let t = self.state.add(x);
        self.state = t.mul(t).add(x);
    }

    fn squeeze(&mut self) -> (r: F) {
        let out = self.state;
        self.state = self.state.mul(self.state).add(F::one());
        out
    }
}

} // verus!
