//! The polynomial commitment layer: a transparent scheme standing behind the
//! commit/open/verify interface the protocol needs. A commitment is an affine
//! point whose coordinates are a digest of the coefficients; an opening
//! reveals the committed polynomials, and the verifier's deferred check (the
//! guard) recomputes digests and evaluations.

use vstd::prelude::*;
use crate::arithmetic::CurveAffine;
use crate::arithmetic::Field;
use crate::arithmetic::fadd;
use crate::arithmetic::vals;
use crate::arithmetic::fmul;
use crate::transcript::Hasher;

verus! {

/// The base-field modulus of a curve.
pub open spec fn base_modulus<C: CurveAffine>() -> nat {
    <C::Base as Field>::modulus()
}

/// One absorption step of the commitment digest: a nonlinear mix of the state
/// with the (reduced) absorbed residue.
pub open spec fn digest_mix(m: nat, s: nat, x: nat) -> nat {
    let xr = x % m;
    fadd(m, fmul(m, fadd(m, s, xr), fadd(m, s, xr)), fadd(m, xr, 1))
}

/// The digest of a residue sequence folded into starting state s.
pub open spec fn digest_fold(m: nat, s: nat, v: Seq<nat>) -> nat
    decreases v.len(),
{
    if v.len() == 0 {
        s
    } else {
        digest_mix(m, digest_fold(m, s, v.drop_last()), v.last())
    }
}

/// The x-coordinate digest of a commitment under the given seed.
pub open spec fn commit_x<C: CurveAffine>(seed: nat, coeffs: Seq<nat>) -> nat {
    digest_fold(
        base_modulus::<C>(),
        digest_mix(base_modulus::<C>(), fadd(base_modulus::<C>(), seed, 1), coeffs.len()),
        coeffs,
    )
}

/// The y-coordinate digest of a commitment under the given seed.
pub open spec fn commit_y<C: CurveAffine>(seed: nat, coeffs: Seq<nat>) -> nat {
    digest_fold(
        base_modulus::<C>(),
        digest_mix(base_modulus::<C>(), fadd(base_modulus::<C>(), seed, 2), coeffs.len()),
        coeffs,
    )
}

/// Public parameters of the commitment scheme: the log-size of the supported
/// domain and a seed derived through the chosen hasher, which every
/// commitment is bound to.
pub struct Params<C: CurveAffine> {
    pub(crate) k: u32,
    pub(crate) seed: C::Base,
}

impl<C: CurveAffine> Params<C> {
    /// The log-size this parameter set supports.
    pub closed spec fn k_spec(self) -> u32 {
        self.k
    }

    /// The residue of the seed every commitment is bound to.
    pub closed spec fn seed_val(self) -> nat {
        self.seed.val()
    }

    /// Derive parameters for circuits of at most 2^k rows. Deterministic in
    /// (hasher, k).
    pub fn new<H: Hasher<C::Base>>(k: u32) -> (r: Self)
        ensures
            r.k_spec() == k,
            r.seed_val() == H::squeeze_spec(
                H::absorb_spec(H::init_spec(), k as nat % base_modulus::<C>()),
            ),
    {
        let mut h = H::init();
        h.absorb(<C::Base as Field>::from_u64(k as u64));
        let seed = h.squeeze();
        Params { k, seed }
    }

    /// The log-size this parameter set supports.
    pub fn k(&self) -> (r: u32)
        ensures
            r == self.k_spec(),
    {
        self.k
    }
}

/// Absorb one scalar residue into a base-field digest state.
fn mix_step<C: CurveAffine>(state: C::Base, x: &C::Scalar) -> (r: C::Base)
    ensures
        r.val() == digest_mix(base_modulus::<C>(), state.val(), x.val()),
{
    let xr = <C::Base as Field>::from_u64(x.as_u64());
    let t = state.add(xr);
    t.mul(t).add(xr.add(<C::Base as Field>::one()))
}

/// Absorb a length into a base-field digest state.
fn mix_len<C: CurveAffine>(state: C::Base, len: u64) -> (r: C::Base)
    ensures
        r.val() == digest_mix(base_modulus::<C>(), state.val(), len as nat),
{
    let xr = <C::Base as Field>::from_u64(len);
    let t = state.add(xr);
    t.mul(t).add(xr.add(<C::Base as Field>::one()))
}

/// Commit to a polynomial, given as its coefficient vector: the digest pair
/// of the coefficients becomes the coordinates of an affine point. The digest
/// is an exact function of (seed, coefficients), which is what the protocol
/// relies on.
pub fn commit<C: CurveAffine>(params: &Params<C>, poly: &Vec<C::Scalar>) -> (r: C)
    ensures
        !r.is_identity_spec(),
        r.x_val() == commit_x::<C>(params.seed_val(), vals(poly@)),
        r.y_val() == commit_y::<C>(params.seed_val(), vals(poly@)),
{
    let one = <C::Base as Field>::one();
    let mut sx = mix_len::<C>(params.seed.add(one), poly.len() as u64);
    let mut sy = mix_len::<C>(params.seed.add(one).add(one), poly.len() as u64);
    let ghost sx0: nat = sx.val();
    let ghost sy0: nat = sy.val();
    proof {
        assert(vals(poly@).take(0) =~= Seq::<nat>::empty());
    }
    let mut i: usize = 0;
    while i < poly.len()
        invariant
            i <= poly.len(),
            sx.val() == digest_fold(base_modulus::<C>(), sx0, vals(poly@).take(i as int)),
            sy.val() == digest_fold(base_modulus::<C>(), sy0, vals(poly@).take(i as int)),
        decreases poly.len() - i,
    {
        sx = mix_step::<C>(sx, &poly[i]);
        sy = mix_step::<C>(sy, &poly[i]);
        i = i + 1;
        proof {
            assert(vals(poly@).take(i as int).drop_last() =~= vals(poly@).take(i as int - 1));
            assert(vals(poly@).take(i as int).last() == poly@[i as int - 1].val());
        }
    }
    proof {
        assert(vals(poly@).take(poly.len() as int) =~= vals(poly@));
        assert(fadd(base_modulus::<C>(), params.seed.val(), 2) == fadd(
            base_modulus::<C>(),
            fadd(base_modulus::<C>(), params.seed.val(), 1),
            1,
        )) by {
            <C::Base as Field>::modulus_facts();
            vstd::arithmetic::div_mod::lemma_add_mod_noop(
                params.seed.val() as int + 1,
                1,
                base_modulus::<C>() as int,
            );
            vstd::arithmetic::div_mod::lemma_small_mod(1, base_modulus::<C>());
        };
    }
    C::from_xy(sx, sy)
}

/// An opening of committed polynomials: this transparent scheme reveals the
/// coefficient vectors themselves.
#[derive(Clone, Debug)]
pub struct OpeningProof<C: CurveAffine> {
    pub polys: Vec<Vec<C::Scalar>>,
}

} // verus!
