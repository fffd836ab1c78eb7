//! The evaluation domain: transforms between coefficient and evaluation form
//! over a multiplicative subgroup of size 2^k, and over an extended coset
//! domain of size 2^(k+2) sized for the degree of the combined gate and
//! permutation identities.

use vstd::prelude::*;
use vstd::arithmetic::power::lemma_pow0;
use vstd::arithmetic::power::lemma_pow1;
use vstd::arithmetic::power::lemma_pow_adds;
use vstd::arithmetic::power::pow;
use vstd::arithmetic::power2::lemma_pow2_adds;
use vstd::arithmetic::power2::lemma2_to64;
use vstd::arithmetic::div_mod::lemma_mul_mod_noop_general;
use vstd::arithmetic::div_mod::lemma_small_mod;
use vstd::arithmetic::power2::pow2;
use vstd::arithmetic::power2::lemma_pow2_unfold;
use vstd::arithmetic::power2::lemma_pow2_strictly_increases;
use crate::arithmetic::Field;
use crate::arithmetic::fadd;
use crate::arithmetic::fmul;
use crate::arithmetic::pow_mod;
use crate::arithmetic::vals;
use crate::arithmetic::invert;
use crate::arithmetic::lemma_pow_mod_step;
use crate::plonk::Error;

verus! {

/// Horner evaluation of a polynomial (coefficients low-order first) at x,
/// modulo m.
pub open spec fn poly_eval(c: Seq<nat>, x: nat, m: nat) -> nat
    decreases c.len(),
{
    if c.len() == 0 {
        0
    } else {
        fadd(m, fmul(m, poly_eval(c.subrange(1, c.len() as int), x, m), x), c[0])
    }
}

/// The coefficients of p(g·X), given those of p: the i-th coefficient is
/// scaled by g^i.
pub open spec fn coset_scaled(c: Seq<nat>, g: nat, m: nat) -> Seq<nat> {
    Seq::new(c.len(), |i: int| fmul(m, c[i], pow_mod(g, i as nat, m)))
}

/// A sequence of `len` zero residues.
pub open spec fn zero_pad(len: nat) -> Seq<nat> {
    Seq::new(len, |i: int| 0nat)
}

/// Evaluate a polynomial at one point by Horner's rule.
pub fn eval_at<F: Field>(coeffs: &Vec<F>, x: F) -> (r: F)
    ensures
        r.val() == poly_eval(vals(coeffs@), x.val(), F::modulus()),
{
    let mut acc = F::zero();
    let mut i: usize = coeffs.len();
    proof {
        assert(vals(coeffs@).subrange(i as int, vals(coeffs@).len() as int)
            =~= Seq::<nat>::empty());
    }
    while i > 0
        invariant
            i <= coeffs.len(),
            acc.val() == poly_eval(
                vals(coeffs@).subrange(i as int, vals(coeffs@).len() as int),
                x.val(),
                F::modulus(),
            ),
        decreases i,
    {
        i = i - 1;
        acc = acc.mul(x).add(coeffs[i]);
        proof {
            let whole = vals(coeffs@);
            let tail = whole.subrange(i as int, whole.len() as int);
            assert(tail.subrange(1, tail.len() as int)
                =~= whole.subrange(i as int + 1, whole.len() as int));
            assert(tail[0] == coeffs@[i as int].val());
        }
    }
    proof {
        assert(vals(coeffs@).subrange(0, vals(coeffs@).len() as int) =~= vals(coeffs@));
    }
    acc
}

/// Evaluate a polynomial at 1, root, root^2, ..., root^(count-1): the direct
/// discrete transform underlying both directions of the domain transforms.
pub fn transform<F: Field>(coeffs: &Vec<F>, root: F, count: usize) -> (r: Vec<F>)
    ensures
        r@.len() == count,
        forall|i: int|
            0 <= i < count ==> r@[i].val() == poly_eval(
                vals(coeffs@),
                pow_mod(root.val(), i as nat, F::modulus()),
                F::modulus(),
            ),
{
    proof {
        F::modulus_facts();
    }
    let mut out: Vec<F> = Vec::new();
    let mut cur = F::one();
    let mut i: usize = 0;
    proof {
        lemma_pow0(root.val() as int);
        lemma_small_mod(1, F::modulus());
    }
    while i < count
        invariant
            2 < F::modulus(),
            i <= count,
            out@.len() == i,
            cur.val() == pow_mod(root.val(), i as nat, F::modulus()),
            forall|j: int|
                0 <= j < i ==> out@[j].val() == poly_eval(
                    vals(coeffs@),
                    pow_mod(root.val(), j as nat, F::modulus()),
                    F::modulus(),
                ),
        decreases count - i,
    {
        out.push(eval_at(coeffs, cur));
        cur = cur.mul(root);
        i = i + 1;
        proof {
            lemma_pow_mod_step(root.val(), (i - 1) as nat, F::modulus());
        }
    }
    out
}

/// The transform pair for one circuit size: the 2^k base domain the rows
/// live on, and the 2^(k+2) coset domain products are computed on.
#[derive(Debug)]
pub struct EvaluationDomain<F: Field> {
    pub(crate) k: u32,
    pub(crate) n: u64,
    pub(crate) ext_n: u64,
    pub(crate) omega: F,
    pub(crate) omega_inv: F,
    pub(crate) ext_omega: F,
    pub(crate) ext_omega_inv: F,
    pub(crate) n_inv: F,
    pub(crate) g_coset: F,
    pub(crate) g_coset_inv: F,
    pub(crate) ext_n_inv: F,
}

impl<F: Field> EvaluationDomain<F> {
    #[verifier::type_invariant]
    spec fn wf(self) -> bool {
        2 <= self.n && self.ext_n == 4 * self.n && self.ext_n < 0x1_0000_0000
    }

    /// The log-size of the base domain.
    pub closed spec fn k_spec(self) -> u32 {
        self.k
    }

    /// The number of rows, 2^k.
    pub closed spec fn n_spec(self) -> nat {
        self.n as nat
    }

    /// The size of the extended coset domain, 4·2^k.
    pub closed spec fn ext_n_spec(self) -> nat {
        self.ext_n as nat
    }

    /// The residue of the base domain's generator.
    pub closed spec fn omega_val(self) -> nat {
        self.omega.val()
    }

    /// The residue of the inverse of the base domain's generator.
    pub closed spec fn omega_inv_val(self) -> nat {
        self.omega_inv.val()
    }

    /// The residue of the extended domain's generator.
    pub closed spec fn ext_omega_val(self) -> nat {
        self.ext_omega.val()
    }

    /// The residue of the inverse of the extended domain's generator.
    pub closed spec fn ext_omega_inv_val(self) -> nat {
        self.ext_omega_inv.val()
    }

    /// The residue of 1/n.
    pub closed spec fn n_inv_val(self) -> nat {
        self.n_inv.val()
    }

    /// The residue of 1/ext_n.
    pub closed spec fn ext_n_inv_val(self) -> nat {
        self.ext_n_inv.val()
    }

    /// The residue of the coset shift (the field's generator).
    pub closed spec fn g_coset_val(self) -> nat {
        self.g_coset.val()
    }

    /// The residue of the inverse coset shift.
    pub closed spec fn g_coset_inv_val(self) -> nat {
        self.g_coset_inv.val()
    }

    /// Build the domain for 2^k rows. Fails with `IncompatibleParams` exactly
    /// when the field cannot supply a primitive root for the extended size:
    /// the configuration error is raised before any proving or verifying
    /// begins.
    pub fn new(k: u32) -> (r: Result<Self, Error>)
        ensures
            r.is_ok() <==> (1 <= k && k as nat + 2 <= F::adicity_spec() && F::adicity_spec() < 32),
            r matches Err(e) ==> e == Error::IncompatibleParams,
            r.is_ok() ==> {
                let d = r.unwrap();
                let m = F::modulus();
                &&& d.k_spec() == k
                &&& d.n_spec() == pow2(k as nat)
                &&& d.ext_n_spec() == 4 * pow2(k as nat)
                &&& 2 <= d.n_spec()
                &&& d.ext_n_spec() < 0x1_0000_0000
                &&& d.ext_omega_val() == pow_mod(
                    F::root_spec(),
                    pow2((F::adicity_spec() - k - 2) as nat),
                    m,
                )
                &&& d.omega_val() == pow_mod(F::root_spec(), pow2((F::adicity_spec() - k) as nat), m)
                &&& d.omega_inv_val() == pow_mod(d.omega_val(), (m - 2) as nat, m)
                &&& d.ext_omega_inv_val() == pow_mod(d.ext_omega_val(), (m - 2) as nat, m)
                &&& d.n_inv_val() == pow_mod(d.n_spec() % m, (m - 2) as nat, m)
                &&& d.ext_n_inv_val() == pow_mod(d.ext_n_spec() % m, (m - 2) as nat, m)
                &&& d.g_coset_val() == F::generator_spec()
                &&& d.g_coset_inv_val() == pow_mod(F::generator_spec(), (m - 2) as nat, m)
            },
    {
        let adicity = F::two_adicity();
        if !(1 <= k && (k as u64) + 2 <= adicity && adicity < 32) {
            return Err(Error::IncompatibleParams);
        }
        let mut n: u64 = 1;
        let mut i: u32 = 0;
        proof {
            assert(pow2(0) == 1) by {
                vstd::arithmetic::power2::lemma2_to64();
            };
        }
        while i < k
            invariant
                i <= k,
                k < 32,
                n == pow2(i as nat),
                n < 0x8000000000000000,
            decreases k - i,
        {
            proof {
                lemma_pow2_unfold((i + 1) as nat);
                lemma_pow2_strictly_increases((i + 1) as nat, 32);
                assert(pow2(32) == 0x1_0000_0000) by {
                    vstd::arithmetic::power2::lemma2_to64();
                };
            }
            n = n * 2;
            i = i + 1;
        }
        proof {
            lemma_pow2_strictly_increases(k as nat, 32);
            vstd::arithmetic::power2::lemma_pow2_adds(k as nat, 2);
            assert(pow2(32) == 0x1_0000_0000 && pow2(2) == 4) by {
                vstd::arithmetic::power2::lemma2_to64();
            };
            lemma_pow2_strictly_increases((k + 2) as nat, 32);
            lemma_pow2_strictly_increases(0, k as nat);
        }
        let ext_n: u64 = n * 4;
        // Square the primitive 2^adicity root down to the extended size, then
        // twice more down to the base size.
        proof {
            F::modulus_facts();
        }
        let ghost m: nat = F::modulus();
        let root = F::root_of_unity();
        root.reduced();
        let ghost r0: int = root.val() as int;
        let mut ext_omega = root;
        let steps: u64 = adicity - (k as u64) - 2;
        let mut j: u64 = 0;
        proof {
            lemma2_to64();
            lemma_pow1(r0);
            lemma_small_mod(root.val(), m);
        }
        while j < steps
            invariant
                2 < m,
                m == F::modulus(),
                j <= steps,
                r0 == F::root_spec(),
                ext_omega.val() == pow_mod(F::root_spec(), pow2(j as nat), m),
            decreases steps - j,
        {
            let ghost t: nat = j as nat;
            let ghost q: int = pow(r0, pow2(t));
            ext_omega = ext_omega.square();
            j = j + 1;
            proof {
                lemma_pow2_adds(t, 1);
                lemma2_to64();
                lemma_mul_mod_noop_general(q, q, m as int);
                lemma_pow_adds(r0, pow2(t), pow2(t));
            }
        }
        let omega = ext_omega.square().square();
        proof {
            let s0: nat = steps as nat;
            let q1: int = pow(r0, pow2(s0));
            lemma_pow2_adds(s0, 1);
            lemma_pow2_adds((s0 + 1) as nat, 1);
            lemma2_to64();
            lemma_mul_mod_noop_general(q1, q1, m as int);
            lemma_pow_adds(r0, pow2(s0), pow2(s0));
            let q2: int = pow(r0, pow2((s0 + 1) as nat));
            lemma_mul_mod_noop_general(q2, q2, m as int);
            lemma_pow_adds(r0, pow2((s0 + 1) as nat), pow2((s0 + 1) as nat));
            assert((F::adicity_spec() - k) as nat == s0 + 2);
        }
        let omega_inv = invert(omega);
        let ext_omega_inv = invert(ext_omega);
        let n_inv = invert(F::from_u64(n));
        let ext_n_inv = invert(F::from_u64(ext_n));
        let g_coset = F::generator();
        let g_coset_inv = invert(g_coset);
        Ok(
            EvaluationDomain {
                k,
                n,
                ext_n,
                omega,
                omega_inv,
                ext_omega,
                ext_omega_inv,
                n_inv,
                g_coset,
                g_coset_inv,
                ext_n_inv,
            },
        )
    }

    /// The number of rows, as a vector length.
    pub fn n_usize(&self) -> (r: usize)
        ensures
            r as nat == self.n_spec(),
            2 <= r,
    {
        proof {
            use_type_invariant(self);
        }
        self.n as usize
    }

    /// The extended domain's size, as a vector length.
    pub fn ext_n_usize(&self) -> (r: usize)
        ensures
            r as nat == self.ext_n_spec(),
            8 <= r,
            self.ext_n_spec() == 4 * self.n_spec(),
    {
        proof {
            use_type_invariant(self);
        }
        self.ext_n as usize
    }

    /// The number of rows.
    pub fn n(&self) -> (r: u64)
        ensures
            r as nat == self.n_spec(),
    {
        self.n
    }

    /// The extended domain's size.
    pub fn ext_n(&self) -> (r: u64)
        ensures
            r as nat == self.ext_n_spec(),
    {
        self.ext_n
    }

    /// The base domain's generator.
    pub fn omega(&self) -> (r: F)
        ensures
            r.val() == self.omega_val(),
    {
        self.omega
    }

    /// Row values to coefficients: the inverse transform on the base domain.
    /// The i-th coefficient is 1/n times the evaluation of the value
    /// polynomial at omega^(-i).
    pub fn interpolate(&self, values: &Vec<F>) -> (r: Vec<F>)
        requires
            values@.len() == self.n_spec(),
        ensures
            r@.len() == self.n_spec(),
            forall|i: int|
                0 <= i < r@.len() ==> r@[i].val() == fmul(
                    F::modulus(),
                    self.n_inv_val(),
                    poly_eval(
                        vals(values@),
                        pow_mod(self.omega_inv_val(), i as nat, F::modulus()),
                        F::modulus(),
                    ),
                ),
    {
        let u = transform(values, self.omega_inv, values.len());
        let mut out: Vec<F> = Vec::new();
        let mut i: usize = 0;
        while i < u.len()
            invariant
                i <= u.len(),
                u@.len() == values@.len(),
                out@.len() == i,
                forall|j: int|
                    0 <= j < i ==> out@[j].val() == fmul(F::modulus(), self.n_inv_val(), u@[j].val()),
                forall|j: int|
                    0 <= j < u@.len() ==> u@[j].val() == poly_eval(
                        vals(values@),
                        pow_mod(self.omega_inv_val(), j as nat, F::modulus()),
                        F::modulus(),
                    ),
            decreases u.len() - i,
        {
            out.push(self.n_inv.mul(u[i]));
            i = i + 1;
        }
        out
    }

    /// Coefficients to evaluations over the base domain.
    pub fn evaluate_on_domain(&self, coeffs: &Vec<F>) -> (r: Vec<F>)
        ensures
            r@.len() == self.n_spec(),
            forall|i: int|
                0 <= i < r@.len() ==> r@[i].val() == poly_eval(
                    vals(coeffs@),
                    pow_mod(self.omega_val(), i as nat, F::modulus()),
                    F::modulus(),
                ),
    {
        proof {
            use_type_invariant(self);
        }
        transform(coeffs, self.omega, self.n as usize)
    }

    /// Coefficients to evaluations over the extended coset domain: scale the
    /// i-th coefficient by g^i (moving evaluation onto the coset g·H), pad to
    /// the extended size, and transform by the extended root.
    pub fn coeff_to_extended(&self, coeffs: &Vec<F>) -> (r: Vec<F>)
        requires
            coeffs@.len() <= self.ext_n_spec(),
        ensures
            r@.len() == self.ext_n_spec(),
            forall|i: int|
                0 <= i < r@.len() ==> r@[i].val() == poly_eval(
                    coset_scaled(vals(coeffs@), self.g_coset_val(), F::modulus()).add(
                        zero_pad((self.ext_n_spec() - coeffs@.len()) as nat),
                    ),
                    pow_mod(self.ext_omega_val(), i as nat, F::modulus()),
                    F::modulus(),
                ),
    {
        proof {
            F::modulus_facts();
            use_type_invariant(self);
        }
        let ghost m: nat = F::modulus();
        let ghost target: Seq<nat> = coset_scaled(vals(coeffs@), self.g_coset_val(), m).add(
            zero_pad((self.ext_n_spec() - coeffs@.len()) as nat),
        );
        let mut shifted: Vec<F> = Vec::new();
        let mut cur = F::one();
        let mut i: usize = 0;
        proof {
            lemma_pow0(self.g_coset.val() as int);
            lemma_small_mod(1, m);
        }
        while i < coeffs.len()
            invariant
                2 < m,
                m == F::modulus(),
                i <= coeffs.len(),
                shifted@.len() == i,
                cur.val() == pow_mod(self.g_coset_val(), i as nat, m),
                forall|j: int|
                    0 <= j < i ==> shifted@[j].val() == fmul(
                        m,
                        coeffs@[j].val(),
                        pow_mod(self.g_coset_val(), j as nat, m),
                    ),
            decreases coeffs.len() - i,
        {
            shifted.push(coeffs[i].mul(cur));
            cur = cur.mul(self.g_coset);
            i = i + 1;
            proof {
                lemma_pow_mod_step(self.g_coset_val(), (i - 1) as nat, m);
            }
        }
        let zero = F::zero();
        while shifted.len() < self.ext_n as usize
            invariant
                2 < m,
                m == F::modulus(),
                coeffs@.len() <= shifted@.len() <= self.ext_n_spec(),
                forall|j: int|
                    0 <= j < coeffs@.len() ==> shifted@[j].val() == fmul(
                        m,
                        coeffs@[j].val(),
                        pow_mod(self.g_coset_val(), j as nat, m),
                    ),
                forall|j: int| coeffs@.len() <= j < shifted@.len() ==> shifted@[j].val() == 0,
                zero.val() == 0,
            decreases self.ext_n_spec() - shifted@.len(),
        {
            shifted.push(zero);
        }
        proof {
            assert(vals(shifted@) =~= target);
        }
        transform(&shifted, self.ext_omega, self.ext_n as usize)
    }

    /// Evaluations over the extended coset domain back to coefficients: the
    /// inverse transform scaled by 1/ext_n, then the coset shift undone by
    /// scaling the i-th coefficient by g^(-i).
    pub fn extended_to_coeff(&self, evals: &Vec<F>) -> (r: Vec<F>)
        requires
            evals@.len() == self.ext_n_spec(),
        ensures
            r@.len() == self.ext_n_spec(),
            forall|i: int|
                0 <= i < r@.len() ==> r@[i].val() == fmul(
                    F::modulus(),
                    fmul(
                        F::modulus(),
                        self.ext_n_inv_val(),
                        poly_eval(
                            vals(evals@),
                            pow_mod(self.ext_omega_inv_val(), i as nat, F::modulus()),
                            F::modulus(),
                        ),
                    ),
                    pow_mod(self.g_coset_inv_val(), i as nat, F::modulus()),
                ),
    {
        proof {
            F::modulus_facts();
        }
        let ghost m: nat = F::modulus();
        let u = transform(evals, self.ext_omega_inv, evals.len());
        let mut out: Vec<F> = Vec::new();
        let mut cur = F::one();
        let mut i: usize = 0;
        proof {
            lemma_pow0(self.g_coset_inv.val() as int);
            lemma_small_mod(1, m);
        }
        while i < u.len()
            invariant
                2 < m,
                m == F::modulus(),
                i <= u.len(),
                u@.len() == evals@.len(),
                out@.len() == i,
                cur.val() == pow_mod(self.g_coset_inv_val(), i as nat, m),
                forall|j: int|
                    0 <= j < u@.len() ==> u@[j].val() == poly_eval(
                        vals(evals@),
                        pow_mod(self.ext_omega_inv_val(), j as nat, m),
                        m,
                    ),
                forall|j: int|
                    0 <= j < i ==> out@[j].val() == fmul(
                        m,
                        fmul(m, self.ext_n_inv_val(), u@[j].val()),
                        pow_mod(self.g_coset_inv_val(), j as nat, m),
                    ),
            decreases u.len() - i,
        {
            out.push(self.ext_n_inv.mul(u[i]).mul(cur));
            cur = cur.mul(self.g_coset_inv);
            i = i + 1;
            proof {
                lemma_pow_mod_step(self.g_coset_inv_val(), (i - 1) as nat, m);
            }
        }
        out
    }
}

} // verus!
