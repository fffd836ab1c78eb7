//! Field and curve-point abstractions: the prime fields the protocol works
//! over, exact modular-arithmetic contracts for every operation, and the
//! affine-point interface that commitments are expressed through.

use vstd::prelude::*;
use vstd::arithmetic::power::*;
use vstd::arithmetic::power2::*;
use vstd::arithmetic::div_mod::*;
use vstd::arithmetic::mul::*;

verus! {

/// Modulus of the scalar field `Fp`: 2^31 - 2^27 + 1, a prime whose
/// multiplicative group has 2-adicity 27 (generator 31).
pub const P_MODULUS: u64 = 2013265921;

/// Modulus of the base field `Fq`: the Mersenne prime 2^31 - 1.
pub const Q_MODULUS: u64 = 2147483647;

/// b^e mod m over the mathematical integers.
pub open spec fn pow_mod(b: nat, e: nat, m: nat) -> nat {
    (pow(b as int, e) % (m as int)) as nat
}

/// (a + b) mod m.
pub open spec fn fadd(m: nat, a: nat, b: nat) -> nat {
    (((a + b) as int) % (m as int)) as nat
}

/// (a * b) mod m.
pub open spec fn fmul(m: nat, a: nat, b: nat) -> nat {
    (((a * b) as int) % (m as int)) as nat
}

/// (a - b) mod m, for a, b already reduced.
pub open spec fn fsub(m: nat, a: nat, b: nat) -> nat {
    (((a + m - b) as int) % (m as int)) as nat
}

/// The value of a little-endian 4-limb exponent, high limbs first in the
/// recursion: limbs i..4 of `s` read as s[i] + 2^64 * (value of limbs i+1..4).
pub open spec fn limbs_high_val(s: Seq<u64>, i: int) -> nat
    decreases 4 - i,
{
    if i < 0 || i >= 4 {
        0
    } else {
        limbs_high_val(s, i + 1) * pow2(64) + (s[i] as nat)
    }
}

/// The residues of a sequence of field elements.
pub open spec fn vals<F: Field>(v: Seq<F>) -> Seq<nat> {
    v.map_values(|x: F| x.val())
}

/// The value of a 4-limb little-endian exponent.
pub open spec fn limbs_val(s: Seq<u64>) -> nat {
    limbs_high_val(s, 0)
}

/// A prime field, presented through an exact view: `val` is the represented
/// residue and every operation's contract states its result modulo `modulus`.
pub trait Field: Sized + Copy {
    /// The field's prime modulus.
    spec fn modulus() -> nat;

    /// The residue this element represents, always below `modulus`.
    spec fn val(self) -> nat;

    /// The residue of the fixed primitive 2^`two_adicity`-th root of unity.
    spec fn root_spec() -> nat;

    /// The residue of the fixed multiplicative generator.
    spec fn generator_spec() -> nat;

    /// Every modulus in use is a prime above 2 that fits in 32 bits.
    proof fn modulus_facts()
        ensures
            2 < Self::modulus() < 0x1_0000_0000,
    ;

    /// Every reachable element is reduced; calling this makes that fact
    /// available to the caller.
    fn reduced(self)
        ensures
            self.val() < Self::modulus(),
    ;

    fn zero() -> (r: Self)
        ensures
            r.val() == 0,
    ;

    fn one() -> (r: Self)
        ensures
            r.val() == 1,
    ;

    fn from_u64(x: u64) -> (r: Self)
        ensures
            r.val() == x as nat % Self::modulus(),
    ;

    fn as_u64(self) -> (r: u64)
        ensures
            r as nat == self.val(),
    ;

    fn equals(self, o: Self) -> (r: bool)
        ensures
            r <==> self.val() == o.val(),
    ;

    fn add(self, o: Self) -> (r: Self)
        ensures
            r.val() == fadd(Self::modulus(), self.val(), o.val()),
    ;

    fn sub(self, o: Self) -> (r: Self)
        ensures
            r.val() == fsub(Self::modulus(), self.val(), o.val()),
    ;

    fn neg(self) -> (r: Self)
        ensures
            r.val() == fsub(Self::modulus(), 0, self.val()),
    ;

    fn mul(self, o: Self) -> (r: Self)
        ensures
            r.val() == fmul(Self::modulus(), self.val(), o.val()),
    ;

    fn square(self) -> (r: Self)
        ensures
            r.val() == fmul(Self::modulus(), self.val(), self.val()),
    ;

    /// The modulus as a machine word.
    fn modulus_u64() -> (r: u64)
        ensures
            r as nat == Self::modulus(),
    ;

    /// A primitive 2^`two_adicity`-th root of unity.
    fn root_of_unity() -> (r: Self)
        ensures
            r.val() == Self::root_spec(),
    ;

    /// A fixed generator of the multiplicative group.
    fn generator() -> (r: Self)
        ensures
            r.val() == Self::generator_spec(),
    ;

    /// The largest k such that 2^k divides `modulus` - 1.
    spec fn adicity_spec() -> nat;

    /// The largest k such that 2^k divides `modulus` - 1.
    fn two_adicity() -> (r: u64)
        ensures
            r as nat == Self::adicity_spec(),
    ;
}

/// pow keeps a nonnegative base nonnegative.
pub proof fn lemma_pow_nonneg(b: int, e: nat)
    requires
        b >= 0,
    ensures
        pow(b, e) >= 0,
    decreases e,
{
    reveal(pow);
    if e > 0 {
        lemma_pow_nonneg(b, (e - 1) as nat);
        lemma_mul_nonnegative(b, pow(b, (e - 1) as nat));
    }
}

/// pow_mod advances by one multiplication per unit of exponent.
pub proof fn lemma_pow_mod_step(b: nat, e: nat, m: nat)
    requires
        m > 0,
    ensures
        pow_mod(b, e + 1, m) == fmul(m, pow_mod(b, e, m), b),
{
    lemma_pow_adds(b as int, e, 1);
    lemma_pow1(b as int);
    lemma_pow_nonneg(b as int, e);
    lemma_mul_mod_noop_general(pow(b as int, e), b as int, m as int);
}

/// A factor of a product may be replaced, modulo m, by anything congruent.
pub proof fn lemma_mul_mod_sub_right(x: int, y1: int, y2: int, m: int)
    requires
        m > 0,
        y1 % m == y2 % m,
    ensures
        (x * y1) % m == (x * y2) % m,
{
    lemma_mul_mod_noop_general(x, y1, m);
    lemma_mul_mod_noop_general(x, y2, m);
}

/// Symmetric form of `lemma_mul_mod_sub_right` for the left factor.
pub proof fn lemma_mul_mod_sub_left(x1: int, x2: int, y: int, m: int)
    requires
        m > 0,
        x1 % m == x2 % m,
    ensures
        (x1 * y) % m == (x2 * y) % m,
{
    lemma_mul_mod_noop_general(x1, y, m);
    lemma_mul_mod_noop_general(x2, y, m);
}

/// An element of the scalar field: a residue modulo `P_MODULUS`.
#[derive(Clone, Copy, Debug, PartialEq, Eq, Structural)]
pub struct Fp {
    v: u64,
}

impl Fp {
    #[verifier::type_invariant]
    spec fn inv(self) -> bool {
        self.v < P_MODULUS
    }

    /// Raise to a 256-bit exponent given as four little-endian limbs.
    pub fn pow(self, e: &[u64; 4]) -> (r: Fp)
        ensures
            r.val() == pow_mod(self.val(), limbs_val(e@), P_MODULUS as nat),
    {
        pow_limbs(self, e)
    }
}

/// An element of the base field: a residue modulo `Q_MODULUS`.
#[derive(Clone, Copy, Debug, PartialEq, Eq, Structural)]
pub struct Fq {
    v: u64,
}

impl Fq {
    #[verifier::type_invariant]
    spec fn inv(self) -> bool {
        self.v < Q_MODULUS
    }
}

/// Shared square-and-multiply exponentiation over any `Field`, processing the
/// exponent bit by bit from the low end.
pub fn pow_u64<F: Field>(x: F, e: u64) -> (r: F)
    ensures
        r.val() == pow_mod(x.val(), e as nat, F::modulus()),
{
    proof {
        F::modulus_facts();
    }
    x.reduced();
    let ghost m: int = F::modulus() as int;
    let mut result = F::one();
    let mut base = x;
    let mut exp: u64 = e;
    proof {
        lemma_pow0(base.val() as int);
        lemma_pow_nonneg(x.val() as int, e as nat);
        assert((1 * pow(base.val() as int, exp as nat)) % m == pow(x.val() as int, e as nat) % m);
    }
    while exp > 0
        invariant
            2 < m,
            m == F::modulus(),
            result.val() < m,
            base.val() < m,
            (result.val() * pow(base.val() as int, exp as nat)) % m == pow(
                x.val() as int,
                e as nat,
            ) % m,
        decreases exp,
    {
        let ghost r0: int = result.val() as int;
        let ghost b0: int = base.val() as int;
        let ghost e0: nat = exp as nat;
        let bit = exp & 1;
        let half = exp >> 1;
        proof {
            assert(exp == 2 * (exp >> 1) + (exp & 1) && (exp & 1) < 2 && (exp >> 1) < exp)
                by (bit_vector)
                requires
                    exp > 0,
            ;
        }
        if bit == 1 {
            result = result.mul(base);
        }
        base = base.square();
        exp = half;
        proof {
            let e2: nat = exp as nat;
            // The squared base, reduced, raises to the same power mod m.
            lemma_pow_mod_noop(b0 * b0, e2, m);
            assert(base.val() as int == (b0 * b0) % m);
            lemma_mul_mod_sub_right(result.val() as int, pow((b0 * b0) % m, e2), pow(b0 * b0, e2), m);
            assert((result.val() * pow(base.val() as int, e2)) % m
                == (result.val() * pow(b0 * b0, e2)) % m);
            if bit == 1 {
                // e0 == 2 * e2 + 1, and result picked up one factor of b0.
                lemma_small_mod(result.val(), m as nat);
                lemma_mod_bound(r0 * b0, m);
                lemma_mul_mod_sub_left(result.val() as int, r0 * b0, pow(b0 * b0, e2), m);
                assert(b0 * pow(b0 * b0, e2) == pow(b0, e0)) by {
                    lemma_pow_adds(b0, (2 * e2) as nat, 1nat);
                    lemma_pow1(b0);
                    lemma_pow_multiplies(b0, 2, e2);
                    lemma_square_is_pow2(b0);
                    assert(pow(b0, e0) == pow(b0 * b0, e2) * b0);
                    assert(pow(b0 * b0, e2) * b0 == b0 * pow(b0 * b0, e2)) by (nonlinear_arith);
                };
                assert((r0 * b0) * pow(b0 * b0, e2) == r0 * pow(b0, e0)) by {
                    assert((r0 * b0) * pow(b0 * b0, e2) == r0 * (b0 * pow(b0 * b0, e2)))
                        by (nonlinear_arith);
                };
            } else {
                // e0 == 2 * e2, and the result is unchanged.
                assert(pow(b0 * b0, e2) == pow(b0, e0)) by {
                    lemma_pow_adds(b0, (2 * e2) as nat, 0nat);
                    lemma_pow0(b0);
                    lemma_pow_multiplies(b0, 2, e2);
                    lemma_square_is_pow2(b0);
                };
            }
        }
    }
    proof {
        lemma_pow0(base.val() as int);
        assert(result.val() as int % m == pow(x.val() as int, e as nat) % m);
        lemma_small_mod(result.val(), m as nat);
    }
    result
}

/// x^(2^64), by 64 squarings.
fn pow_two_64_impl<F: Field>(x: F) -> (r: F)
    ensures
        r.val() == pow_mod(x.val(), pow2(64), F::modulus()),
{
    proof {
        F::modulus_facts();
    }
    x.reduced();
    let ghost m: int = F::modulus() as int;
    let ghost x0: int = x.val() as int;
    let mut acc = x;
    let mut i: u64 = 0;
    proof {
        lemma2_to64();
        lemma_pow1(x0);
        lemma_pow_nonneg(x0, 1);
        lemma_small_mod(x.val(), m as nat);
    }
    while i < 64
        invariant
            2 < m,
            m == F::modulus(),
            i <= 64,
            x0 >= 0,
            acc.val() < m,
            acc.val() == pow(x0, pow2(i as nat)) % m,
        decreases 64 - i,
    {
        let ghost a0: int = acc.val() as int;
        let ghost i0: nat = i as nat;
        acc = acc.square();
        i = i + 1;
        proof {
            let q: int = pow(x0, pow2(i0));
            lemma_pow2_adds(i0, 1);
            lemma2_to64();
            // Squaring the reduced accumulator squares the power mod m.
            lemma_mul_mod_noop_general(q, q, m);
            assert(acc.val() as int == (a0 * a0) % m);
            assert(a0 == q % m);
            assert((a0 * a0) % m == (q * q) % m);
            lemma_pow_adds(x0, pow2(i0), pow2(i0));
            assert(q * q == pow(x0, (pow2(i0) + pow2(i0)) as nat));
            assert(pow2((i0 + 1) as nat) == pow2(i0) * pow2(1nat));
            assert(pow2((i0 + 1) as nat) == pow2(i0) + pow2(i0));
        }
    }
    acc
}

/// Shared 4-limb exponentiation: fold the limbs in from the top, shifting the
/// accumulated exponent by 64 bits per limb.
pub fn pow_limbs<F: Field>(x: F, e: &[u64; 4]) -> (r: F)
    ensures
        r.val() == pow_mod(x.val(), limbs_val(e@), F::modulus()),
{
    proof {
        F::modulus_facts();
    }
    x.reduced();
    let ghost m: int = F::modulus() as int;
    let ghost x0: int = x.val() as int;
    let mut acc = F::one();
    let mut i: usize = 4;
    proof {
        lemma_pow0(x0);
        lemma_small_mod(1, m as nat);
    }
    while i > 0
        invariant
            2 < m,
            m == F::modulus(),
            i <= 4,
            x.val() == x0,
            acc.val() < m,
            acc.val() == pow(x0, limbs_high_val(e@, i as int)) % m,
        decreases i,
    {
        i = i - 1;
        let ghost hi: nat = limbs_high_val(e@, i as int + 1);
        let mid = pow_two_64_impl(acc);
        let p = pow_u64(x, e[i]);
        acc = mid.mul(p);
        proof {
            let en: nat = e@[i as int] as nat;
            let hi_shift: int = pow(x0, (hi * pow2(64)) as nat);
            // The accumulator, raised to 2^64, carries the shifted exponent.
            lemma_pow_mod_noop(pow(x0, hi), pow2(64), m);
            lemma_pow_multiplies(x0, hi, pow2(64));
            assert(mid.val() as int == pow((pow(x0, hi)) % m, pow2(64)) % m);
            assert(mid.val() as int == hi_shift % m);
            // Fold in the low limb.
            lemma_mod_bound(hi_shift, m);
            lemma_small_mod(mid.val(), m as nat);
            lemma_mul_mod_sub_left(mid.val() as int, hi_shift, p.val() as int, m);
            lemma_pow_nonneg(x0, en);
            lemma_mod_bound(pow(x0, en), m);
            lemma_small_mod(p.val(), m as nat);
            lemma_mul_mod_sub_right(hi_shift, p.val() as int, pow(x0, en), m);
            lemma_pow_adds(x0, (hi * pow2(64)) as nat, en);
            assert(limbs_high_val(e@, i as int) == hi * pow2(64) + en);
        }
    }
    acc
}

/// The multiplicative inverse as the Fermat power x^(m-2); zero maps to zero.
pub fn invert<F: Field>(x: F) -> (r: F)
    ensures
        r.val() == pow_mod(x.val(), (F::modulus() - 2) as nat, F::modulus()),
{
    proof {
        F::modulus_facts();
    }
    let m = F::modulus_u64();
    pow_u64(x, m - 2)
}

impl Field for Fp {
    open spec fn modulus() -> nat {
        P_MODULUS as nat
    }

    closed spec fn val(self) -> nat {
        self.v as nat
    }

    open spec fn root_spec() -> nat {
        pow_mod(31, 15, P_MODULUS as nat)
    }

    open spec fn generator_spec() -> nat {
        31
    }

    open spec fn adicity_spec() -> nat {
        27
    }

    proof fn modulus_facts() {
    }

    fn reduced(self) {
        proof {
            use_type_invariant(self);
        }
    }

    fn zero() -> (r: Self) {
        Fp { v: 0 }
    }

    fn one() -> (r: Self) {
        Fp { v: 1 }
    }

    fn from_u64(x: u64) -> (r: Self) {
        Fp { v: x % P_MODULUS }
    }

    fn as_u64(self) -> (r: u64) {
        self.v
    }

    fn equals(self, o: Self) -> (r: bool) {
        self.v == o.v
    }

    fn add(self, o: Self) -> (r: Self) {
        proof {
            use_type_invariant(self);
            use_type_invariant(o);
        }
        Fp { v: (self.v + o.v) % P_MODULUS }
    }

    fn sub(self, o: Self) -> (r: Self) {
        proof {
            use_type_invariant(self);
            use_type_invariant(o);
        }
        Fp { v: (self.v + P_MODULUS - o.v) % P_MODULUS }
    }

    fn neg(self) -> (r: Self) {
        proof {
            use_type_invariant(self);
        }
        Fp { v: (P_MODULUS - self.v) % P_MODULUS }
    }

    fn mul(self, o: Self) -> (r: Self) {
        proof {
            use_type_invariant(self);
            use_type_invariant(o);
            assert(self.v as int * o.v as int <= (P_MODULUS - 1) as int * (P_MODULUS - 1) as int)
                by (nonlinear_arith)
                requires
                    self.v < P_MODULUS,
                    o.v < P_MODULUS,
            ;
        }
        Fp { v: (self.v * o.v) % P_MODULUS }
    }

    fn square(self) -> (r: Self) {
        self.mul(self)
    }

    fn root_of_unity() -> (r: Self) {
        proof {
            reveal_with_fuel(pow, 16);
            assert(pow(31, 15) == 23465261991844685929951int);
        }
        Fp { v: 440564289 }
    }

    fn generator() -> (r: Self) {
        Fp { v: 31 }
    }

    fn two_adicity() -> u64 {
        27
    }

    fn modulus_u64() -> (r: u64) {
        P_MODULUS
    }
}

impl Field for Fq {
    open spec fn modulus() -> nat {
        Q_MODULUS as nat
    }

    closed spec fn val(self) -> nat {
        self.v as nat
    }

    open spec fn root_spec() -> nat {
        (Q_MODULUS - 1) as nat
    }

    open spec fn generator_spec() -> nat {
        7
    }

    open spec fn adicity_spec() -> nat {
        1
    }

    proof fn modulus_facts() {
    }

    fn reduced(self) {
        proof {
            use_type_invariant(self);
        }
    }

    fn zero() -> (r: Self) {
        Fq { v: 0 }
    }

    fn one() -> (r: Self) {
        Fq { v: 1 }
    }

    fn from_u64(x: u64) -> (r: Self) {
        Fq { v: x % Q_MODULUS }
    }

    fn as_u64(self) -> (r: u64) {
        self.v
    }

    fn equals(self, o: Self) -> (r: bool) {
        self.v == o.v
    }

    fn add(self, o: Self) -> (r: Self) {
        proof {
            use_type_invariant(self);
            use_type_invariant(o);
        }
        Fq { v: (self.v + o.v) % Q_MODULUS }
    }

    fn sub(self, o: Self) -> (r: Self) {
        proof {
            use_type_invariant(self);
            use_type_invariant(o);
        }
        Fq { v: (self.v + Q_MODULUS - o.v) % Q_MODULUS }
    }

    fn neg(self) -> (r: Self) {
        proof {
            use_type_invariant(self);
        }
        Fq { v: (Q_MODULUS - self.v) % Q_MODULUS }
    }

    fn mul(self, o: Self) -> (r: Self) {
        proof {
            use_type_invariant(self);
            use_type_invariant(o);
            assert(self.v as int * o.v as int <= (Q_MODULUS - 1) as int * (Q_MODULUS - 1) as int)
                by (nonlinear_arith)
                requires
                    self.v < Q_MODULUS,
                    o.v < Q_MODULUS,
            ;
        }
        Fq { v: (self.v * o.v) % Q_MODULUS }
    }

    fn square(self) -> (r: Self) {
        self.mul(self)
    }

    fn root_of_unity() -> (r: Self) {
        Fq { v: Q_MODULUS - 1 }
    }

    fn generator() -> (r: Self) {
        Fq { v: 7 }
    }

    fn two_adicity() -> u64 {
        1
    }

    fn modulus_u64() -> (r: u64) {
        Q_MODULUS
    }
}

/// An affine point over a base field, carrying a scalar field for the values
/// committed to. The identity has no coordinates.
pub trait CurveAffine: Sized + Copy {
    type Scalar: Field;

    type Base: Field;

    /// Whether this is the identity (the point at infinity).
    spec fn is_identity_spec(self) -> bool;

    /// The x-coordinate's residue, meaningful when not the identity.
    spec fn x_val(self) -> nat;

    /// The y-coordinate's residue, meaningful when not the identity.
    spec fn y_val(self) -> nat;

    /// The coordinates, or `None` for the identity.
    fn get_xy(&self) -> (r: Option<(Self::Base, Self::Base)>)
        ensures
            r.is_some() <==> !self.is_identity_spec(),
            r.is_some() ==> r.unwrap().0.val() == self.x_val() && r.unwrap().1.val()
                == self.y_val(),
    ;

    /// The point with the given coordinates.
    fn from_xy(x: Self::Base, y: Self::Base) -> (r: Self)
        ensures
            !r.is_identity_spec(),
            r.x_val() == x.val(),
            r.y_val() == y.val(),
    ;

    fn point_eq(self, o: Self) -> (r: bool)
        ensures
            r <==> (self.is_identity_spec() == o.is_identity_spec() && (!self.is_identity_spec()
                ==> self.x_val() == o.x_val() && self.y_val() == o.y_val())),
    ;
}

/// The concrete point type commitments use: base-field coordinates plus an
/// identity flag.
#[derive(Clone, Copy, Debug, PartialEq, Eq, Structural)]
pub struct EqAffine {
    x: Fq,
    y: Fq,
    infinity: bool,
}

impl CurveAffine for EqAffine {
    type Scalar = Fp;

    type Base = Fq;

    closed spec fn is_identity_spec(self) -> bool {
        self.infinity
    }

    closed spec fn x_val(self) -> nat {
        self.x.val()
    }

    closed spec fn y_val(self) -> nat {
        self.y.val()
    }

    fn get_xy(&self) -> (r: Option<(Fq, Fq)>) {
        if self.infinity {
            None
        } else {
            Some((self.x, self.y))
        }
    }

    fn from_xy(x: Fq, y: Fq) -> (r: Self) {
        EqAffine { x, y, infinity: false }
    }

    fn point_eq(self, o: Self) -> (r: bool) {
        if self.infinity || o.infinity {
            self.infinity == o.infinity
        } else {
            self.infinity == o.infinity && self.x.equals(o.x) && self.y.equals(o.y)
        }
    }
}

} // verus!
