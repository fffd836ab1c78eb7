//! The protocol layer: the error taxonomy, the structured reference string
//! derived deterministically from a circuit's shape, the prover and the
//! verifier with its deferred final check.

use vstd::prelude::*;
use crate::arithmetic::CurveAffine;
use crate::arithmetic::Field;
use crate::arithmetic::fadd;
use crate::arithmetic::fmul;
use crate::arithmetic::fsub;
use crate::arithmetic::vals;
use crate::arithmetic::invert;
use crate::arithmetic::pow_u64;
use crate::arithmetic::pow_mod;
use crate::circuit::Advice;
use crate::circuit::Assignment;
use crate::circuit::Circuit;
use crate::circuit::Column;
use crate::circuit::ConstraintSystem;
use crate::circuit::Expression;
use crate::circuit::expr_eval;
use crate::circuit::table_map;
use crate::circuit::wiring_swap;
use crate::circuit::Fixed;
use crate::domain::EvaluationDomain;
use crate::domain::eval_at;
use crate::polycommit::OpeningProof;
use crate::polycommit::commit_x;
use crate::polycommit::commit_y;
use crate::polycommit::Params;
use crate::polycommit::commit;
use crate::transcript::Hasher;

verus! {

/// An error that can occur during proving or circuit synthesis.
#[derive(Clone, Copy, Debug, PartialEq, Eq, Structural)]
pub enum Error {
    /// Synthesis failed: the witness was unavailable or a value closure
    /// failed. Recoverable: the caller may retry with a corrected witness.
    SynthesisError,
    /// The reference string or the parameters do not fit the circuit being
    /// synthesized. Fatal: indicates caller misuse.
    IncompatibleParams,
    /// The constraint system is not satisfied; surfaced only by verification.
    ConstraintSystemFailure,
}

/// Absorb a point's coordinates into the transcript; the identity, having no
/// coordinates, is refused and the transcript is left untouched.
pub fn hash_point<C: CurveAffine, H: Hasher<C::Base>>(transcript: &mut H, point: &C) -> (r: Result<
    (),
    Error,
>)
    ensures
        r.is_ok() <==> !point.is_identity_spec(),
        r.is_ok() ==> final(transcript).state() == H::absorb_spec(
            H::absorb_spec(old(transcript).state(), point.x_val()),
            point.y_val(),
        ),
        r.is_err() ==> final(transcript).state() == old(transcript).state(),
        r matches Err(e) ==> e == Error::SynthesisError,
{
    let tmp = point.get_xy();
    if tmp.is_none() {
        return Err(Error::SynthesisError);
    }
    let (x, y) = tmp.unwrap();
    transcript.absorb(x);
    transcript.absorb(y);
    Ok(())
}

/// A bounds-guarded read: the element at i, or zero past the end. The
/// protocol reads every synthesis-influenced table through this, so no input
/// shape can make it panic.
fn at<F: Field>(v: &Vec<F>, i: usize) -> (r: F)
    ensures
        i < v@.len() ==> r == v@[i as int],
        i >= v@.len() ==> r.val() == 0,
{
    if i < v.len() {
        v[i]
    } else {
        F::zero()
    }
}

/// A bounds-guarded read of a table of columns.
fn at2<F: Field>(m: &Vec<Vec<F>>, c: usize, r: usize) -> (out: F)
    ensures
        c < m@.len() && r < m@[c as int]@.len() ==> out == m@[c as int]@[r as int],
        !(c < m@.len() && r < m@[c as int]@.len()) ==> out.val() == 0,
{
    if c < m.len() {
        at(&m[c], r)
    } else {
        F::zero()
    }
}

/// A cols × rows table of zeros.
fn zero_matrix<F: Field>(cols: usize, rows: usize) -> (r: Vec<Vec<F>>)
    ensures
        r@.len() == cols,
        forall|i: int| 0 <= i < cols ==> (#[trigger] r@[i])@.len() == rows,
{
    let mut m: Vec<Vec<F>> = Vec::new();
    let mut i: usize = 0;
    while i < cols
        invariant
            i <= cols,
            m@.len() == i,
            forall|j: int| 0 <= j < i ==> (#[trigger] m@[j])@.len() == rows,
        decreases cols - i,
    {
        let mut col: Vec<F> = Vec::new();
        let mut j: usize = 0;
        let z = F::zero();
        while j < rows
            invariant
                j <= rows,
                col@.len() == j,
            decreases rows - j,
        {
            col.push(z);
            j = j + 1;
        }
        m.push(col);
        i = i + 1;
    }
    m
}

/// Copy a table into exactly cols × rows shape, padding with zeros and
/// dropping anything beyond: synthesis runs arbitrary circuit code, so the
/// table it hands back has no shape the protocol could rely on.
fn normalized<F: Field>(m: &Vec<Vec<F>>, cols: usize, rows: usize) -> (r: Vec<Vec<F>>)
    ensures
        r@.len() == cols,
        forall|i: int| 0 <= i < cols ==> (#[trigger] r@[i])@.len() == rows,
{
    let mut out: Vec<Vec<F>> = Vec::new();
    let mut i: usize = 0;
    while i < cols
        invariant
            i <= cols,
            out@.len() == i,
            forall|j: int| 0 <= j < i ==> (#[trigger] out@[j])@.len() == rows,
        decreases cols - i,
    {
        let mut col: Vec<F> = Vec::new();
        let mut j: usize = 0;
        while j < rows
            invariant
                j <= rows,
                col@.len() == j,
            decreases rows - j,
        {
            col.push(at2(m, i, j));
            j = j + 1;
        }
        out.push(col);
        i = i + 1;
    }
    out
}

/// Draw one scalar-field challenge from the base-field transcript.
fn get_challenge<C: CurveAffine, H: Hasher<C::Base>>(transcript: &mut H) -> (r: C::Scalar)
    ensures
        r.val() == H::squeeze_spec(old(transcript).state()) % <C::Scalar as Field>::modulus(),
        final(transcript).state() == H::after_squeeze_spec(old(transcript).state()),
{
    let c = transcript.squeeze();
    <C::Scalar as Field>::from_u64(c.as_u64())
}

/// The shape-only assembly key generation synthesizes against: it records
/// fixed-column values and the permutation wiring, and structurally cannot
/// invoke a witness closure — advice assignments only have their bounds
/// checked.
struct KeygenAssembly<F: Field> {
    rows: usize,
    fixed: Vec<Vec<F>>,
    // Per permutation group, per column in the group, per row: the cell's
    // image, as (column-in-group, row) — the current cycle decomposition of
    // the copy wiring.
    mapping: Vec<Vec<Vec<(usize, usize)>>>,
}

impl<F: Field> Assignment<F> for KeygenAssembly<F> {
    open spec fn shape_only() -> bool {
        true
    }

    closed spec fn advice_spec(self) -> Map<(usize, usize), nat> {
        Map::empty()
    }

    closed spec fn fixed_spec(self) -> Map<(usize, usize), nat> {
        table_map(self.fixed@)
    }

    closed spec fn wiring_spec(self) -> Seq<Seq<Seq<(usize, usize)>>> {
        Seq::new(
            self.mapping@.len(),
            |g: int| Seq::new(self.mapping@[g]@.len(), |c: int| self.mapping@[g]@[c]@),
        )
    }

    closed spec fn accepts_advice(self, column: usize, row: usize) -> bool {
        row < self.rows
    }

    closed spec fn accepts_fixed(self, column: usize, row: usize) -> bool {
        column < self.fixed@.len() && row < self.rows && row < self.fixed@[column as int]@.len()
    }

    closed spec fn accepts_copy(
        self,
        permutation: usize,
        left_column: usize,
        left_row: usize,
        right_column: usize,
        right_row: usize,
    ) -> bool {
        &&& permutation < self.mapping@.len()
        &&& left_column < self.mapping@[permutation as int]@.len()
        &&& left_row < self.mapping@[permutation as int]@[left_column as int]@.len()
        &&& right_column < self.mapping@[permutation as int]@.len()
        &&& right_row < self.mapping@[permutation as int]@[right_column as int]@.len()
    }

    fn assign_advice<V: FnOnce() -> Result<F, Error>>(
        &mut self,
        column: Column<Advice>,
        row: usize,
        to: V,
    ) -> (r: Result<(), Error>) {
        if row < self.rows {
            Ok(())
        } else {
            Err(Error::IncompatibleParams)
        }
    }

    fn assign_gate<V: FnOnce() -> Result<(F, F, F), Error>>(
        &mut self,
        a: Column<Advice>,
        b: Column<Advice>,
        c: Column<Advice>,
        row: usize,
        to: V,
    ) -> (r: Result<(), Error>) {
        if row < self.rows {
            Ok(())
        } else {
            Err(Error::IncompatibleParams)
        }
    }

    fn assign_fixed<V: FnOnce() -> Result<F, Error>>(
        &mut self,
        column: Column<Fixed>,
        row: usize,
        to: V,
    ) -> (r: Result<(), Error>) {
        let col = column.index();
        if col < self.fixed.len() && row < self.rows && row < self.fixed[col].len() {
            match to() {
                Ok(value) => {
                    self.fixed[col][row] = value;
                    proof {
                        assert(table_map(self.fixed@) =~= table_map(old(self).fixed@).insert(
                            (col, row),
                            value.val(),
                        ));
                    }
                    Ok(())
                },
                Err(e) => Err(e),
            }
        } else {
            Err(Error::IncompatibleParams)
        }
    }

    fn copy(
        &mut self,
        permutation: usize,
        left_column: usize,
        left_row: usize,
        right_column: usize,
        right_row: usize,
    ) -> (r: Result<(), Error>) {
        if permutation >= self.mapping.len() {
            return Err(Error::IncompatibleParams);
        }
        if left_column >= self.mapping[permutation].len() || right_column
            >= self.mapping[permutation].len() {
            return Err(Error::IncompatibleParams);
        }
        if left_row >= self.mapping[permutation][left_column].len() || right_row
            >= self.mapping[permutation][right_column].len() {
            return Err(Error::IncompatibleParams);
        }
        // Merge the two cells' cycles by exchanging their images.
        let left_entry = self.mapping[permutation][left_column][left_row];
        let right_entry = self.mapping[permutation][right_column][right_row];
        self.mapping[permutation][left_column][left_row] = right_entry;
        self.mapping[permutation][right_column][right_row] = left_entry;
        proof {
            assert(self.wiring_spec() =~~= wiring_swap(
                old(self).wiring_spec(),
                permutation as int,
                left_column as int,
                left_row as int,
                right_column as int,
                right_row as int,
            ));
        }
        Ok(())
    }
}

/// The value-carrying assembly the prover synthesizes against: it invokes
/// witness closures exactly when a cell needs its value, and records the
/// advice table. Fixed values and copy wiring are already in the reference
/// string, so those calls only check bounds.
struct WitnessAssembly<F: Field> {
    rows: usize,
    advice: Vec<Vec<F>>,
}

impl<F: Field> Assignment<F> for WitnessAssembly<F> {
    open spec fn shape_only() -> bool {
        false
    }

    closed spec fn advice_spec(self) -> Map<(usize, usize), nat> {
        table_map(self.advice@)
    }

    closed spec fn fixed_spec(self) -> Map<(usize, usize), nat> {
        Map::empty()
    }

    closed spec fn wiring_spec(self) -> Seq<Seq<Seq<(usize, usize)>>> {
        Seq::empty()
    }

    closed spec fn accepts_advice(self, column: usize, row: usize) -> bool {
        column < self.advice@.len() && row < self.rows && row < self.advice@[column as int]@.len()
    }

    closed spec fn accepts_fixed(self, column: usize, row: usize) -> bool {
        row < self.rows
    }

    closed spec fn accepts_copy(
        self,
        permutation: usize,
        left_column: usize,
        left_row: usize,
        right_column: usize,
        right_row: usize,
    ) -> bool {
        left_row < self.rows && right_row < self.rows
    }

    fn assign_advice<V: FnOnce() -> Result<F, Error>>(
        &mut self,
        column: Column<Advice>,
        row: usize,
        to: V,
    ) -> (r: Result<(), Error>) {
        let col = column.index();
        if col < self.advice.len() && row < self.rows && row < self.advice[col].len() {
            match to() {
                Ok(value) => {
                    self.advice[col][row] = value;
                    proof {
                        assert(table_map(self.advice@) =~= table_map(old(self).advice@).insert(
                            (col, row),
                            value.val(),
                        ));
                    }
                    Ok(())
                },
                Err(e) => Err(e),
            }
        } else {
            Err(Error::IncompatibleParams)
        }
    }

    fn assign_gate<V: FnOnce() -> Result<(F, F, F), Error>>(
        &mut self,
        a: Column<Advice>,
        b: Column<Advice>,
        c: Column<Advice>,
        row: usize,
        to: V,
    ) -> (r: Result<(), Error>) {
        let ca = a.index();
        let cb = b.index();
        let cc = c.index();
        let ok_a = ca < self.advice.len() && row < self.rows && row < self.advice[ca].len();
        let ok_b = cb < self.advice.len() && row < self.rows && row < self.advice[cb].len();
        let ok_c = cc < self.advice.len() && row < self.rows && row < self.advice[cc].len();
        if ok_a && ok_b && ok_c {
            match to() {
                Ok((va, vb, vc)) => {
                    self.advice[ca][row] = va;
                    self.advice[cb][row] = vb;
                    self.advice[cc][row] = vc;
                    proof {
                        assert(table_map(self.advice@) =~= table_map(old(self).advice@).insert(
                            (ca, row),
                            va.val(),
                        ).insert((cb, row), vb.val()).insert((cc, row), vc.val()));
                    }
                    Ok(())
                },
                Err(e) => Err(e),
            }
        } else {
            Err(Error::IncompatibleParams)
        }
    }

    fn assign_fixed<V: FnOnce() -> Result<F, Error>>(
        &mut self,
        column: Column<Fixed>,
        row: usize,
        to: V,
    ) -> (r: Result<(), Error>) {
        if row < self.rows {
            Ok(())
        } else {
            Err(Error::IncompatibleParams)
        }
    }

    fn copy(
        &mut self,
        permutation: usize,
        left_column: usize,
        left_row: usize,
        right_column: usize,
        right_row: usize,
    ) -> (r: Result<(), Error>) {
        if left_row < self.rows && right_row < self.rows {
            Ok(())
        } else {
            Err(Error::IncompatibleParams)
        }
    }
}

/// Whether a commitment is exactly the digest of one polynomial under the
/// given seed.
pub open spec fn commits_to<C: CurveAffine>(c: C, seed: nat, poly: Vec<C::Scalar>) -> bool {
    &&& !c.is_identity_spec()
    &&& c.x_val() == commit_x::<C>(seed, vals(poly@))
    &&& c.y_val() == commit_y::<C>(seed, vals(poly@))
}

/// The j-th coefficient of the interpolation of `values` on `domain`, as the
/// domain's exact transform contract states it: 1/n times the value
/// polynomial's evaluation at omega^(-j).
pub open spec fn interp_coeff<F: Field>(
    domain: EvaluationDomain<F>,
    values: Seq<nat>,
    j: int,
) -> nat {
    crate::arithmetic::fmul(
        F::modulus(),
        domain.n_inv_val(),
        crate::domain::poly_eval(
            values,
            crate::arithmetic::pow_mod(domain.omega_inv_val(), j as nat, F::modulus()),
            F::modulus(),
        ),
    )
}

/// The values of the first Lagrange basis vector: one, then zeros.
pub open spec fn lagrange_first_values(n: nat) -> Seq<nat> {
    Seq::new(n, |i: int| if i == 0 { 1nat } else { 0nat })
}

/// Whether `polys` with `commitments` is exactly the interpolation and
/// digest of `values` on `domain` under `seed`: one polynomial per recorded
/// column, each coefficient the exact inverse-transform of the column, each
/// commitment the digest of its polynomial.
pub open spec fn columns_derived<C: CurveAffine>(
    domain: EvaluationDomain<C::Scalar>,
    seed: nat,
    values: Seq<Vec<C::Scalar>>,
    polys: Seq<Vec<C::Scalar>>,
    commitments: Seq<C>,
) -> bool {
    &&& polys.len() == values.len()
    &&& commitments.len() == values.len()
    &&& (forall|i: int|
        0 <= i < polys.len() ==> (#[trigger] polys[i])@.len() == domain.n_spec())
    &&& (forall|i: int, j: int|
        0 <= i < polys.len() && 0 <= j < polys[i]@.len() ==> (#[trigger] polys[i]@[j]).val()
            == interp_coeff(domain, vals(values[i]@), j))
    &&& (forall|i: int|
        0 <= i < commitments.len() ==> !(#[trigger] commitments[i]).is_identity_spec()
            && commitments[i].x_val() == commit_x::<C>(seed, vals(polys[i]@))
            && commitments[i].y_val() == commit_y::<C>(seed, vals(polys[i]@)))
}

/// A structured reference string: everything the prover and verifier need
/// that depends only on the circuit's shape — its constraint system, the
/// evaluation domain, the interpolated and committed selector columns, the
/// permutation polynomials with their coset tags, and the first Lagrange
/// basis polynomial.
#[derive(Debug)]
pub struct SRS<C: CurveAffine> {
    cs: ConstraintSystem<C::Scalar>,
    domain: EvaluationDomain<C::Scalar>,
    fixed_values: Vec<Vec<C::Scalar>>,
    fixed_polys: Vec<Vec<C::Scalar>>,
    fixed_commitments: Vec<C>,
    sigma_values: Vec<Vec<C::Scalar>>,
    sigma_polys: Vec<Vec<C::Scalar>>,
    sigma_commitments: Vec<C>,
    group_offsets: Vec<usize>,
    deltas: Vec<C::Scalar>,
    l0_poly: Vec<C::Scalar>,
}

impl<C: CurveAffine> SRS<C> {
    #[verifier::type_invariant]
    spec fn wf(self) -> bool {
        &&& forall|i: int|
            0 <= i < self.fixed_polys@.len() ==> (#[trigger] self.fixed_polys@[i])@.len()
                == self.domain.n_spec()
        &&& forall|i: int|
            0 <= i < self.sigma_polys@.len() ==> (#[trigger] self.sigma_polys@[i])@.len()
                == self.domain.n_spec()
        &&& self.l0_poly@.len() == self.domain.n_spec()
    }

    /// The constraint system this reference string was generated for.
    pub closed spec fn cs_spec(self) -> ConstraintSystem<C::Scalar> {
        self.cs
    }

    /// The log-size of the domain this reference string was generated for.
    pub closed spec fn domain_k_spec(self) -> u32 {
        self.domain.k_spec()
    }

    /// The residue of the domain generator challenges are shifted by.
    pub closed spec fn domain_omega_val(self) -> nat {
        self.domain.omega_val()
    }

    /// The evaluation domain.
    pub closed spec fn domain_spec(self) -> EvaluationDomain<C::Scalar> {
        self.domain
    }

    /// The recorded selector values, column by column.
    pub closed spec fn fixed_values_spec(self) -> Seq<Vec<C::Scalar>> {
        self.fixed_values@
    }

    /// The recorded permutation-tag values, column by column.
    pub closed spec fn sigma_values_spec(self) -> Seq<Vec<C::Scalar>> {
        self.sigma_values@
    }

    /// The first Lagrange basis polynomial's coefficients.
    pub closed spec fn l0_spec(self) -> Seq<C::Scalar> {
        self.l0_poly@
    }

    /// The coset tags, one per permutation column, groups flattened.
    pub closed spec fn deltas_spec(self) -> Seq<C::Scalar> {
        self.deltas@
    }

    /// The starting flattened-column index of each permutation group.
    pub closed spec fn group_offsets_spec(self) -> Seq<usize> {
        self.group_offsets@
    }

    /// The starting flattened-column index of one group, zero past the end,
    /// mirroring the bounds-guarded read.
    pub open spec fn offset_of(self, g: int) -> usize {
        if 0 <= g < self.group_offsets_spec().len() {
            self.group_offsets_spec()[g]
        } else {
            0
        }
    }

    /// The views of the selector polynomials.
    pub closed spec fn fixed_polys_spec(self) -> Seq<Vec<C::Scalar>> {
        self.fixed_polys@
    }

    /// The views of the permutation polynomials.
    pub closed spec fn sigma_polys_spec(self) -> Seq<Vec<C::Scalar>> {
        self.sigma_polys@
    }

    /// The selector commitments.
    pub closed spec fn fixed_commitments_spec(self) -> Seq<C> {
        self.fixed_commitments@
    }

    /// The permutation-polynomial commitments.
    pub closed spec fn sigma_commitments_spec(self) -> Seq<C> {
        self.sigma_commitments@
    }

    /// The commitments to the selector columns, in allocation order.
    pub fn fixed_commitments(&self) -> (r: &Vec<C>)
        ensures
            r@ == self.fixed_commitments_spec(),
    {
        &self.fixed_commitments
    }

    /// The commitments to the permutation polynomials, one per permutation
    /// column, groups flattened in order.
    pub fn sigma_commitments(&self) -> (r: &Vec<C>)
        ensures
            r@ == self.sigma_commitments_spec(),
    {
        &self.sigma_commitments
    }

    /// The interpolated selector polynomials.
    pub fn fixed_polys(&self) -> (r: &Vec<Vec<C::Scalar>>)
        ensures
            r@ == self.fixed_polys_spec(),
    {
        &self.fixed_polys
    }

    /// The interpolated permutation polynomials.
    pub fn sigma_polys(&self) -> (r: &Vec<Vec<C::Scalar>>)
        ensures
            r@ == self.sigma_polys_spec(),
    {
        &self.sigma_polys
    }

    /// Generate the reference string for one circuit shape and one parameter
    /// set: run `configure`, then a shape-only synthesis that fills every
    /// selector value and the copy wiring, then interpolate and commit each
    /// derived column. Deterministic: no randomness enters at any step.
    pub fn generate<CC: Circuit<C::Scalar>>(params: &Params<C>, circuit: &CC) -> (out: Result<
        SRS<C>,
        Error,
    >)
        ensures
            !(1 <= params.k_spec() && params.k_spec() as nat + 2
                <= <C::Scalar as Field>::adicity_spec() && <C::Scalar as Field>::adicity_spec()
                < 32) ==> out == Result::<SRS<C>, Error>::Err(Error::IncompatibleParams),
            out matches Ok(s) ==> {
                &&& s.domain_k_spec() == params.k_spec()
                &&& s.fixed_values_spec().len() == s.cs_spec().num_fixed_spec()
                &&& columns_derived::<C>(
                    s.domain_spec(),
                    params.seed_val(),
                    s.fixed_values_spec(),
                    s.fixed_polys_spec(),
                    s.fixed_commitments_spec(),
                )
                &&& columns_derived::<C>(
                    s.domain_spec(),
                    params.seed_val(),
                    s.sigma_values_spec(),
                    s.sigma_polys_spec(),
                    s.sigma_commitments_spec(),
                )
                &&& s.l0_spec().len() == s.domain_spec().n_spec()
                &&& (forall|j: int|
                    0 <= j < s.l0_spec().len() ==> (#[trigger] s.l0_spec()[j]).val()
                        == interp_coeff(
                        s.domain_spec(),
                        lagrange_first_values(s.domain_spec().n_spec()),
                        j,
                    ))
            },
    {
        let mut meta = ConstraintSystem::<C::Scalar>::new();
        let config = CC::configure(&mut meta);
        // The quotient is computed on a domain four times the base size, so
        // the identities may have degree at most four.
        let mut gi: usize = 0;
        while gi < meta.gates().len()
            decreases meta.gates_spec().len() - gi,
        {
            if meta.gates()[gi].degree() > 4 {
                return Err(Error::IncompatibleParams);
            }
            gi = gi + 1;
        }
        let domain = EvaluationDomain::<C::Scalar>::new(params.k())?;
        let n = domain.n_usize();

        // Shape-only synthesis: identity wiring, zeroed selectors.
        let groups = meta.perm_groups();
        let mut mapping: Vec<Vec<Vec<(usize, usize)>>> = Vec::new();
        let mut g: usize = 0;
        while g < groups.len()
            decreases groups@.len() - g,
        {
            let size = groups[g].len();
            let mut table: Vec<Vec<(usize, usize)>> = Vec::new();
            let mut cpos: usize = 0;
            while cpos < size
                decreases size - cpos,
            {
                let mut column: Vec<(usize, usize)> = Vec::new();
                let mut row: usize = 0;
                while row < n
                    decreases n - row,
                {
                    column.push((cpos, row));
                    row = row + 1;
                }
                table.push(column);
                cpos = cpos + 1;
            }
            mapping.push(table);
            g = g + 1;
        }
        let assembly = KeygenAssembly::<C::Scalar> {
            rows: n,
            fixed: zero_matrix(meta.num_fixed(), n),
            mapping,
        };
        let assembly = circuit.synthesize(assembly, &config)?;

        // Selector columns: values, polynomials, commitments.
        let fixed_values = normalized(&assembly.fixed, meta.num_fixed(), n);
        let mut fixed_polys: Vec<Vec<C::Scalar>> = Vec::new();
        let mut fixed_commitments: Vec<C> = Vec::new();
        let mut i: usize = 0;
        while i < fixed_values.len()
            invariant
                i <= fixed_values@.len(),
                fixed_values@.len() == meta.num_fixed_spec(),
                fixed_polys@.len() == i,
                fixed_commitments@.len() == i,
                forall|j: int|
                    0 <= j < fixed_values@.len() ==> (#[trigger] fixed_values@[j])@.len()
                        == domain.n_spec(),
                forall|j: int|
                    0 <= j < fixed_polys@.len() ==> (#[trigger] fixed_polys@[j])@.len()
                        == domain.n_spec(),
                forall|a: int, b: int|
                    0 <= a < fixed_polys@.len() && 0 <= b < fixed_polys@[a]@.len()
                        ==> (#[trigger] fixed_polys@[a]@[b]).val() == interp_coeff(
                        domain,
                        vals(fixed_values@[a]@),
                        b,
                    ),
                forall|a: int|
                    0 <= a < fixed_commitments@.len() ==> !(#[trigger] fixed_commitments@[a]).is_identity_spec()
                        && fixed_commitments@[a].x_val() == commit_x::<C>(
                        params.seed_val(),
                        vals(fixed_polys@[a]@),
                    ) && fixed_commitments@[a].y_val() == commit_y::<C>(
                        params.seed_val(),
                        vals(fixed_polys@[a]@),
                    ),
            decreases fixed_values@.len() - i,
        {
            let poly = domain.interpolate(&fixed_values[i]);
            fixed_commitments.push(commit(params, &poly));
            fixed_polys.push(poly);
            i = i + 1;
        }

        // Coset tags: one distinct multiplicative-coset representative per
        // permutation column, g^0, g^1, ... for the field's generator g.
        let mut total_cols: usize = 0;
        let mut g2: usize = 0;
        let groups2 = meta.perm_groups();
        while g2 < groups2.len()
            decreases groups2@.len() - g2,
        {
            let size = groups2[g2].len();
            if total_cols >= usize::MAX - size {
                return Err(Error::IncompatibleParams);
            }
            total_cols = total_cols + size;
            g2 = g2 + 1;
        }
        let gen = <C::Scalar as Field>::generator();
        let mut deltas: Vec<C::Scalar> = Vec::new();
        let mut cur = <C::Scalar as Field>::one();
        let mut i2: usize = 0;
        while i2 < total_cols
            decreases total_cols - i2,
        {
            deltas.push(cur);
            cur = cur.mul(gen);
            i2 = i2 + 1;
        }
        let mut omega_pows: Vec<C::Scalar> = Vec::new();
        let mut curw = <C::Scalar as Field>::one();
        let mut i3: usize = 0;
        while i3 < n
            decreases n - i3,
        {
            omega_pows.push(curw);
            curw = curw.mul(domain.omega());
            i3 = i3 + 1;
        }

        // Permutation polynomials: the tag of each cell's image under the
        // copy wiring.
        let mut sigma_values: Vec<Vec<C::Scalar>> = Vec::new();
        let mut group_offsets: Vec<usize> = Vec::new();
        let mut offset: usize = 0;
        let mut g3: usize = 0;
        let groups3 = meta.perm_groups();
        while g3 < groups3.len()
            decreases groups3@.len() - g3,
        {
            group_offsets.push(offset);
            let size = groups3[g3].len();
            let mut cpos: usize = 0;
            while cpos < size
                decreases size - cpos,
            {
                let mut col: Vec<C::Scalar> = Vec::new();
                let mut row: usize = 0;
                while row < n
                    invariant
                        col@.len() == row,
                        row <= n,
                    decreases n - row,
                {
                    let entry: (usize, usize) = if g3 < assembly.mapping.len() && cpos
                        < assembly.mapping[g3].len() && row < assembly.mapping[g3][cpos].len() {
                        assembly.mapping[g3][cpos][row]
                    } else {
                        (cpos, row)
                    };
                    let tag_col = if offset < usize::MAX - entry.0 {
                        offset + entry.0
                    } else {
                        0
                    };
                    col.push(at(&deltas, tag_col).mul(at(&omega_pows, entry.1)));
                    row = row + 1;
                }
                sigma_values.push(col);
                cpos = cpos + 1;
            }
            offset = if offset < usize::MAX - size {
                offset + size
            } else {
                offset
            };
            g3 = g3 + 1;
        }
        let sigma_values = normalized(&sigma_values, total_cols, n);
        let mut sigma_polys: Vec<Vec<C::Scalar>> = Vec::new();
        let mut sigma_commitments: Vec<C> = Vec::new();
        let mut i4: usize = 0;
        while i4 < sigma_values.len()
            invariant
                i4 <= sigma_values@.len(),
                sigma_polys@.len() == i4,
                sigma_commitments@.len() == i4,
                forall|j: int|
                    0 <= j < sigma_values@.len() ==> (#[trigger] sigma_values@[j])@.len()
                        == domain.n_spec(),
                forall|j: int|
                    0 <= j < sigma_polys@.len() ==> (#[trigger] sigma_polys@[j])@.len()
                        == domain.n_spec(),
                forall|a: int, b: int|
                    0 <= a < sigma_polys@.len() && 0 <= b < sigma_polys@[a]@.len()
                        ==> (#[trigger] sigma_polys@[a]@[b]).val() == interp_coeff(
                        domain,
                        vals(sigma_values@[a]@),
                        b,
                    ),
                forall|a: int|
                    0 <= a < sigma_commitments@.len() ==> !(#[trigger] sigma_commitments@[a]).is_identity_spec()
                        && sigma_commitments@[a].x_val() == commit_x::<C>(
                        params.seed_val(),
                        vals(sigma_polys@[a]@),
                    ) && sigma_commitments@[a].y_val() == commit_y::<C>(
                        params.seed_val(),
                        vals(sigma_polys@[a]@),
                    ),
            decreases sigma_values@.len() - i4,
        {
            let poly = domain.interpolate(&sigma_values[i4]);
            sigma_commitments.push(commit(params, &poly));
            sigma_polys.push(poly);
            i4 = i4 + 1;
        }

        // The first Lagrange basis polynomial, used by the z(X) boundary
        // identity.
        let mut e0: Vec<C::Scalar> = Vec::new();
        e0.push(<C::Scalar as Field>::one());
        let zero = <C::Scalar as Field>::zero();
        while e0.len() < n
            invariant
                1 <= e0@.len() <= n,
                e0@[0].val() == 1,
                forall|j: int| 1 <= j < e0@.len() ==> (#[trigger] e0@[j]).val() == 0,
                zero.val() == 0,
            decreases n - e0@.len(),
        {
            e0.push(zero);
        }
        proof {
            assert(vals(e0@) =~= lagrange_first_values(domain.n_spec()));
        }
        let l0_poly = domain.interpolate(&e0);

        Ok(
            SRS {
                cs: meta,
                domain,
                fixed_values,
                fixed_polys,
                fixed_commitments,
                sigma_values,
                sigma_polys,
                sigma_commitments,
                group_offsets,
                deltas,
                l0_poly,
            },
        )
    }
}


/// Structural equality of gate expressions, comparing constants by value.
fn expr_eq<F: Field>(a: &Expression<F>, b: &Expression<F>) -> bool
    decreases *a,
{
    match (a, b) {
        (Expression::Advice(x), Expression::Advice(y)) => *x == *y,
        (Expression::Fixed(x), Expression::Fixed(y)) => *x == *y,
        (Expression::Constant(x), Expression::Constant(y)) => x.equals(*y),
        (Expression::Sum(a1, a2), Expression::Sum(b1, b2)) => expr_eq(a1, b1) && expr_eq(a2, b2),
        (Expression::Product(a1, a2), Expression::Product(b1, b2)) => expr_eq(a1, b1) && expr_eq(
            a2,
            b2,
        ),
        _ => false,
    }
}

/// Whether two circuit shapes agree: same column counts, same permutation
/// groups, same gates. A reference string may only be used with the exact
/// shape it was generated for.
fn shape_matches<F: Field>(a: &ConstraintSystem<F>, b: &ConstraintSystem<F>) -> bool {
    if a.num_advice() != b.num_advice() || a.num_fixed() != b.num_fixed() {
        return false;
    }
    if a.perm_groups().len() != b.perm_groups().len() {
        return false;
    }
    let mut g: usize = 0;
    while g < a.perm_groups().len()
        decreases a.perms_spec().len() - g,
    {
        if g >= b.perm_groups().len() {
            return false;
        }
        let ga = &a.perm_groups()[g];
        let gb = &b.perm_groups()[g];
        if ga.len() != gb.len() {
            return false;
        }
        let mut j: usize = 0;
        while j < ga.len()
            decreases ga@.len() - j,
        {
            if j >= gb.len() || ga[j] != gb[j] {
                return false;
            }
            j = j + 1;
        }
        g = g + 1;
    }
    if a.gates().len() != b.gates().len() {
        return false;
    }
    let mut k: usize = 0;
    while k < a.gates().len()
        decreases a.gates_spec().len() - k,
    {
        if k >= b.gates().len() {
            return false;
        }
        if !expr_eq(&a.gates()[k], &b.gates()[k]) {
            return false;
        }
        k = k + 1;
    }
    true
}

/// A proof: the immutable artifact of one proving run — wire commitments,
/// permutation-product and quotient-chunk commitments, every queried
/// polynomial's evaluation at the challenge point, and one batched opening.
#[derive(Debug, Clone)]
pub struct Proof<C: CurveAffine> {
    pub advice_commitments: Vec<C>,
    pub z_commitments: Vec<C>,
    pub h_commitments: Vec<C>,
    pub advice_evals: Vec<C::Scalar>,
    pub fixed_evals: Vec<C::Scalar>,
    pub sigma_evals: Vec<C::Scalar>,
    pub z_evals: Vec<C::Scalar>,
    pub z_next_evals: Vec<C::Scalar>,
    pub h_evals: Vec<C::Scalar>,
    pub opening: OpeningProof<C>,
}

/// The deferred final check verification returns: the opened polynomials,
/// their commitments and claimed evaluations, the algebraic checks' outcome,
/// and the batching challenge. Either finalize strategy turns it into an
/// accept/reject answer; both must agree on honest data.
pub struct Guard<C: CurveAffine> {
    ok: bool,
    polys: Vec<Vec<C::Scalar>>,
    commitments: Vec<C>,
    x: C::Scalar,
    x_next: C::Scalar,
    advice_count: usize,
    group_count: usize,
    advice_evals: Vec<C::Scalar>,
    z_evals: Vec<C::Scalar>,
    z_next_evals: Vec<C::Scalar>,
    h_evals: Vec<C::Scalar>,
    q: C::Scalar,
}

/// The residue of the claim at index i of a claim list, zero past the end,
/// mirroring the bounds-guarded reads of the deferred check.
pub open spec fn claim_val<F: Field>(s: Seq<F>, i: int) -> nat {
    if 0 <= i < s.len() {
        s[i].val()
    } else {
        0
    }
}

/// A residual list folded into an accumulator with powers of the batching
/// challenge: acc ← acc·q + r for each residual in order.
pub open spec fn fold_residuals(m: nat, q: nat, acc: nat, rs: Seq<nat>) -> nat
    decreases rs.len(),
{
    if rs.len() == 0 {
        acc
    } else {
        fadd(m, fmul(m, fold_residuals(m, q, acc, rs.drop_last()), q), rs.last())
    }
}

impl<C: CurveAffine> Guard<C> {
    /// The evaluation residuals of the i-th deferred entry: wires first (one
    /// opening at x each), then permutation products (openings at x and ωx),
    /// then quotient chunks (one opening at x each).
    pub closed spec fn residual_seq(self, i: int) -> Seq<nat> {
        let m = <C::Scalar as Field>::modulus();
        if i < self.advice_count {
            if 0 <= i < self.polys@.len() {
                seq![
                    fsub(
                        m,
                        crate::domain::poly_eval(vals(self.polys@[i]@), self.x.val(), m),
                        claim_val(self.advice_evals@, i),
                    ),
                ]
            } else {
                Seq::empty()
            }
        } else if i - self.advice_count < self.group_count {
            let g = i - self.advice_count;
            if 0 <= i < self.polys@.len() {
                seq![
                    fsub(
                        m,
                        crate::domain::poly_eval(vals(self.polys@[i]@), self.x.val(), m),
                        claim_val(self.z_evals@, g),
                    ),
                    fsub(
                        m,
                        crate::domain::poly_eval(vals(self.polys@[i]@), self.x_next.val(), m),
                        claim_val(self.z_next_evals@, g),
                    ),
                ]
            } else {
                Seq::empty()
            }
        } else {
            let c = i - self.advice_count - self.group_count;
            if 0 <= i < self.polys@.len() {
                seq![
                    fsub(
                        m,
                        crate::domain::poly_eval(vals(self.polys@[i]@), self.x.val(), m),
                        claim_val(self.h_evals@, c),
                    ),
                ]
            } else {
                Seq::empty()
            }
        }
    }

    /// The number of opened polynomials.
    pub closed spec fn polys_len(self) -> int {
        self.polys@.len() as int
    }

    /// The algebraic checks' outcome this guard carries.
    pub closed spec fn ok_spec(self) -> bool {
        self.ok
    }

    /// The opened polynomials.
    pub closed spec fn polys_spec(self) -> Seq<Vec<C::Scalar>> {
        self.polys@
    }

    /// The claimed commitments, wires then products then quotient chunks.
    pub closed spec fn commitments_spec(self) -> Seq<C> {
        self.commitments@
    }

    /// The evaluation point.
    pub closed spec fn x_spec(self) -> C::Scalar {
        self.x
    }

    /// The shifted evaluation point for the permutation products.
    pub closed spec fn x_next_spec(self) -> C::Scalar {
        self.x_next
    }

    /// The batching challenge.
    pub closed spec fn q_spec(self) -> C::Scalar {
        self.q
    }

    /// The claimed wire evaluations.
    pub closed spec fn advice_evals_spec(self) -> Seq<C::Scalar> {
        self.advice_evals@
    }

    /// The claimed product evaluations at x.
    pub closed spec fn z_evals_spec(self) -> Seq<C::Scalar> {
        self.z_evals@
    }

    /// The claimed product evaluations at ωx.
    pub closed spec fn z_next_evals_spec(self) -> Seq<C::Scalar> {
        self.z_next_evals@
    }

    /// The claimed quotient-chunk evaluations.
    pub closed spec fn h_evals_spec(self) -> Seq<C::Scalar> {
        self.h_evals@
    }

    /// How many wire entries the enumeration starts with.
    pub closed spec fn advice_count_spec(self) -> usize {
        self.advice_count
    }

    /// How many product entries follow the wires.
    pub closed spec fn group_count_spec(self) -> usize {
        self.group_count
    }

    /// Every opened polynomial digests to its claimed commitment.
    pub closed spec fn commitments_ok(self, seed: nat) -> bool {
        &&& self.polys@.len() == self.commitments@.len()
        &&& forall|i: int|
            0 <= i < self.polys@.len() ==> {
                let c = #[trigger] self.commitments@[i];
                &&& !c.is_identity_spec()
                &&& c.x_val() == commit_x::<C>(seed, vals(self.polys@[i]@))
                &&& c.y_val() == commit_y::<C>(seed, vals(self.polys@[i]@))
            }
    }

    /// What the pointwise finalize strategy accepts: the algebraic checks,
    /// the commitment digests, and every evaluation residual being zero.
    pub closed spec fn accepts_pointwise(self, seed: nat) -> bool {
        &&& self.ok
        &&& self.commitments_ok(seed)
        &&& forall|i: int, j: int|
            0 <= i < self.polys@.len() && 0 <= j < self.residual_seq(i).len()
                ==> #[trigger] self.residual_seq(i)[j] == 0
    }

    /// The residuals of entries 0..i folded into one accumulator with powers
    /// of the batching challenge.
    pub closed spec fn fold_upto(self, i: int) -> nat
        decreases i,
    {
        if i <= 0 {
            0
        } else {
            fold_residuals(
                <C::Scalar as Field>::modulus(),
                self.q.val(),
                self.fold_upto(i - 1),
                self.residual_seq(i - 1),
            )
        }
    }

    /// What the challenge-power finalize strategy accepts: the algebraic
    /// checks, the commitment digests, and a zero folded combination.
    pub closed spec fn accepts_folded(self, seed: nat) -> bool {
        &&& self.ok
        &&& self.commitments_ok(seed)
        &&& self.fold_upto(self.polys@.len() as int) == 0
    }

    /// One entry of the deferred check: the i-th opened polynomial matches
    /// its commitment, and its evaluations at the claimed points match the
    /// claims. Entries are enumerated wires first, then permutation products
    /// (each checked at x and at ωx), then quotient chunks.
    fn entry_residuals(&self, i: usize) -> (r: Vec<C::Scalar>)
        ensures
            vals(r@) == self.residual_seq(i as int),
    {
        let mut out: Vec<C::Scalar> = Vec::new();
        if i < self.advice_count {
            if i < self.polys.len() {
                out.push(eval_at(&self.polys[i], self.x).sub(at(&self.advice_evals, i)));
            }
        } else if i - self.advice_count < self.group_count {
            let g = i - self.advice_count;
            if i < self.polys.len() {
                out.push(eval_at(&self.polys[i], self.x).sub(at(&self.z_evals, g)));
                out.push(eval_at(&self.polys[i], self.x_next).sub(at(&self.z_next_evals, g)));
            }
        } else {
            let c = i - self.advice_count - self.group_count;
            if i < self.polys.len() {
                out.push(eval_at(&self.polys[i], self.x).sub(at(&self.h_evals, c)));
            }
        }
        proof {
            assert(vals(out@) =~= self.residual_seq(i as int));
        }
        out
    }

    /// Whether every opened polynomial matches its commitment.
    fn commitments_match(&self, params: &Params<C>) -> (r: bool)
        ensures
            r <==> self.commitments_ok(params.seed_val()),
    {
        if self.polys.len() != self.commitments.len() {
            return false;
        }
        let mut i: usize = 0;
        while i < self.polys.len()
            invariant
                i <= self.polys@.len(),
                self.polys@.len() == self.commitments@.len(),
                forall|k: int|
                    0 <= k < i ==> {
                        let c = #[trigger] self.commitments@[k];
                        &&& !c.is_identity_spec()
                        &&& c.x_val() == commit_x::<C>(params.seed_val(), vals(self.polys@[k]@))
                        &&& c.y_val() == commit_y::<C>(params.seed_val(), vals(self.polys@[k]@))
                    },
            decreases self.polys@.len() - i,
        {
            if !commit(params, &self.polys[i]).point_eq(self.commitments[i]) {
                return false;
            }
            i = i + 1;
        }
        true
    }

    /// Turn the deferred check into the outcome: `Ok` when it accepts
    /// and `ConstraintSystemFailure` when it rejects. An algebraic or
    /// opening mismatch surfaces here, at evaluation time, never earlier.
    pub fn evaluate(&self, params: &Params<C>) -> (r: Result<(), Error>)
        ensures
            r.is_ok() <==> self.accepts_folded(params.seed_val()),
            r matches Err(e) ==> e == Error::ConstraintSystemFailure,
    {
        if self.use_challenges(params) {
            Ok(())
        } else {
            Err(Error::ConstraintSystemFailure)
        }
    }

    /// Finalize by checking every opening individually: each polynomial's
    /// evaluation residual must be zero.
    pub fn use_g(&self, params: &Params<C>) -> (r: bool)
        ensures
            r <==> self.accepts_pointwise(params.seed_val()),
    {
        if !self.ok || !self.commitments_match(params) {
            return false;
        }
        let zero = <C::Scalar as Field>::zero();
        let mut i: usize = 0;
        while i < self.polys.len()
            invariant
                i <= self.polys@.len(),
                self.ok,
                zero.val() == 0,
                self.commitments_ok(params.seed_val()),
                forall|k: int, j: int|
                    0 <= k < i && 0 <= j < self.residual_seq(k).len()
                        ==> #[trigger] self.residual_seq(k)[j] == 0,
            decreases self.polys@.len() - i,
        {
            let residuals = self.entry_residuals(i);
            let mut j: usize = 0;
            while j < residuals.len()
                invariant
                    j <= residuals@.len(),
                    i < self.polys@.len(),
                    vals(residuals@) == self.residual_seq(i as int),
                    zero.val() == 0,
                    forall|k: int| 0 <= k < j ==> #[trigger] self.residual_seq(i as int)[k] == 0,
                decreases residuals@.len() - j,
            {
                if !residuals[j].equals(zero) {
                    proof {
                        assert(self.residual_seq(i as int)[j as int] == residuals@[j as int].val());
                    }
                    return false;
                }
                j = j + 1;
            }
            i = i + 1;
        }
        true
    }

    /// Finalize by folding every evaluation residual into one random linear
    /// combination with powers of the batching challenge, and checking that
    /// the combination is zero.
    pub fn use_challenges(&self, params: &Params<C>) -> (r: bool)
        ensures
            r <==> self.accepts_folded(params.seed_val()),
    {
        if !self.ok || !self.commitments_match(params) {
            return false;
        }
        let ghost m: nat = <C::Scalar as Field>::modulus();
        let zero = <C::Scalar as Field>::zero();
        let mut acc = zero;
        let mut i: usize = 0;
        while i < self.polys.len()
            invariant
                i <= self.polys@.len(),
                self.ok,
                zero.val() == 0,
                self.commitments_ok(params.seed_val()),
                acc.val() == self.fold_upto(i as int),
            decreases self.polys@.len() - i,
        {
            let residuals = self.entry_residuals(i);
            let ghost acc0: nat = acc.val();
            let mut j: usize = 0;
            while j < residuals.len()
                invariant
                    j <= residuals@.len(),
                    vals(residuals@) == self.residual_seq(i as int),
                    acc.val() == fold_residuals(
                        <C::Scalar as Field>::modulus(),
                        self.q.val(),
                        acc0,
                        self.residual_seq(i as int).take(j as int),
                    ),
                decreases residuals@.len() - j,
            {
                acc = acc.mul(self.q).add(residuals[j]);
                j = j + 1;
                proof {
                    let rs = self.residual_seq(i as int);
                    assert(rs.take(j as int).drop_last() =~= rs.take(j as int - 1));
                    assert(rs.take(j as int).last() == residuals@[j as int - 1].val());
                }
            }
            i = i + 1;
            proof {
                let rs = self.residual_seq(i as int - 1);
                assert(rs.take(rs.len() as int) =~= rs);
            }
        }
        acc.equals(zero)
    }
}

/// If every residual of a list is zero and the accumulator starts at zero,
/// folding with any challenge keeps it zero.
proof fn lemma_fold_zeros(m: nat, q: nat, rs: Seq<nat>)
    requires
        m > 0,
        forall|j: int| 0 <= j < rs.len() ==> rs[j] == 0,
    ensures
        fold_residuals(m, q, 0, rs) == 0,
    decreases rs.len(),
{
    if rs.len() > 0 {
        lemma_fold_zeros(m, q, rs.drop_last());
        assert(rs.last() == 0);
        vstd::arithmetic::div_mod::lemma_small_mod(0, m);
        assert(0 * (q as int) == 0) by (nonlinear_arith);
        assert(fmul(m, 0, q) == 0);
        assert(fadd(m, 0, 0) == 0);
        assert(fold_residuals(m, q, 0, rs) == fadd(m, fmul(m, 0, q), 0));
    }
}

/// The two finalize strategies agree on accepting data: when every deferred
/// evaluation residual is zero — what the pointwise strategy checks — their
/// combination under powers of the batching challenge is zero too, so any
/// guard the pointwise strategy accepts, the challenge-power strategy also
/// accepts. Only this direction holds in general: a folded combination can
/// vanish by chance while some residual is nonzero, so the converse is not a
/// theorem; the tests exercise agreement on both accepting and rejecting
/// data.
pub proof fn lemma_finalize_agreement<C: CurveAffine>(g: Guard<C>, seed: nat)
    requires
        g.accepts_pointwise(seed),
    ensures
        g.accepts_folded(seed),
{
    <C::Scalar as Field>::modulus_facts();
    let m = <C::Scalar as Field>::modulus();
    let n = g.polys@.len() as int;
    assert forall|i: int| 0 <= i <= n implies g.fold_upto(i) == 0 by {
        lemma_fold_upto_zero(g, i);
    };
}

/// Auxiliary induction for `lemma_finalize_agreement`.
proof fn lemma_fold_upto_zero<C: CurveAffine>(g: Guard<C>, i: int)
    requires
        forall|k: int, j: int|
            0 <= k < g.polys_len() && 0 <= j < g.residual_seq(k).len()
                ==> #[trigger] g.residual_seq(k)[j] == 0,
        i <= g.polys_len(),
    ensures
        g.fold_upto(i) == 0,
    decreases i,
{
    <C::Scalar as Field>::modulus_facts();
    if i > 0 {
        lemma_fold_upto_zero(g, i - 1);
        lemma_fold_zeros(
            <C::Scalar as Field>::modulus(),
            g.q.val(),
            g.residual_seq(i - 1),
        );
    }
}

/// The flattened permutation-column index read for position j of a group
/// starting at `off`, zero on overflow, mirroring the guarded read.
pub open spec fn tag_index(off: usize, j: int) -> int {
    if off + j <= usize::MAX {
        off + j
    } else {
        0
    }
}

/// Gate identities folded with powers of y, each evaluated at the
/// claimed openings, Horner-style over the list of identities.
pub open spec fn gates_fold<S: Field>(
    gates: Seq<Expression<S>>,
    adv: Seq<nat>,
    fix: Seq<nat>,
    y: nat,
    m: nat,
) -> nat
    decreases gates.len(),
{
    if gates.len() == 0 {
        0
    } else {
        fadd(
            m,
            fmul(m, gates_fold(gates.drop_last(), adv, fix, y, m), y),
            expr_eval(gates.last(), adv, fix),
        )
    }
}

impl<C: CurveAffine> Proof<C> {
    /// The running product of the identity-side permutation factors of one
    /// group, over its first j columns, seeded with the group's claimed
    /// product opening at x.
    pub open spec fn left_fold(self, srs: SRS<C>, g: int, j: int, beta: nat, gamma: nat, x: nat) -> nat
        decreases j,
    {
        let m = <C::Scalar as Field>::modulus();
        if j <= 0 {
            claim_val(self.z_evals@, g)
        } else {
            let cols = srs.cs_spec().perms_spec()[g];
            let a_ev = claim_val(self.advice_evals@, cols[j - 1] as int);
            let tag = claim_val(srs.deltas_spec(), tag_index(srs.offset_of(g), j - 1));
            fmul(
                m,
                self.left_fold(srs, g, j - 1, beta, gamma, x),
                fadd(m, fadd(m, a_ev, fmul(m, fmul(m, beta, tag), x)), gamma),
            )
        }
    }

    /// The running product of the wiring-side permutation factors of one
    /// group, seeded with the group's claimed product opening at ωx.
    pub open spec fn right_fold(self, srs: SRS<C>, g: int, j: int, beta: nat, gamma: nat) -> nat
        decreases j,
    {
        let m = <C::Scalar as Field>::modulus();
        if j <= 0 {
            claim_val(self.z_next_evals@, g)
        } else {
            let cols = srs.cs_spec().perms_spec()[g];
            let a_ev = claim_val(self.advice_evals@, cols[j - 1] as int);
            let sig = claim_val(self.sigma_evals@, tag_index(srs.offset_of(g), j - 1));
            fmul(
                m,
                self.right_fold(srs, g, j - 1, beta, gamma),
                fadd(m, fadd(m, a_ev, fmul(m, beta, sig)), gamma),
            )
        }
    }

    /// The combined identity after folding in the first g permutation
    /// groups: per group, the product-transition term and the boundary term,
    /// each folded with a power of y onto `start`, the folded identities.
    pub open spec fn groups_fold(
        self,
        srs: SRS<C>,
        g: int,
        start: nat,
        y: nat,
        beta: nat,
        gamma: nat,
        x: nat,
        l0x: nat,
    ) -> nat
        decreases g,
    {
        let m = <C::Scalar as Field>::modulus();
        if g <= 0 {
            start
        } else {
            let prev = self.groups_fold(srs, g - 1, start, y, beta, gamma, x, l0x);
            let cols_len = srs.cs_spec().perms_spec()[g - 1].len() as int;
            let zz = claim_val(self.z_evals@, g - 1);
            let left = self.left_fold(srs, g - 1, cols_len, beta, gamma, x);
            let right = self.right_fold(srs, g - 1, cols_len, beta, gamma);
            let after_t = fadd(m, fmul(m, prev, y), fsub(m, left, right));
            fadd(m, fmul(m, after_t, y), fmul(m, l0x, fsub(m, zz, 1)))
        }
    }

    /// The base transcript's state after the wire commitments.
    pub open spec fn state_wires<HB: Hasher<C::Base>>(self) -> nat {
        absorb_points_spec::<C, HB>(HB::init_spec(), self.advice_commitments@)
    }

    /// The permutation challenge β, as the verifier derives it.
    pub open spec fn beta_spec<HB: Hasher<C::Base>>(self) -> nat {
        HB::squeeze_spec(self.state_wires::<HB>()) % <C::Scalar as Field>::modulus()
    }

    /// The permutation challenge γ, as the verifier derives it.
    pub open spec fn gamma_spec<HB: Hasher<C::Base>>(self) -> nat {
        HB::squeeze_spec(HB::after_squeeze_spec(self.state_wires::<HB>()))
            % <C::Scalar as Field>::modulus()
    }

    /// The base transcript's state after the product commitments.
    pub open spec fn state_products<HB: Hasher<C::Base>>(self) -> nat {
        absorb_points_spec::<C, HB>(
            HB::after_squeeze_spec(HB::after_squeeze_spec(self.state_wires::<HB>())),
            self.z_commitments@,
        )
    }

    /// The identity-combination challenge y, as the verifier derives it.
    pub open spec fn y_spec<HB: Hasher<C::Base>>(self) -> nat {
        HB::squeeze_spec(self.state_products::<HB>()) % <C::Scalar as Field>::modulus()
    }

    /// The base transcript's state after the quotient-chunk commitments.
    pub open spec fn state_chunks<HB: Hasher<C::Base>>(self) -> nat {
        absorb_points_spec::<C, HB>(
            HB::after_squeeze_spec(self.state_products::<HB>()),
            self.h_commitments@,
        )
    }

    /// The evaluation challenge x, as the verifier derives it.
    pub open spec fn x_challenge_spec<HB: Hasher<C::Base>>(self) -> nat {
        HB::squeeze_spec(self.state_chunks::<HB>()) % <C::Scalar as Field>::modulus()
    }

    /// The digest of every claimed evaluation, folded through the scalar
    /// transcript in the protocol's order.
    pub open spec fn eval_digest_spec<HS: Hasher<C::Scalar>>(self) -> nat {
        HS::squeeze_spec(
            absorb_scalars_spec::<C::Scalar, HS>(
                absorb_scalars_spec::<C::Scalar, HS>(
                    absorb_scalars_spec::<C::Scalar, HS>(
                        absorb_scalars_spec::<C::Scalar, HS>(
                            absorb_scalars_spec::<C::Scalar, HS>(
                                absorb_scalars_spec::<C::Scalar, HS>(
                                    HS::init_spec(),
                                    self.advice_evals@,
                                ),
                                self.fixed_evals@,
                            ),
                            self.sigma_evals@,
                        ),
                        self.z_evals@,
                    ),
                    self.z_next_evals@,
                ),
                self.h_evals@,
            ),
        )
    }

    /// The batching challenge q, as the verifier derives it.
    pub open spec fn q_challenge_spec<HB: Hasher<C::Base>, HS: Hasher<C::Scalar>>(self) -> nat {
        HB::squeeze_spec(
            HB::absorb_spec(
                HB::after_squeeze_spec(self.state_chunks::<HB>()),
                self.eval_digest_spec::<HS>() % <C::Base as Field>::modulus(),
            ),
        ) % <C::Scalar as Field>::modulus()
    }

    /// Whether the recomputed gate-plus-permutation identity at the derived
    /// challenge point equals the vanishing polynomial times the recombined
    /// quotient claims: the verifier's algebraic acceptance.
    pub open spec fn algebraic_accepts<HB: Hasher<C::Base>>(self, srs: SRS<C>) -> bool {
        let m = <C::Scalar as Field>::modulus();
        let beta = self.beta_spec::<HB>();
        let gamma = self.gamma_spec::<HB>();
        let y = self.y_spec::<HB>();
        let x = self.x_challenge_spec::<HB>();
        let l0x = crate::domain::poly_eval(vals(srs.l0_spec()), x, m);
        let start = gates_fold(
            srs.cs_spec().gates_spec(),
            vals(self.advice_evals@),
            vals(self.fixed_evals@),
            y,
            m,
        );
        let lhs = self.groups_fold(
            srs,
            srs.cs_spec().perms_spec().len() as int,
            start,
            y,
            beta,
            gamma,
            x,
            l0x,
        );
        let xn = pow_mod(x, srs.domain_spec().n_spec(), m);
        let rhs = fmul(m, fsub(m, xn, 1), crate::domain::poly_eval(vals(self.h_evals@), xn, m));
        lhs == rhs
    }

    /// Whether every claimed evaluation in the proof is the true evaluation
    /// of its polynomial at the transcript-derived challenge point: wires,
    /// permutation products (at x and ωx) and quotient chunks against the
    /// opening's polynomials, selectors and permutation polynomials against
    /// the reference string's.
    pub open spec fn evals_true<HB: Hasher<C::Base>>(self, srs: SRS<C>) -> bool {
        let m = <C::Scalar as Field>::modulus();
        let x = self.x_challenge_spec::<HB>();
        let xw = crate::arithmetic::fmul(m, x, srs.domain_omega_val());
        let a_len = self.advice_evals@.len() as int;
        let z_len = self.z_evals@.len() as int;
        &&& (forall|i: int|
            0 <= i < a_len ==> (#[trigger] self.advice_evals@[i]).val()
                == crate::domain::poly_eval(vals(self.opening.polys@[i]@), x, m))
        &&& (forall|i: int|
            0 <= i < z_len ==> (#[trigger] self.z_evals@[i]).val() == crate::domain::poly_eval(
                vals(self.opening.polys@[a_len + i]@),
                x,
                m,
            ))
        &&& (forall|i: int|
            0 <= i < z_len ==> (#[trigger] self.z_next_evals@[i]).val()
                == crate::domain::poly_eval(vals(self.opening.polys@[a_len + i]@), xw, m))
        &&& (forall|i: int|
            0 <= i < self.h_evals@.len() ==> (#[trigger] self.h_evals@[i]).val()
                == crate::domain::poly_eval(vals(self.opening.polys@[a_len + z_len + i]@), x, m))
        &&& (forall|i: int|
            0 <= i < self.fixed_evals@.len() ==> (#[trigger] self.fixed_evals@[i]).val()
                == crate::domain::poly_eval(vals(srs.fixed_polys_spec()[i]@), x, m))
        &&& (forall|i: int|
            0 <= i < self.sigma_evals@.len() ==> (#[trigger] self.sigma_evals@[i]).val()
                == crate::domain::poly_eval(vals(srs.sigma_polys_spec()[i]@), x, m))
    }

    /// Everything verification pins about the guard it returns: the opened
    /// polynomials and commitments are the proof's own, the claims are the
    /// proof's evaluation fields, the points and the batching challenge are
    /// the transcript-derived ones, and the algebraic flag holds exactly
    /// when the recomputed identity matches the quotient claims.
    pub open spec fn guard_for<HB: Hasher<C::Base>, HS: Hasher<C::Scalar>>(
        self,
        srs: SRS<C>,
        g: Guard<C>,
    ) -> bool {
        &&& g.polys_spec().len() == self.opening.polys@.len()
        &&& (forall|i: int|
            0 <= i < g.polys_spec().len() ==> (#[trigger] g.polys_spec()[i])@
                == self.opening.polys@[i]@)
        &&& g.commitments_spec() == self.advice_commitments@ + self.z_commitments@
            + self.h_commitments@
        &&& g.advice_evals_spec() == self.advice_evals@
        &&& g.z_evals_spec() == self.z_evals@
        &&& g.z_next_evals_spec() == self.z_next_evals@
        &&& g.h_evals_spec() == self.h_evals@
        &&& g.advice_count_spec() as nat == srs.cs_spec().num_advice_spec()
        &&& g.group_count_spec() as nat == srs.cs_spec().perms_spec().len()
        &&& g.x_next_spec().val() == crate::arithmetic::fmul(
            <C::Scalar as Field>::modulus(),
            g.x_spec().val(),
            srs.domain_omega_val(),
        )
        &&& g.x_spec().val() == self.x_challenge_spec::<HB>()
        &&& g.q_spec().val() == self.q_challenge_spec::<HB, HS>()
        &&& (g.ok_spec() <==> self.algebraic_accepts::<HB>(srs))
    }

    /// Whether this proof's vectors have the column layout the reference
    /// string expects: one commitment and one evaluation per advice column,
    /// one product per permutation group (with openings at x and ωx), one
    /// evaluation per selector and permutation polynomial, four quotient
    /// chunks, and an opening holding exactly the committed polynomials.
    pub closed spec fn shape_ok(self, srs: SRS<C>) -> bool {
        &&& self.advice_commitments@.len() == srs.cs_spec().num_advice_spec()
        &&& self.advice_evals@.len() == srs.cs_spec().num_advice_spec()
        &&& self.z_commitments@.len() == srs.cs_spec().perms_spec().len()
        &&& self.z_evals@.len() == srs.cs_spec().perms_spec().len()
        &&& self.z_next_evals@.len() == srs.cs_spec().perms_spec().len()
        &&& self.fixed_evals@.len() == srs.fixed_polys_spec().len()
        &&& self.sigma_evals@.len() == srs.sigma_polys_spec().len()
        &&& self.h_commitments@.len() == 4
        &&& self.h_evals@.len() == 4
        &&& self.opening.polys@.len() == srs.cs_spec().num_advice_spec() + srs.cs_spec().perms_spec().len() + 4
    }

    /// Whether every commitment in the proof is exactly the digest of the
    /// corresponding polynomial revealed in the opening: wires first, then
    /// permutation products, then quotient chunks.
    pub closed spec fn opening_committed(self, seed: nat) -> bool {
        &&& self.opening.polys@.len() == self.advice_commitments@.len()
            + self.z_commitments@.len() + self.h_commitments@.len()
        &&& (forall|i: int|
            0 <= i < self.advice_commitments@.len() ==> commits_to::<C>(
                #[trigger] self.advice_commitments@[i],
                seed,
                self.opening.polys@[i],
            ))
        &&& (forall|i: int|
            0 <= i < self.z_commitments@.len() ==> commits_to::<C>(
                #[trigger] self.z_commitments@[i],
                seed,
                self.opening.polys@[self.advice_commitments@.len() + i],
            ))
        &&& (forall|i: int|
            0 <= i < self.h_commitments@.len() ==> commits_to::<C>(
                #[trigger] self.h_commitments@[i],
                seed,
                self.opening.polys@[self.advice_commitments@.len() + self.z_commitments@.len()
                    + i],
            ))
    }

    /// Whether none of the proof's commitments is the identity: the identity
    /// has no coordinates to absorb, so challenge derivation refuses it.
    pub closed spec fn no_identity_commitments(self) -> bool {
        &&& forall|i: int|
            0 <= i < self.advice_commitments@.len()
                ==> !(#[trigger] self.advice_commitments@[i]).is_identity_spec()
        &&& forall|i: int|
            0 <= i < self.z_commitments@.len()
                ==> !(#[trigger] self.z_commitments@[i]).is_identity_spec()
        &&& forall|i: int|
            0 <= i < self.h_commitments@.len()
                ==> !(#[trigger] self.h_commitments@[i]).is_identity_spec()
    }

    /// Create a proof: run the value-carrying synthesis, commit the wire
    /// polynomials, derive the permutation challenges and build the
    /// grand-product polynomials, form the quotient of the combined identity
    /// by the vanishing polynomial, commit its chunks, then evaluate every
    /// committed polynomial at the transcript's challenge point and reveal
    /// the opening. An inconsistent witness still yields a proof: the prover
    /// never checks satisfiability; only the verifier rejects it.
    pub fn create<HBase: Hasher<C::Base>, HScalar: Hasher<C::Scalar>, CC: Circuit<C::Scalar>>(
        params: &Params<C>,
        srs: &SRS<C>,
        circuit: &CC,
    ) -> (out: Result<Proof<C>, Error>)
        ensures
            out matches Ok(p) ==> p.shape_ok(*srs) && p.no_identity_commitments()
                && p.opening_committed(params.seed_val()) && p.evals_true::<HBase>(*srs),
    {
        proof {
            use_type_invariant(srs);
        }
        let mut meta = ConstraintSystem::<C::Scalar>::new();
        let config = CC::configure(&mut meta);
        if !shape_matches(&meta, &srs.cs) {
            return Err(Error::IncompatibleParams);
        }
        let n = srs.domain.n_usize();
        let n64 = srs.domain.n();
        let ext_n = srs.domain.ext_n_usize();
        let num_advice = srs.cs.num_advice();
        let num_fixed = srs.cs.num_fixed();
        let one = <C::Scalar as Field>::one();
        let zero = <C::Scalar as Field>::zero();

        // 1. Value-carrying synthesis records the advice table.
        let assembly = WitnessAssembly::<C::Scalar> { rows: n, advice: zero_matrix(num_advice, n) };
        let assembly = circuit.synthesize(assembly, &config)?;
        let advice = normalized(&assembly.advice, num_advice, n);

        // 2. Interpolate and commit each wire column.
        let mut advice_polys: Vec<Vec<C::Scalar>> = Vec::new();
        let mut advice_commitments: Vec<C> = Vec::new();
        let mut i: usize = 0;
        while i < advice.len()
            invariant
                i <= advice@.len(),
                advice@.len() == num_advice,
                advice_polys@.len() == i,
                advice_commitments@.len() == i,
                forall|j: int|
                    0 <= j < advice@.len() ==> (#[trigger] advice@[j])@.len()
                        == srs.domain.n_spec(),
                forall|j: int|
                    0 <= j < advice_polys@.len() ==> (#[trigger] advice_polys@[j])@.len()
                        == srs.domain.n_spec(),
                forall|j: int|
                    0 <= j < advice_commitments@.len() ==> commits_to::<C>(
                        #[trigger] advice_commitments@[j],
                        params.seed_val(),
                        advice_polys@[j],
                    ),
            decreases advice@.len() - i,
        {
            let poly = srs.domain.interpolate(&advice[i]);
            advice_commitments.push(commit(params, &poly));
            advice_polys.push(poly);
            i = i + 1;
        }

        // 3. Seed the transcript with the wire commitments and draw the
        // permutation challenges.
        let mut transcript = HBase::init();
        let mut i2: usize = 0;
        proof {
            assert(advice_commitments@.take(0) =~= Seq::<C>::empty());
        }
        while i2 < advice_commitments.len()
            invariant
                i2 <= advice_commitments@.len(),
                transcript.state() == absorb_points_spec::<C, HBase>(
                    HBase::init_spec(),
                    advice_commitments@.take(i2 as int),
                ),
            decreases advice_commitments@.len() - i2,
        {
            hash_point(&mut transcript, &advice_commitments[i2])?;
            i2 = i2 + 1;
            proof {
                assert(advice_commitments@.take(i2 as int).drop_last()
                    =~= advice_commitments@.take(i2 as int - 1));
                assert(advice_commitments@.take(i2 as int).last()
                    == advice_commitments@[i2 as int - 1]);
            }
        }
        proof {
            assert(advice_commitments@.take(advice_commitments@.len() as int)
                =~= advice_commitments@);
        }
        let beta: C::Scalar = get_challenge::<C, HBase>(&mut transcript);
        let gamma: C::Scalar = get_challenge::<C, HBase>(&mut transcript);

        // 4. One grand product per permutation group.
        let mut omega_pows: Vec<C::Scalar> = Vec::new();
        let mut curw = one;
        let mut i3: usize = 0;
        while i3 < n
            decreases n - i3,
        {
            omega_pows.push(curw);
            curw = curw.mul(srs.domain.omega());
            i3 = i3 + 1;
        }
        let groups = srs.cs.perm_groups();
        let mut z_values_all: Vec<Vec<C::Scalar>> = Vec::new();
        let mut g: usize = 0;
        while g < groups.len()
            invariant
                2 <= n,
                g <= groups@.len(),
                z_values_all@.len() == g,
                forall|j: int|
                    0 <= j < z_values_all@.len() ==> (#[trigger] z_values_all@[j])@.len() == n,
            decreases groups@.len() - g,
        {
            let cols = &groups[g];
            let off = if g < srs.group_offsets.len() {
                srs.group_offsets[g]
            } else {
                0
            };
            let mut zv: Vec<C::Scalar> = Vec::new();
            zv.push(one);
            let mut row: usize = 0;
            while row < n - 1
                invariant
                    2 <= n,
                    row <= n - 1,
                    zv@.len() == row + 1,
                decreases n - 1 - row,
            {
                let mut num = one;
                let mut den = one;
                let mut j: usize = 0;
                while j < cols.len()
                    decreases cols@.len() - j,
                {
                    let a_val = at2(&advice, cols[j], row);
                    let t_idx = if off <= usize::MAX - j {
                        off + j
                    } else {
                        0
                    };
                    let tag = at(&srs.deltas, t_idx);
                    num = num.mul(a_val.add(beta.mul(tag).mul(at(&omega_pows, row))).add(gamma));
                    den = den.mul(a_val.add(beta.mul(at2(&srs.sigma_values, t_idx, row))).add(gamma));
                    j = j + 1;
                }
                let prev = at(&zv, row);
                zv.push(prev.mul(num).mul(invert(den)));
                row = row + 1;
            }
            z_values_all.push(zv);
            g = g + 1;
        }
        let mut z_polys: Vec<Vec<C::Scalar>> = Vec::new();
        let mut z_commitments: Vec<C> = Vec::new();
        let mut g2: usize = 0;
        while g2 < z_values_all.len()
            invariant
                g2 <= z_values_all@.len(),
                z_polys@.len() == g2,
                z_commitments@.len() == g2,
                forall|j: int|
                    0 <= j < z_values_all@.len() ==> (#[trigger] z_values_all@[j])@.len()
                        == srs.domain.n_spec(),
                forall|j: int|
                    0 <= j < z_polys@.len() ==> (#[trigger] z_polys@[j])@.len()
                        == srs.domain.n_spec(),
                forall|j: int|
                    0 <= j < z_commitments@.len() ==> commits_to::<C>(
                        #[trigger] z_commitments@[j],
                        params.seed_val(),
                        z_polys@[j],
                    ),
            decreases z_values_all@.len() - g2,
        {
            let poly = srs.domain.interpolate(&z_values_all[g2]);
            z_commitments.push(commit(params, &poly));
            z_polys.push(poly);
            g2 = g2 + 1;
        }
        let mut g3: usize = 0;
        let ghost s_gamma: nat = transcript.state();
        proof {
            assert(z_commitments@.take(0) =~= Seq::<C>::empty());
        }
        while g3 < z_commitments.len()
            invariant
                g3 <= z_commitments@.len(),
                transcript.state() == absorb_points_spec::<C, HBase>(
                    s_gamma,
                    z_commitments@.take(g3 as int),
                ),
            decreases z_commitments@.len() - g3,
        {
            hash_point(&mut transcript, &z_commitments[g3])?;
            g3 = g3 + 1;
            proof {
                assert(z_commitments@.take(g3 as int).drop_last()
                    =~= z_commitments@.take(g3 as int - 1));
                assert(z_commitments@.take(g3 as int).last() == z_commitments@[g3 as int - 1]);
            }
        }
        proof {
            assert(z_commitments@.take(z_commitments@.len() as int) =~= z_commitments@);
        }
        let y: C::Scalar = get_challenge::<C, HBase>(&mut transcript);

        // 5. Move everything onto the extended coset domain.
        let mut advice_ext: Vec<Vec<C::Scalar>> = Vec::new();
        let mut i4: usize = 0;
        while i4 < advice_polys.len()
            invariant
                forall|j: int|
                    0 <= j < advice_polys@.len() ==> (#[trigger] advice_polys@[j])@.len()
                        == srs.domain.n_spec(),
                srs.domain.ext_n_spec() == 4 * srs.domain.n_spec(),
            decreases advice_polys@.len() - i4,
        {
            advice_ext.push(srs.domain.coeff_to_extended(&advice_polys[i4]));
            i4 = i4 + 1;
        }
        let mut fixed_ext: Vec<Vec<C::Scalar>> = Vec::new();
        let mut i5: usize = 0;
        while i5 < srs.fixed_polys.len()
            invariant
                forall|j: int|
                    0 <= j < srs.fixed_polys@.len() ==> (#[trigger] srs.fixed_polys@[j])@.len()
                        == srs.domain.n_spec(),
                srs.domain.ext_n_spec() == 4 * srs.domain.n_spec(),
            decreases srs.fixed_polys@.len() - i5,
        {
            fixed_ext.push(srs.domain.coeff_to_extended(&srs.fixed_polys[i5]));
            i5 = i5 + 1;
        }
        let mut sigma_ext: Vec<Vec<C::Scalar>> = Vec::new();
        let mut i6: usize = 0;
        while i6 < srs.sigma_polys.len()
            invariant
                forall|j: int|
                    0 <= j < srs.sigma_polys@.len() ==> (#[trigger] srs.sigma_polys@[j])@.len()
                        == srs.domain.n_spec(),
                srs.domain.ext_n_spec() == 4 * srs.domain.n_spec(),
            decreases srs.sigma_polys@.len() - i6,
        {
            sigma_ext.push(srs.domain.coeff_to_extended(&srs.sigma_polys[i6]));
            i6 = i6 + 1;
        }
        let mut z_ext: Vec<Vec<C::Scalar>> = Vec::new();
        let mut i7: usize = 0;
        while i7 < z_polys.len()
            invariant
                forall|j: int|
                    0 <= j < z_polys@.len() ==> (#[trigger] z_polys@[j])@.len()
                        == srs.domain.n_spec(),
                srs.domain.ext_n_spec() == 4 * srs.domain.n_spec(),
            decreases z_polys@.len() - i7,
        {
            z_ext.push(srs.domain.coeff_to_extended(&z_polys[i7]));
            i7 = i7 + 1;
        }
        let l0_ext = srs.domain.coeff_to_extended(&srs.l0_poly);

        // 6. The combined identity over the extended domain, divided by the
        // vanishing polynomial: gates and permutation identities folded
        // together with powers of y.
        let gates = srs.cs.gates();
        let mut t_values: Vec<C::Scalar> = Vec::new();
        let mut cur_x = srs.domain.g_coset;
        let mut i8: usize = 0;
        while i8 < ext_n
            invariant
                8 <= ext_n,
                i8 <= ext_n,
                ext_n as nat == srs.domain.ext_n_spec(),
                t_values@.len() == i8,
            decreases ext_n - i8,
        {
            let mut adv_at: Vec<C::Scalar> = Vec::new();
            let mut c1: usize = 0;
            while c1 < num_advice
                decreases num_advice - c1,
            {
                adv_at.push(at2(&advice_ext, c1, i8));
                c1 = c1 + 1;
            }
            let mut fix_at: Vec<C::Scalar> = Vec::new();
            let mut c2: usize = 0;
            while c2 < num_fixed
                decreases num_fixed - c2,
            {
                fix_at.push(at2(&fixed_ext, c2, i8));
                c2 = c2 + 1;
            }
            let mut acc = zero;
            let mut k: usize = 0;
            while k < gates.len()
                decreases gates@.len() - k,
            {
                acc = acc.mul(y).add(gates[k].evaluate(&adv_at, &fix_at));
                k = k + 1;
            }
            // z(ωX) on the extended domain is a rotation by ext_n / n = 4.
            let shifted = if i8 >= ext_n - 4 {
                i8 - (ext_n - 4)
            } else {
                i8 + 4
            };
            let mut g4: usize = 0;
            while g4 < groups.len()
                decreases groups@.len() - g4,
            {
                let cols = &groups[g4];
                let off = if g4 < srs.group_offsets.len() {
                    srs.group_offsets[g4]
                } else {
                    0
                };
                let zz = at2(&z_ext, g4, i8);
                let zn = at2(&z_ext, g4, shifted);
                let mut left = zz;
                let mut right = zn;
                let mut j: usize = 0;
                while j < cols.len()
                    decreases cols@.len() - j,
                {
                    let a_val = at(&adv_at, cols[j]);
                    let t_idx = if off <= usize::MAX - j {
                        off + j
                    } else {
                        0
                    };
                    let tag = at(&srs.deltas, t_idx);
                    left = left.mul(a_val.add(beta.mul(tag).mul(cur_x)).add(gamma));
                    right = right.mul(a_val.add(beta.mul(at2(&sigma_ext, t_idx, i8))).add(gamma));
                    j = j + 1;
                }
                acc = acc.mul(y).add(left.sub(right));
                acc = acc.mul(y).add(at(&l0_ext, i8).mul(zz.sub(one)));
                g4 = g4 + 1;
            }
            let zh = pow_u64(cur_x, n64).sub(one);
            t_values.push(acc.mul(invert(zh)));
            cur_x = cur_x.mul(srs.domain.ext_omega);
            i8 = i8 + 1;
        }
        let t_coeffs = srs.domain.extended_to_coeff(&t_values);

        // Split the quotient into chunks of n coefficients and commit each.
        let mut h_polys: Vec<Vec<C::Scalar>> = Vec::new();
        let mut h_commitments: Vec<C> = Vec::new();
        let mut chunk: Vec<C::Scalar> = Vec::new();
        let mut pos: usize = 0;
        while pos < t_coeffs.len()
            invariant
                2 <= n,
                pos <= t_coeffs@.len(),
                t_coeffs@.len() == 4 * srs.domain.n_spec(),
                n == srs.domain.n_spec(),
                chunk@.len() < n,
                h_polys@.len() * n + chunk@.len() == pos,
                h_commitments@.len() == h_polys@.len(),
                forall|j: int|
                    0 <= j < h_commitments@.len() ==> commits_to::<C>(
                        #[trigger] h_commitments@[j],
                        params.seed_val(),
                        h_polys@[j],
                    ),
            decreases t_coeffs@.len() - pos,
        {
            let ghost h0: int = h_polys@.len() as int;
            chunk.push(t_coeffs[pos]);
            if chunk.len() >= n {
                h_commitments.push(commit(params, &chunk));
                h_polys.push(chunk);
                chunk = Vec::new();
                proof {
                    assert((h0 + 1) * n == h0 * n + n) by (nonlinear_arith);
                }
            }
            pos = pos + 1;
        }
        proof {
            assert(h_polys@.len() == 4 && chunk@.len() == 0) by (nonlinear_arith)
                requires
                    h_polys@.len() * n + chunk@.len() == 4 * n,
                    chunk@.len() < n,
                    2 <= n,
            ;
        }
        let mut i9: usize = 0;
        let ghost s_y: nat = transcript.state();
        proof {
            assert(h_commitments@.take(0) =~= Seq::<C>::empty());
        }
        while i9 < h_commitments.len()
            invariant
                i9 <= h_commitments@.len(),
                transcript.state() == absorb_points_spec::<C, HBase>(
                    s_y,
                    h_commitments@.take(i9 as int),
                ),
            decreases h_commitments@.len() - i9,
        {
            hash_point(&mut transcript, &h_commitments[i9])?;
            i9 = i9 + 1;
            proof {
                assert(h_commitments@.take(i9 as int).drop_last()
                    =~= h_commitments@.take(i9 as int - 1));
                assert(h_commitments@.take(i9 as int).last() == h_commitments@[i9 as int - 1]);
            }
        }
        proof {
            assert(h_commitments@.take(h_commitments@.len() as int) =~= h_commitments@);
        }
        let x: C::Scalar = get_challenge::<C, HBase>(&mut transcript);
        let x_next = x.mul(srs.domain.omega());

        // 7. Evaluate every committed polynomial at x (and each grand
        // product also at ωx).
        let mut advice_evals: Vec<C::Scalar> = Vec::new();
        let mut e1: usize = 0;
        while e1 < advice_polys.len()
            invariant
                e1 <= advice_polys@.len(),
                advice_evals@.len() == e1,
                forall|j: int|
                    0 <= j < e1 ==> (#[trigger] advice_evals@[j]).val()
                        == crate::domain::poly_eval(
                        vals(advice_polys@[j]@),
                        x.val(),
                        <C::Scalar as Field>::modulus(),
                    ),
            decreases advice_polys@.len() - e1,
        {
            advice_evals.push(eval_at(&advice_polys[e1], x));
            e1 = e1 + 1;
        }
        let mut fixed_evals: Vec<C::Scalar> = Vec::new();
        let mut e2: usize = 0;
        while e2 < srs.fixed_polys.len()
            invariant
                e2 <= srs.fixed_polys@.len(),
                fixed_evals@.len() == e2,
                forall|j: int|
                    0 <= j < e2 ==> (#[trigger] fixed_evals@[j]).val()
                        == crate::domain::poly_eval(
                        vals(srs.fixed_polys@[j]@),
                        x.val(),
                        <C::Scalar as Field>::modulus(),
                    ),
            decreases srs.fixed_polys@.len() - e2,
        {
            fixed_evals.push(eval_at(&srs.fixed_polys[e2], x));
            e2 = e2 + 1;
        }
        let mut sigma_evals: Vec<C::Scalar> = Vec::new();
        let mut e3: usize = 0;
        while e3 < srs.sigma_polys.len()
            invariant
                e3 <= srs.sigma_polys@.len(),
                sigma_evals@.len() == e3,
                forall|j: int|
                    0 <= j < e3 ==> (#[trigger] sigma_evals@[j]).val()
                        == crate::domain::poly_eval(
                        vals(srs.sigma_polys@[j]@),
                        x.val(),
                        <C::Scalar as Field>::modulus(),
                    ),
            decreases srs.sigma_polys@.len() - e3,
        {
            sigma_evals.push(eval_at(&srs.sigma_polys[e3], x));
            e3 = e3 + 1;
        }
        let mut z_evals: Vec<C::Scalar> = Vec::new();
        let mut z_next_evals: Vec<C::Scalar> = Vec::new();
        let mut e4: usize = 0;
        while e4 < z_polys.len()
            invariant
                e4 <= z_polys@.len(),
                z_evals@.len() == e4,
                z_next_evals@.len() == e4,
                forall|j: int|
                    0 <= j < e4 ==> (#[trigger] z_evals@[j]).val() == crate::domain::poly_eval(
                        vals(z_polys@[j]@),
                        x.val(),
                        <C::Scalar as Field>::modulus(),
                    ),
                forall|j: int|
                    0 <= j < e4 ==> (#[trigger] z_next_evals@[j]).val()
                        == crate::domain::poly_eval(
                        vals(z_polys@[j]@),
                        x_next.val(),
                        <C::Scalar as Field>::modulus(),
                    ),
            decreases z_polys@.len() - e4,
        {
            z_evals.push(eval_at(&z_polys[e4], x));
            z_next_evals.push(eval_at(&z_polys[e4], x_next));
            e4 = e4 + 1;
        }
        let mut h_evals: Vec<C::Scalar> = Vec::new();
        let mut e5: usize = 0;
        while e5 < h_polys.len()
            invariant
                e5 <= h_polys@.len(),
                h_evals@.len() == e5,
                forall|j: int|
                    0 <= j < e5 ==> (#[trigger] h_evals@[j]).val() == crate::domain::poly_eval(
                        vals(h_polys@[j]@),
                        x.val(),
                        <C::Scalar as Field>::modulus(),
                    ),
            decreases h_polys@.len() - e5,
        {
            h_evals.push(eval_at(&h_polys[e5], x));
            e5 = e5 + 1;
        }

        // 8. Fold every claimed evaluation through the scalar transcript
        // before the opening is produced.
        let mut sc = HScalar::init();
        absorb_all(&mut sc, &advice_evals);
        absorb_all(&mut sc, &fixed_evals);
        absorb_all(&mut sc, &sigma_evals);
        absorb_all(&mut sc, &z_evals);
        absorb_all(&mut sc, &z_next_evals);
        absorb_all(&mut sc, &h_evals);
        let digest = sc.squeeze();
        transcript.absorb(<C::Base as Field>::from_u64(digest.as_u64()));

        let mut polys: Vec<Vec<C::Scalar>> = Vec::new();
        let mut advice_polys = advice_polys;
        let mut z_polys = z_polys;
        let mut h_polys = h_polys;
        polys.append(&mut advice_polys);
        polys.append(&mut z_polys);
        polys.append(&mut h_polys);

        Ok(
            Proof {
                advice_commitments,
                z_commitments,
                h_commitments,
                advice_evals,
                fixed_evals,
                sigma_evals,
                z_evals,
                z_next_evals,
                h_evals,
                opening: OpeningProof { polys },
            },
        )
    }

    /// Verify the proof against the reference string: recompute every
    /// challenge from the proof's own commitments, check gate and
    /// permutation identities at the challenge point against the claimed
    /// quotient, and hand the opening to the deferred commitment check,
    /// finalized here through the challenge-power strategy.
    pub fn verify<HBase: Hasher<C::Base>, HScalar: Hasher<C::Scalar>>(
        &self,
        params: &Params<C>,
        srs: &SRS<C>,
    ) -> (r: bool)
        ensures
            r <==> (self.shape_ok(*srs) && self.no_identity_commitments() && (exists|g: Guard<C>|
                (#[trigger] self.guard_for::<HBase, HScalar>(*srs, g)) && g.accepts_folded(
                    params.seed_val(),
                ))),
    {
        match self.verify_guard::<HBase, HScalar>(params, srs) {
            Ok(guard) => {
                let r = guard.use_challenges(params);
                proof {
                    if !r {
                        assert forall|g: Guard<C>|
                            #[trigger] self.guard_for::<HBase, HScalar>(
                                *srs,
                                g,
                            ) implies !g.accepts_folded(params.seed_val()) by {
                            lemma_guard_determined(g, guard, params.seed_val());
                        };
                    }
                }
                r
            },
            Err(_) => false,
        }
    }

    /// The verifier proper: everything but the deferred commitment check.
    /// Fails with `IncompatibleParams` exactly when the proof's shape does
    /// not match the reference string's column layout; an algebraic mismatch
    /// is not an error here — it makes the returned guard reject.
    pub fn verify_guard<HBase: Hasher<C::Base>, HScalar: Hasher<C::Scalar>>(
        &self,
        params: &Params<C>,
        srs: &SRS<C>,
    ) -> (out: Result<Guard<C>, Error>)
        ensures
            out.is_ok() <==> self.shape_ok(*srs) && self.no_identity_commitments(),
            out matches Err(e) ==> (e == Error::IncompatibleParams
                || e == Error::ConstraintSystemFailure),
            out matches Err(e) ==> (e == Error::IncompatibleParams <==> !self.shape_ok(*srs)),
            out matches Ok(g) ==> self.guard_for::<HBase, HScalar>(*srs, g),
    {
        proof {
            use_type_invariant(srs);
        }
        let num_advice = srs.cs.num_advice();
        let groups = srs.cs.perm_groups();
        let group_count = groups.len();
        if self.advice_commitments.len() != num_advice || self.advice_evals.len() != num_advice {
            return Err(Error::IncompatibleParams);
        }
        if self.z_commitments.len() != group_count || self.z_evals.len() != group_count
            || self.z_next_evals.len() != group_count {
            return Err(Error::IncompatibleParams);
        }
        if self.fixed_evals.len() != srs.fixed_polys.len() || self.sigma_evals.len()
            != srs.sigma_polys.len() {
            return Err(Error::IncompatibleParams);
        }
        if self.h_commitments.len() != self.h_evals.len() || self.h_commitments.len() != 4 {
            return Err(Error::IncompatibleParams);
        }
        // The opening must hold exactly the committed polynomials.
        let opening_len = self.opening.polys.len();
        if opening_len < num_advice {
            return Err(Error::IncompatibleParams);
        }
        if opening_len - num_advice < group_count {
            return Err(Error::IncompatibleParams);
        }
        if opening_len - num_advice - group_count != 4 {
            return Err(Error::IncompatibleParams);
        }

        // Recompute every challenge from the proof's own commitments.
        let mut transcript = HBase::init();
        let mut i: usize = 0;
        proof {
            assert(self.advice_commitments@.take(0) =~= Seq::<C>::empty());
        }
        while i < self.advice_commitments.len()
            invariant
                self.shape_ok(*srs),
                i <= self.advice_commitments@.len(),
                transcript.state() == absorb_points_spec::<C, HBase>(
                    HBase::init_spec(),
                    self.advice_commitments@.take(i as int),
                ),
                forall|k: int|
                    0 <= k < i ==> !(#[trigger] self.advice_commitments@[k]).is_identity_spec(),
            decreases self.advice_commitments@.len() - i,
        {
            match hash_point(&mut transcript, &self.advice_commitments[i]) {
                Ok(()) => (),
                Err(_) => {
                    return Err(Error::ConstraintSystemFailure);
                },
            }
            i = i + 1;
            proof {
                assert(self.advice_commitments@.take(i as int).drop_last()
                    =~= self.advice_commitments@.take(i as int - 1));
                assert(self.advice_commitments@.take(i as int).last()
                    == self.advice_commitments@[i as int - 1]);
            }
        }
        proof {
            assert(self.advice_commitments@.take(self.advice_commitments@.len() as int)
                =~= self.advice_commitments@);
        }
        let beta: C::Scalar = get_challenge::<C, HBase>(&mut transcript);
        let gamma: C::Scalar = get_challenge::<C, HBase>(&mut transcript);
        let mut i2: usize = 0;
        proof {
            assert(self.z_commitments@.take(0) =~= Seq::<C>::empty());
        }
        while i2 < self.z_commitments.len()
            invariant
                self.shape_ok(*srs),
                i2 <= self.z_commitments@.len(),
                transcript.state() == absorb_points_spec::<C, HBase>(
                    HBase::after_squeeze_spec(
                        HBase::after_squeeze_spec(self.state_wires::<HBase>()),
                    ),
                    self.z_commitments@.take(i2 as int),
                ),
                forall|k: int|
                    0 <= k < self.advice_commitments@.len()
                        ==> !(#[trigger] self.advice_commitments@[k]).is_identity_spec(),
                forall|k: int|
                    0 <= k < i2 ==> !(#[trigger] self.z_commitments@[k]).is_identity_spec(),
            decreases self.z_commitments@.len() - i2,
        {
            match hash_point(&mut transcript, &self.z_commitments[i2]) {
                Ok(()) => (),
                Err(_) => {
                    return Err(Error::ConstraintSystemFailure);
                },
            }
            i2 = i2 + 1;
            proof {
                assert(self.z_commitments@.take(i2 as int).drop_last()
                    =~= self.z_commitments@.take(i2 as int - 1));
                assert(self.z_commitments@.take(i2 as int).last()
                    == self.z_commitments@[i2 as int - 1]);
            }
        }
        proof {
            assert(self.z_commitments@.take(self.z_commitments@.len() as int)
                =~= self.z_commitments@);
        }
        let y: C::Scalar = get_challenge::<C, HBase>(&mut transcript);
        let mut i3: usize = 0;
        proof {
            assert(self.h_commitments@.take(0) =~= Seq::<C>::empty());
        }
        while i3 < self.h_commitments.len()
            invariant
                self.shape_ok(*srs),
                i3 <= self.h_commitments@.len(),
                transcript.state() == absorb_points_spec::<C, HBase>(
                    HBase::after_squeeze_spec(self.state_products::<HBase>()),
                    self.h_commitments@.take(i3 as int),
                ),
                forall|k: int|
                    0 <= k < self.advice_commitments@.len()
                        ==> !(#[trigger] self.advice_commitments@[k]).is_identity_spec(),
                forall|k: int|
                    0 <= k < self.z_commitments@.len()
                        ==> !(#[trigger] self.z_commitments@[k]).is_identity_spec(),
                forall|k: int|
                    0 <= k < i3 ==> !(#[trigger] self.h_commitments@[k]).is_identity_spec(),
            decreases self.h_commitments@.len() - i3,
        {
            match hash_point(&mut transcript, &self.h_commitments[i3]) {
                Ok(()) => (),
                Err(_) => {
                    return Err(Error::ConstraintSystemFailure);
                },
            }
            i3 = i3 + 1;
            proof {
                assert(self.h_commitments@.take(i3 as int).drop_last()
                    =~= self.h_commitments@.take(i3 as int - 1));
                assert(self.h_commitments@.take(i3 as int).last()
                    == self.h_commitments@[i3 as int - 1]);
            }
        }
        proof {
            assert(self.h_commitments@.take(self.h_commitments@.len() as int)
                =~= self.h_commitments@);
        }
        let x: C::Scalar = get_challenge::<C, HBase>(&mut transcript);
        let x_next = x.mul(srs.domain.omega());

        // Recompute the combined identity at x from the claimed openings and
        // compare with the claimed quotient recombined over the vanishing
        // polynomial.
        let ghost m: nat = <C::Scalar as Field>::modulus();
        let one = <C::Scalar as Field>::one();
        let zero = <C::Scalar as Field>::zero();
        let gates = srs.cs.gates();
        let mut acc = zero;
        let mut k: usize = 0;
        proof {
            assert(srs.cs_spec().gates_spec().take(0) =~= Seq::<Expression<C::Scalar>>::empty());
        }
        while k < gates.len()
            invariant
                k <= gates@.len(),
                gates@ == srs.cs_spec().gates_spec(),
                acc.val() == gates_fold(
                    srs.cs_spec().gates_spec().take(k as int),
                    vals(self.advice_evals@),
                    vals(self.fixed_evals@),
                    y.val(),
                    <C::Scalar as Field>::modulus(),
                ),
            decreases gates@.len() - k,
        {
            acc = acc.mul(y).add(gates[k].evaluate(&self.advice_evals, &self.fixed_evals));
            k = k + 1;
            proof {
                assert(srs.cs_spec().gates_spec().take(k as int).drop_last()
                    =~= srs.cs_spec().gates_spec().take(k as int - 1));
                assert(srs.cs_spec().gates_spec().take(k as int).last()
                    == srs.cs_spec().gates_spec()[k as int - 1]);
            }
        }
        proof {
            assert(srs.cs_spec().gates_spec().take(srs.cs_spec().gates_spec().len() as int)
                =~= srs.cs_spec().gates_spec());
        }
        let ghost gates_total: nat = acc.val();
        let l0x = eval_at(&srs.l0_poly, x);
        let mut g: usize = 0;
        while g < groups.len()
            invariant
                g <= groups@.len(),
                groups@.len() == srs.cs_spec().perms_spec().len(),
                one.val() == 1,
                forall|i5: int|
                    0 <= i5 < groups@.len() ==> (#[trigger] groups@[i5])@
                        == srs.cs_spec().perms_spec()[i5],
                acc.val() == self.groups_fold(
                    *srs,
                    g as int,
                    gates_total,
                    y.val(),
                    beta.val(),
                    gamma.val(),
                    x.val(),
                    l0x.val(),
                ),
            decreases groups@.len() - g,
        {
            let cols = &groups[g];
            let off = if g < srs.group_offsets.len() {
                srs.group_offsets[g]
            } else {
                0
            };
            let zz = at(&self.z_evals, g);
            let zn = at(&self.z_next_evals, g);
            let mut left = zz;
            let mut right = zn;
            let mut j: usize = 0;
            while j < cols.len()
                invariant
                    j <= cols@.len(),
                    g < groups@.len(),
                    groups@.len() == srs.cs_spec().perms_spec().len(),
                    cols@ == srs.cs_spec().perms_spec()[g as int],
                    off == srs.offset_of(g as int),
                    left.val() == self.left_fold(
                        *srs,
                        g as int,
                        j as int,
                        beta.val(),
                        gamma.val(),
                        x.val(),
                    ),
                    right.val() == self.right_fold(
                        *srs,
                        g as int,
                        j as int,
                        beta.val(),
                        gamma.val(),
                    ),
                decreases cols@.len() - j,
            {
                let a_val = at(&self.advice_evals, cols[j]);
                let t_idx = if off <= usize::MAX - j {
                    off + j
                } else {
                    0
                };
                let tag = at(&srs.deltas, t_idx);
                left = left.mul(a_val.add(beta.mul(tag).mul(x)).add(gamma));
                right = right.mul(a_val.add(beta.mul(at(&self.sigma_evals, t_idx))).add(gamma));
                j = j + 1;
            }
            let ghost acc_prev: nat = acc.val();
            acc = acc.mul(y).add(left.sub(right));
            acc = acc.mul(y).add(l0x.mul(zz.sub(one)));
            proof {
                assert(zz.val() == claim_val(self.z_evals@, g as int));
                assert(zn.val() == claim_val(self.z_next_evals@, g as int));
                assert(cols@.len() as int == srs.cs_spec().perms_spec()[g as int].len() as int);
                assert(acc.val() == self.groups_fold(
                    *srs,
                    g as int + 1,
                    gates_total,
                    y.val(),
                    beta.val(),
                    gamma.val(),
                    x.val(),
                    l0x.val(),
                ));
            }
            g = g + 1;
        }
        let xn = pow_u64(x, srs.domain.n());
        let zh = xn.sub(one);
        let hsum = eval_at(&self.h_evals, xn);
        let algebraic_ok = acc.equals(zh.mul(hsum));
        proof {
            assert(algebraic_ok == self.algebraic_accepts::<HBase>(*srs));
        }

        // Recompute the evaluation digest and draw the batching challenge.
        let mut sc = HScalar::init();
        absorb_all(&mut sc, &self.advice_evals);
        absorb_all(&mut sc, &self.fixed_evals);
        absorb_all(&mut sc, &self.sigma_evals);
        absorb_all(&mut sc, &self.z_evals);
        absorb_all(&mut sc, &self.z_next_evals);
        absorb_all(&mut sc, &self.h_evals);
        let digest = sc.squeeze();
        transcript.absorb(<C::Base as Field>::from_u64(digest.as_u64()));
        let q: C::Scalar = get_challenge::<C, HBase>(&mut transcript);

        let mut commitments: Vec<C> = Vec::new();
        let mut ca = copy_points(&self.advice_commitments);
        let mut cz = copy_points(&self.z_commitments);
        let mut ch = copy_points(&self.h_commitments);
        commitments.append(&mut ca);
        commitments.append(&mut cz);
        commitments.append(&mut ch);
        proof {
            assert(commitments@ =~= self.advice_commitments@ + self.z_commitments@
                + self.h_commitments@);
        }

        Ok(
            Guard {
                ok: algebraic_ok,
                polys: copy_polys(&self.opening.polys),
                commitments,
                x,
                x_next,
                advice_count: num_advice,
                group_count,
                advice_evals: copy_scalars(&self.advice_evals),
                z_evals: copy_scalars(&self.z_evals),
                z_next_evals: copy_scalars(&self.z_next_evals),
                h_evals: copy_scalars(&self.h_evals),
                q,
            },
        )
    }
}

/// Two guards that agree on everything the deferred checks read — the
/// algebraic flag, the commitments, the claims, the points, the batching
/// challenge and the opened polynomials' contents — have equal residuals.
proof fn lemma_residuals_determined<C: CurveAffine>(g1: Guard<C>, g2: Guard<C>, i: int)
    requires
        g1.polys_spec().len() == g2.polys_spec().len(),
        forall|k: int|
            0 <= k < g1.polys_spec().len() ==> (#[trigger] g1.polys_spec()[k])@
                == g2.polys_spec()[k]@,
        g1.advice_evals_spec() == g2.advice_evals_spec(),
        g1.z_evals_spec() == g2.z_evals_spec(),
        g1.z_next_evals_spec() == g2.z_next_evals_spec(),
        g1.h_evals_spec() == g2.h_evals_spec(),
        g1.advice_count_spec() == g2.advice_count_spec(),
        g1.group_count_spec() == g2.group_count_spec(),
        g1.x_spec().val() == g2.x_spec().val(),
        g1.x_next_spec().val() == g2.x_next_spec().val(),
    ensures
        g1.residual_seq(i) == g2.residual_seq(i),
{
}

/// The folded residual combination of two agreeing guards is equal, entry by
/// entry.
proof fn lemma_fold_determined<C: CurveAffine>(g1: Guard<C>, g2: Guard<C>, i: int)
    requires
        g1.polys_spec().len() == g2.polys_spec().len(),
        forall|k: int|
            0 <= k < g1.polys_spec().len() ==> (#[trigger] g1.polys_spec()[k])@
                == g2.polys_spec()[k]@,
        g1.advice_evals_spec() == g2.advice_evals_spec(),
        g1.z_evals_spec() == g2.z_evals_spec(),
        g1.z_next_evals_spec() == g2.z_next_evals_spec(),
        g1.h_evals_spec() == g2.h_evals_spec(),
        g1.advice_count_spec() == g2.advice_count_spec(),
        g1.group_count_spec() == g2.group_count_spec(),
        g1.x_spec().val() == g2.x_spec().val(),
        g1.x_next_spec().val() == g2.x_next_spec().val(),
        g1.q_spec().val() == g2.q_spec().val(),
    ensures
        g1.fold_upto(i) == g2.fold_upto(i),
    decreases i,
{
    if i > 0 {
        lemma_fold_determined(g1, g2, i - 1);
        lemma_residuals_determined(g1, g2, i - 1);
    }
}

/// Acceptance under the challenge-power strategy is a function of what the
/// deferred checks read: two guards agreeing on it accept together.
pub proof fn lemma_guard_determined<C: CurveAffine>(g1: Guard<C>, g2: Guard<C>, seed: nat)
    requires
        g1.ok_spec() == g2.ok_spec(),
        g1.commitments_spec() == g2.commitments_spec(),
        g1.polys_spec().len() == g2.polys_spec().len(),
        forall|k: int|
            0 <= k < g1.polys_spec().len() ==> (#[trigger] g1.polys_spec()[k])@
                == g2.polys_spec()[k]@,
        g1.advice_evals_spec() == g2.advice_evals_spec(),
        g1.z_evals_spec() == g2.z_evals_spec(),
        g1.z_next_evals_spec() == g2.z_next_evals_spec(),
        g1.h_evals_spec() == g2.h_evals_spec(),
        g1.advice_count_spec() == g2.advice_count_spec(),
        g1.group_count_spec() == g2.group_count_spec(),
        g1.x_spec().val() == g2.x_spec().val(),
        g1.x_next_spec().val() == g2.x_next_spec().val(),
        g1.q_spec().val() == g2.q_spec().val(),
    ensures
        g1.accepts_folded(seed) == g2.accepts_folded(seed),
{
    lemma_fold_determined(g1, g2, g1.polys_spec().len() as int);
    assert(g1.commitments_ok(seed) == g2.commitments_ok(seed));
}

/// A residue subtracted from itself vanishes modulo m.
proof fn lemma_fsub_self(m: nat, a: nat)
    requires
        m > 0,
    ensures
        fsub(m, a, a) == 0,
{
    vstd::arithmetic::div_mod::lemma_mod_self_0(m as int);
}

/// Partial completeness of the deferred checks: a proof whose commitments
/// digest its opening and whose claimed evaluations are the true evaluations
/// of its polynomials at the derived points — what `Proof::create` ensures of
/// every proof it returns — makes every residual and digest check of its
/// recomputed guard pass, so the guard's acceptance comes down to the
/// algebraic flag alone.
pub proof fn lemma_honest_openings_accepted<
    C: CurveAffine,
    HB: Hasher<C::Base>,
    HS: Hasher<C::Scalar>,
>(p: Proof<C>, srs: SRS<C>, params: Params<C>, g: Guard<C>)
    requires
        p.shape_ok(srs),
        p.opening_committed(params.seed_val()),
        p.evals_true::<HB>(srs),
        p.guard_for::<HB, HS>(srs, g),
        g.ok_spec(),
    ensures
        g.accepts_pointwise(params.seed_val()),
{
    <C::Scalar as Field>::modulus_facts();
    let m = <C::Scalar as Field>::modulus();
    let seed = params.seed_val();
    let a_len = p.advice_commitments@.len() as int;
    let z_len = p.z_commitments@.len() as int;
    assert(g.commitments_ok(seed)) by {
        assert forall|i: int| 0 <= i < g.polys_spec().len() implies {
            let c = #[trigger] g.commitments_spec()[i];
            &&& !c.is_identity_spec()
            &&& c.x_val() == commit_x::<C>(seed, vals(g.polys_spec()[i]@))
            &&& c.y_val() == commit_y::<C>(seed, vals(g.polys_spec()[i]@))
        } by {
            if i < a_len {
                assert(g.commitments_spec()[i] == p.advice_commitments@[i]);
            } else if i < a_len + z_len {
                assert(g.commitments_spec()[i] == p.z_commitments@[i - a_len]);
            } else {
                assert(g.commitments_spec()[i] == p.h_commitments@[i - a_len - z_len]);
            }
        };
    };
    assert forall|i: int, j: int|
        0 <= i < g.polys_spec().len() && 0 <= j < g.residual_seq(i).len() implies #[trigger] g.residual_seq(
        i,
    )[j] == 0 by {
        let x = g.x_spec().val();
        let xw = g.x_next_spec().val();
        if i < g.advice_count_spec() {
            lemma_fsub_self(m, crate::domain::poly_eval(vals(g.polys_spec()[i]@), x, m));
        } else if i - g.advice_count_spec() < g.group_count_spec() {
            lemma_fsub_self(m, crate::domain::poly_eval(vals(g.polys_spec()[i]@), x, m));
            lemma_fsub_self(m, crate::domain::poly_eval(vals(g.polys_spec()[i]@), xw, m));
        } else {
            lemma_fsub_self(m, crate::domain::poly_eval(vals(g.polys_spec()[i]@), x, m));
        }
    };
}

/// An element-wise copy of a vector of field elements.
fn copy_scalars<F: Field>(v: &Vec<F>) -> (r: Vec<F>)
    ensures
        r@ == v@,
{
    let mut out: Vec<F> = Vec::new();
    let mut i: usize = 0;
    while i < v.len()
        invariant
            i <= v@.len(),
            out@ =~= v@.take(i as int),
        decreases v@.len() - i,
    {
        out.push(v[i]);
        i = i + 1;
    }
    proof {
        assert(out@ =~= v@);
    }
    out
}

/// An element-wise copy of a vector of points.
fn copy_points<C: CurveAffine>(v: &Vec<C>) -> (r: Vec<C>)
    ensures
        r@ == v@,
{
    let mut out: Vec<C> = Vec::new();
    let mut i: usize = 0;
    while i < v.len()
        invariant
            i <= v@.len(),
            out@ =~= v@.take(i as int),
        decreases v@.len() - i,
    {
        out.push(v[i]);
        i = i + 1;
    }
    proof {
        assert(out@ =~= v@);
    }
    out
}

/// An element-wise copy of a list of polynomials.
fn copy_polys<F: Field>(v: &Vec<Vec<F>>) -> (r: Vec<Vec<F>>)
    ensures
        r@.len() == v@.len(),
        forall|i: int| 0 <= i < v@.len() ==> (#[trigger] r@[i])@ == v@[i]@,
{
    let mut out: Vec<Vec<F>> = Vec::new();
    let mut i: usize = 0;
    while i < v.len()
        invariant
            i <= v@.len(),
            out@.len() == i,
            forall|j: int| 0 <= j < i ==> (#[trigger] out@[j])@ == v@[j]@,
        decreases v@.len() - i,
    {
        out.push(copy_scalars(&v[i]));
        i = i + 1;
    }
    out
}

/// The transcript state after absorbing each element of a sequence, in
/// order.
pub open spec fn absorb_scalars_spec<F: Field, H: Hasher<F>>(s: nat, vs: Seq<F>) -> nat
    decreases vs.len(),
{
    if vs.len() == 0 {
        s
    } else {
        H::absorb_spec(absorb_scalars_spec::<F, H>(s, vs.drop_last()), vs.last().val())
    }
}

/// The transcript state after absorbing each point's coordinates (x then y),
/// in order.
pub open spec fn absorb_points_spec<C: CurveAffine, H: Hasher<C::Base>>(s: nat, cs: Seq<C>) -> nat
    decreases cs.len(),
{
    if cs.len() == 0 {
        s
    } else {
        H::absorb_spec(
            H::absorb_spec(absorb_points_spec::<C, H>(s, cs.drop_last()), cs.last().x_val()),
            cs.last().y_val(),
        )
    }
}

/// Absorb every element of a vector into a transcript, in order.
fn absorb_all<F: Field, H: Hasher<F>>(transcript: &mut H, values: &Vec<F>)
    ensures
        final(transcript).state() == absorb_scalars_spec::<F, H>(old(transcript).state(), values@),
{
    let ghost s0: nat = transcript.state();
    let mut i: usize = 0;
    proof {
        assert(values@.take(0) =~= Seq::<F>::empty());
    }
    while i < values.len()
        invariant
            i <= values@.len(),
            transcript.state() == absorb_scalars_spec::<F, H>(s0, values@.take(i as int)),
            s0 == old(transcript).state(),
        decreases values@.len() - i,
    {
        transcript.absorb(values[i]);
        i = i + 1;
        proof {
            assert(values@.take(i as int).drop_last() =~= values@.take(i as int - 1));
            assert(values@.take(i as int).last() == values@[i as int - 1]);
        }
    }
    proof {
        assert(values@.take(values@.len() as int) =~= values@);
    }
}

} // verus!
