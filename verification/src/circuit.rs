//! The constraint-system and circuit contract: typed column handles, symbolic
//! gate expressions, the shape a circuit declares once in `configure`, and
//! the assignment capability a circuit consumes during `synthesize`.

use vstd::prelude::*;
use crate::arithmetic::Field;
use crate::arithmetic::fadd;
use crate::arithmetic::fmul;
use crate::plonk::Error;

verus! {

/// Marker for witness (prover-supplied) columns.
#[derive(Clone, Copy, Debug)]
pub struct Advice;

/// Marker for fixed (selector) columns.
#[derive(Clone, Copy, Debug)]
pub struct Fixed;

/// A typed index into the row-indexed table of columns of one kind.
#[derive(Clone, Copy, Debug)]
pub struct Column<C> {
    index: usize,
    kind: C,
}

impl<C> Column<C> {
    /// The column's index among columns of its kind.
    pub closed spec fn index_spec(self) -> usize {
        self.index
    }

    /// A handle to the column with the given index and kind.
    pub fn new(index: usize, kind: C) -> (r: Self)
        ensures
            r.index_spec() == index,
    {
        Column { index, kind }
    }

    /// The column's index.
    pub fn index(&self) -> (r: usize)
        ensures
            r == self.index_spec(),
    {
        self.index
    }
}

/// A symbolic polynomial over column queries at the anchor row, combined by
/// ring operations; a gate stores one such identity.
#[derive(Debug)]
pub enum Expression<F> {
    /// The value of the advice column with this index, at the anchor row.
    Advice(usize),
    /// The value of the fixed column with this index, at the anchor row.
    Fixed(usize),
    /// A constant.
    Constant(F),
    /// The sum of two expressions.
    Sum(Box<Expression<F>>, Box<Expression<F>>),
    /// The product of two expressions.
    Product(Box<Expression<F>>, Box<Expression<F>>),
}

/// The residue an expression evaluates to, given the residues of each advice
/// and fixed column at one point; out-of-range queries read zero.
pub open spec fn expr_eval<F: Field>(e: Expression<F>, adv: Seq<nat>, fix: Seq<nat>) -> nat
    decreases e,
{
    match e {
        Expression::Advice(c) => if c < adv.len() {
            adv[c as int]
        } else {
            0
        },
        Expression::Fixed(c) => if c < fix.len() {
            fix[c as int]
        } else {
            0
        },
        Expression::Constant(x) => x.val(),
        Expression::Sum(a, b) => fadd(F::modulus(), expr_eval(*a, adv, fix), expr_eval(*b, adv, fix)),
        Expression::Product(a, b) => fmul(
            F::modulus(),
            expr_eval(*a, adv, fix),
            expr_eval(*b, adv, fix),
        ),
    }
}

/// The degree of an expression: queries are degree 1, constants 0.
pub open spec fn expr_degree<F>(e: Expression<F>) -> nat
    decreases e,
{
    match e {
        Expression::Advice(_) => 1,
        Expression::Fixed(_) => 1,
        Expression::Constant(_) => 0,
        Expression::Sum(a, b) => if expr_degree(*a) >= expr_degree(*b) {
            expr_degree(*a)
        } else {
            expr_degree(*b)
        },
        Expression::Product(a, b) => expr_degree(*a) + expr_degree(*b),
    }
}

impl<F: Field> Expression<F> {
    /// The sum of this expression and another.
    pub fn plus(self, other: Expression<F>) -> (r: Expression<F>)
        ensures
            r == Expression::Sum(Box::new(self), Box::new(other)),
    {
        Expression::Sum(Box::new(self), Box::new(other))
    }

    /// The product of this expression and another.
    pub fn times(self, other: Expression<F>) -> (r: Expression<F>)
        ensures
            r == Expression::Product(Box::new(self), Box::new(other)),
    {
        Expression::Product(Box::new(self), Box::new(other))
    }

    /// Evaluate the expression at one point, given each column's value there.
    pub fn evaluate(&self, adv: &Vec<F>, fix: &Vec<F>) -> (r: F)
        ensures
            r.val() == expr_eval(*self, crate::arithmetic::vals(adv@), crate::arithmetic::vals(fix@)),
        decreases *self,
    {
        match self {
            Expression::Advice(c) => {
                if *c < adv.len() {
                    adv[*c]
                } else {
                    F::zero()
                }
            },
            Expression::Fixed(c) => {
                if *c < fix.len() {
                    fix[*c]
                } else {
                    F::zero()
                }
            },
            Expression::Constant(x) => *x,
            Expression::Sum(a, b) => a.evaluate(adv, fix).add(b.evaluate(adv, fix)),
            Expression::Product(a, b) => a.evaluate(adv, fix).mul(b.evaluate(adv, fix)),
        }
    }

    /// The expression's degree.
    pub fn degree(&self) -> (r: u64)
        ensures
            r as nat == expr_degree(*self) || r == u64::MAX,
        decreases *self,
    {
        match self {
            Expression::Advice(_) => 1,
            Expression::Fixed(_) => 1,
            Expression::Constant(_) => 0,
            Expression::Sum(a, b) => {
                let da = a.degree();
                let db = b.degree();
                if da >= db {
                    da
                } else {
                    db
                }
            },
            Expression::Product(a, b) => {
                let da = a.degree();
                let db = b.degree();
                if da <= u64::MAX - db {
                    da + db
                } else {
                    u64::MAX
                }
            },
        }
    }
}

/// The query object a gate-construction closure receives: it turns column
/// handles into symbolic queries.
#[derive(Clone, Copy, Debug)]
pub struct Queries;

impl Queries {
    /// A symbolic query of an advice column at the anchor row.
    pub fn query_advice<F: Field>(&self, column: Column<Advice>) -> (r: Expression<F>)
        ensures
            r == Expression::<F>::Advice(column.index_spec()),
    {
        Expression::Advice(column.index())
    }

    /// A symbolic query of a fixed column at the anchor row.
    pub fn query_fixed<F: Field>(&self, column: Column<Fixed>) -> (r: Expression<F>)
        ensures
            r == Expression::<F>::Fixed(column.index_spec()),
    {
        Expression::Fixed(column.index())
    }
}

/// The shape of a circuit: how many columns of each kind exist, which
/// gate identities must vanish on every row, and the permutation groups whose
/// cells copy constraints may link. Built once by `configure`, never mutated
/// afterwards.
#[derive(Debug)]
pub struct ConstraintSystem<F: Field> {
    num_advice: usize,
    num_fixed: usize,
    gates: Vec<Expression<F>>,
    permutations: Vec<Vec<usize>>,
}

impl<F: Field> ConstraintSystem<F> {
    /// How many advice columns have been allocated.
    pub closed spec fn num_advice_spec(self) -> nat {
        self.num_advice as nat
    }

    /// How many fixed columns have been allocated.
    pub closed spec fn num_fixed_spec(self) -> nat {
        self.num_fixed as nat
    }

    /// Gate identities registered so far.
    pub closed spec fn gates_spec(self) -> Seq<Expression<F>> {
        self.gates@
    }

    /// The permutation groups registered so far, each a list of advice column
    /// indices.
    pub closed spec fn perms_spec(self) -> Seq<Seq<usize>> {
        self.permutations@.map_values(|v: Vec<usize>| v@)
    }

    /// An empty shape.
    pub fn new() -> (r: Self)
        ensures
            r.num_advice_spec() == 0,
            r.num_fixed_spec() == 0,
            r.gates_spec() =~= Seq::<Expression<F>>::empty(),
            r.perms_spec() =~= Seq::<Seq<usize>>::empty(),
    {
        ConstraintSystem { num_advice: 0, num_fixed: 0, gates: Vec::new(), permutations: Vec::new() }
    }

    /// How many advice columns have been allocated.
    pub fn num_advice(&self) -> (r: usize)
        ensures
            r as nat == self.num_advice_spec(),
    {
        self.num_advice
    }

    /// How many fixed columns have been allocated.
    pub fn num_fixed(&self) -> (r: usize)
        ensures
            r as nat == self.num_fixed_spec(),
    {
        self.num_fixed
    }

    /// The registered gate identities.
    pub fn gates(&self) -> (r: &Vec<Expression<F>>)
        ensures
            r@ == self.gates_spec(),
    {
        &self.gates
    }

    /// The registered permutation groups, as advice column indices.
    pub fn perm_groups(&self) -> (r: &Vec<Vec<usize>>)
        ensures
            r@.len() == self.perms_spec().len(),
            forall|i: int| 0 <= i < r@.len() ==> (#[trigger] r@[i])@ == self.perms_spec()[i],
    {
        proof {
            assert(forall|i: int|
                0 <= i < self.permutations@.len() ==> (#[trigger] self.permutations@[i])@
                    == self.perms_spec()[i]);
        }
        &self.permutations
    }

    /// Allocate a fresh advice column; each call returns a distinct handle.
    pub fn advice_column(&mut self) -> (r: Column<Advice>)
        requires
            old(self).num_advice_spec() < usize::MAX,
        ensures
            r.index_spec() as nat == old(self).num_advice_spec(),
            final(self).num_advice_spec() == old(self).num_advice_spec() + 1,
            final(self).num_fixed_spec() == old(self).num_fixed_spec(),
            final(self).gates_spec() == old(self).gates_spec(),
            final(self).perms_spec() == old(self).perms_spec(),
    {
        let index = self.num_advice;
        self.num_advice = self.num_advice + 1;
        Column::new(index, Advice)
    }

    /// Allocate a fresh fixed column; each call returns a distinct handle.
    pub fn fixed_column(&mut self) -> (r: Column<Fixed>)
        requires
            old(self).num_fixed_spec() < usize::MAX,
        ensures
            r.index_spec() as nat == old(self).num_fixed_spec(),
            final(self).num_fixed_spec() == old(self).num_fixed_spec() + 1,
            final(self).num_advice_spec() == old(self).num_advice_spec(),
            final(self).gates_spec() == old(self).gates_spec(),
            final(self).perms_spec() == old(self).perms_spec(),
    {
        let index = self.num_fixed;
        self.num_fixed = self.num_fixed + 1;
        Column::new(index, Fixed)
    }

    /// Register a set of advice columns as one permutation group; copy
    /// constraints may later link cells within it. Returns the group's index.
    pub fn permutation(&mut self, columns: &[Column<Advice>]) -> (r: usize)
        ensures
            r as nat == old(self).perms_spec().len(),
            final(self).perms_spec().len() == old(self).perms_spec().len() + 1,
            final(self).perms_spec().last() =~= columns@.map_values(
                |c: Column<Advice>| c.index_spec(),
            ),
            forall|i: int|
                0 <= i < old(self).perms_spec().len() ==> final(self).perms_spec()[i]
                    == old(self).perms_spec()[i],
            final(self).num_advice_spec() == old(self).num_advice_spec(),
            final(self).num_fixed_spec() == old(self).num_fixed_spec(),
            final(self).gates_spec() == old(self).gates_spec(),
    {
        let mut group: Vec<usize> = Vec::new();
        let mut i: usize = 0;
        while i < columns.len()
            invariant
                i <= columns.len(),
                group@ =~= columns@.take(i as int).map_values(|c: Column<Advice>| c.index_spec()),
            decreases columns.len() - i,
        {
            group.push(columns[i].index());
            i = i + 1;
            proof {
                assert(columns@.take(i as int).drop_last() =~= columns@.take(i as int - 1));
            }
        }
        proof {
            assert(columns@.take(columns.len() as int) =~= columns@);
        }
        let r = self.permutations.len();
        self.permutations.push(group);
        r
    }

    /// Register one gate: the closure receives a query object and returns the
    /// polynomial identity that must vanish on every row.
    pub fn create_gate<G: FnOnce(Queries) -> Expression<F>>(&mut self, f: G)
        requires
            call_requires(f, (Queries,)),
        ensures
            final(self).gates_spec().len() == old(self).gates_spec().len() + 1,
            call_ensures(f, (Queries,), final(self).gates_spec().last()),
            forall|i: int|
                0 <= i < old(self).gates_spec().len() ==> final(self).gates_spec()[i]
                    == old(self).gates_spec()[i],
            final(self).num_advice_spec() == old(self).num_advice_spec(),
            final(self).num_fixed_spec() == old(self).num_fixed_spec(),
            final(self).perms_spec() == old(self).perms_spec(),
    {
        let e = f(Queries);
        self.gates.push(e);
    }
}

/// The recorded content of a column table: (column index, row) maps to the
/// residue stored there.
pub open spec fn table_map<F: Field>(m: Seq<Vec<F>>) -> Map<(usize, usize), nat> {
    Map::new(
        |k: (usize, usize)| k.0 < m.len() && k.1 < m[k.0 as int]@.len(),
        |k: (usize, usize)| m[k.0 as int]@[k.1 as int].val(),
    )
}

/// The copy wiring after linking two cells of one group: the two cells'
/// images are read first, then exchanged (so linking a cell with itself
/// leaves it unchanged).
pub open spec fn wiring_swap(
    w: Seq<Seq<Seq<(usize, usize)>>>,
    p: int,
    lc: int,
    lr: int,
    rc: int,
    rr: int,
) -> Seq<Seq<Seq<(usize, usize)>>> {
    let le = w[p][lc][lr];
    let re = w[p][rc][rr];
    let g1 = w[p].update(lc, w[p][lc].update(lr, re));
    let g2 = g1.update(rc, g1[rc].update(rr, le));
    w.update(p, g2)
}

/// The capability a circuit consumes while synthesizing: record witness and
/// fixed values cell by cell, and link cells by copy constraints. Two
/// variants exist, told apart statically by `shape_only`: the shape-only
/// backend (key generation) records fixed values and the copy wiring and
/// never invokes a witness closure — its witness table is empty and stays
/// empty; the value-carrying backend (proving) records the witness table,
/// invoking each value closure at most once, exactly when the cell needs its
/// value, and ignores fixed values and wiring, which the reference string
/// already holds. Each method's effect on the recorded state is exact.
pub trait Assignment<F: Field>: Sized {
    /// Whether this is the shape-only variant.
    spec fn shape_only() -> bool;

    /// The recorded witness table; empty and unchanged on a shape-only
    /// backend.
    spec fn advice_spec(self) -> Map<(usize, usize), nat>;

    /// The recorded fixed table; empty and unchanged on a value-carrying
    /// backend.
    spec fn fixed_spec(self) -> Map<(usize, usize), nat>;

    /// The recorded copy wiring, group by column position by row; empty and
    /// unchanged on a value-carrying backend.
    spec fn wiring_spec(self) -> Seq<Seq<Seq<(usize, usize)>>>;

    /// Whether an advice assignment at (column, row) is in bounds.
    spec fn accepts_advice(self, column: usize, row: usize) -> bool;

    /// Whether a fixed assignment at (column, row) is in bounds.
    spec fn accepts_fixed(self, column: usize, row: usize) -> bool;

    /// Whether a copy record with these coordinates is in bounds.
    spec fn accepts_copy(
        self,
        permutation: usize,
        left_column: usize,
        left_row: usize,
        right_column: usize,
        right_row: usize,
    ) -> bool;

    /// Assign the advice cell at (column, row) from a deferred witness
    /// computation.
    fn assign_advice<V: FnOnce() -> Result<F, Error>>(
        &mut self,
        column: Column<Advice>,
        row: usize,
        to: V,
    ) -> (r: Result<(), Error>)
        requires
            call_requires(to, ()),
        ensures
            final(self).fixed_spec() == old(self).fixed_spec(),
            final(self).wiring_spec() == old(self).wiring_spec(),
            forall|c2: usize, r2: usize|
                #[trigger] final(self).accepts_advice(c2, r2) == old(self).accepts_advice(c2, r2),
            forall|c2: usize, r2: usize|
                #[trigger] final(self).accepts_fixed(c2, r2) == old(self).accepts_fixed(c2, r2),
            forall|p2: usize, a2: usize, b2: usize, c2: usize, d2: usize|
                #[trigger] final(self).accepts_copy(p2, a2, b2, c2, d2) == old(self).accepts_copy(
                    p2,
                    a2,
                    b2,
                    c2,
                    d2,
                ),
            r matches Ok(_) ==> old(self).accepts_advice(column.index_spec(), row),
            !old(self).accepts_advice(column.index_spec(), row) ==> r == Result::<(),
                Error,
            >::Err(Error::IncompatibleParams),
            r matches Err(_) ==> final(self).advice_spec() == old(self).advice_spec(),
            Self::shape_only() ==> final(self).advice_spec() == old(self).advice_spec(),
            Self::shape_only() && old(self).accepts_advice(column.index_spec(), row)
                ==> r matches Ok(_),
            !Self::shape_only() && old(self).accepts_advice(column.index_spec(), row) ==> {
                ||| (exists|v: F| (#[trigger] call_ensures(to, (), Ok(v)) && (r matches Ok(_))
                    && final(self).advice_spec() == old(self).advice_spec().insert((column.index_spec(), row), v.val())))
                ||| (r matches Err(e) && call_ensures(to, (), Err::<F, Error>(e)))
            },
    ;

    /// Assign the three advice cells of one gate row from a single deferred
    /// witness computation returning the row's (a, b, c) values; invoked at
    /// most once, and never by a shape-only backend.
    fn assign_gate<V: FnOnce() -> Result<(F, F, F), Error>>(
        &mut self,
        a: Column<Advice>,
        b: Column<Advice>,
        c: Column<Advice>,
        row: usize,
        to: V,
    ) -> (r: Result<(), Error>)
        requires
            call_requires(to, ()),
        ensures
            final(self).fixed_spec() == old(self).fixed_spec(),
            final(self).wiring_spec() == old(self).wiring_spec(),
            forall|c2: usize, r2: usize|
                #[trigger] final(self).accepts_advice(c2, r2) == old(self).accepts_advice(c2, r2),
            forall|c2: usize, r2: usize|
                #[trigger] final(self).accepts_fixed(c2, r2) == old(self).accepts_fixed(c2, r2),
            forall|p2: usize, a2: usize, b2: usize, c2: usize, d2: usize|
                #[trigger] final(self).accepts_copy(p2, a2, b2, c2, d2) == old(self).accepts_copy(
                    p2,
                    a2,
                    b2,
                    c2,
                    d2,
                ),
            r matches Ok(_) ==> old(self).accepts_advice(a.index_spec(), row) && old(
                self,
            ).accepts_advice(b.index_spec(), row) && old(self).accepts_advice(
                c.index_spec(),
                row,
            ),
            !(old(self).accepts_advice(a.index_spec(), row) && old(self).accepts_advice(
                b.index_spec(),
                row,
            ) && old(self).accepts_advice(c.index_spec(), row)) ==> r == Result::<(),
                Error,
            >::Err(Error::IncompatibleParams),
            r matches Err(_) ==> final(self).advice_spec() == old(self).advice_spec(),
            Self::shape_only() ==> final(self).advice_spec() == old(self).advice_spec(),
            Self::shape_only() && old(self).accepts_advice(a.index_spec(), row) && old(
                self,
            ).accepts_advice(b.index_spec(), row) && old(self).accepts_advice(c.index_spec(), row)
                ==> r matches Ok(_),
            !Self::shape_only() && old(self).accepts_advice(a.index_spec(), row) && old(
                self,
            ).accepts_advice(b.index_spec(), row) && old(self).accepts_advice(c.index_spec(), row)
                ==> {
                ||| (exists|t: (F, F, F)| (#[trigger] call_ensures(to, (), Ok(t)) && (r matches Ok(_))
                    && final(self).advice_spec() == old(self).advice_spec().insert((a.index_spec(), row), t.0.val()).insert((b.index_spec(), row), t.1.val()).insert((c.index_spec(), row), t.2.val())))
                ||| (r matches Err(e) && call_ensures(to, (), Err::<(F, F, F), Error>(e)))
            },
    ;

    /// Assign the fixed cell at (column, row) from a deferred computation;
    /// fixed values never depend on the witness.
    fn assign_fixed<V: FnOnce() -> Result<F, Error>>(
        &mut self,
        column: Column<Fixed>,
        row: usize,
        to: V,
    ) -> (r: Result<(), Error>)
        requires
            call_requires(to, ()),
        ensures
            final(self).advice_spec() == old(self).advice_spec(),
            final(self).wiring_spec() == old(self).wiring_spec(),
            forall|c2: usize, r2: usize|
                #[trigger] final(self).accepts_advice(c2, r2) == old(self).accepts_advice(c2, r2),
            forall|c2: usize, r2: usize|
                #[trigger] final(self).accepts_fixed(c2, r2) == old(self).accepts_fixed(c2, r2),
            forall|p2: usize, a2: usize, b2: usize, c2: usize, d2: usize|
                #[trigger] final(self).accepts_copy(p2, a2, b2, c2, d2) == old(self).accepts_copy(
                    p2,
                    a2,
                    b2,
                    c2,
                    d2,
                ),
            r matches Ok(_) ==> old(self).accepts_fixed(column.index_spec(), row),
            !old(self).accepts_fixed(column.index_spec(), row) ==> r == Result::<(),
                Error,
            >::Err(Error::IncompatibleParams),
            r matches Err(_) ==> final(self).fixed_spec() == old(self).fixed_spec(),
            !Self::shape_only() ==> final(self).fixed_spec() == old(self).fixed_spec(),
            !Self::shape_only() && old(self).accepts_fixed(column.index_spec(), row)
                ==> r matches Ok(_),
            Self::shape_only() && old(self).accepts_fixed(column.index_spec(), row) ==> {
                ||| (exists|v: F| (#[trigger] call_ensures(to, (), Ok(v)) && (r matches Ok(_))
                    && final(self).fixed_spec() == old(self).fixed_spec().insert((column.index_spec(), row), v.val())))
                ||| (r matches Err(e) && call_ensures(to, (), Err::<F, Error>(e)))
            },
    ;

    /// Record that two cells of one permutation group must hold equal
    /// values: on the shape-only backend their wiring images are exchanged,
    /// merging the cells' cycles.
    fn copy(
        &mut self,
        permutation: usize,
        left_column: usize,
        left_row: usize,
        right_column: usize,
        right_row: usize,
    ) -> (r: Result<(), Error>)
        ensures
            final(self).advice_spec() == old(self).advice_spec(),
            final(self).fixed_spec() == old(self).fixed_spec(),
            forall|c2: usize, r2: usize|
                #[trigger] final(self).accepts_advice(c2, r2) == old(self).accepts_advice(c2, r2),
            forall|c2: usize, r2: usize|
                #[trigger] final(self).accepts_fixed(c2, r2) == old(self).accepts_fixed(c2, r2),
            forall|p2: usize, a2: usize, b2: usize, c2: usize, d2: usize|
                #[trigger] final(self).accepts_copy(p2, a2, b2, c2, d2) == old(self).accepts_copy(
                    p2,
                    a2,
                    b2,
                    c2,
                    d2,
                ),
            r matches Ok(_) <==> old(self).accepts_copy(
                permutation,
                left_column,
                left_row,
                right_column,
                right_row,
            ),
            r matches Err(_) ==> r == Result::<(), Error>::Err(Error::IncompatibleParams) && final(self).wiring_spec() == old(self).wiring_spec(),
            !Self::shape_only() ==> final(self).wiring_spec() == old(self).wiring_spec(),
            Self::shape_only() && (r matches Ok(_)) ==> final(self).wiring_spec() == wiring_swap(
                old(self).wiring_spec(),
                permutation as int,
                left_column as int,
                left_row as int,
                right_column as int,
                right_row as int,
            ),
    ;
}

/// A circuit: `configure` declares the shape once, independently of any
/// witness; `synthesize` populates values through the given backend, and may
/// reference the witness only inside closures the backend invokes lazily.
pub trait Circuit<F: Field>: Sized {
    /// The layout `configure` derives.
    type Config;

    /// Declare columns, gates and permutations; runs once, without witness
    /// access.
    fn configure(meta: &mut ConstraintSystem<F>) -> Self::Config;

    /// Populate values through the backend, returning it when done.
    fn synthesize<CS: Assignment<F>>(&self, cs: CS, config: &Self::Config) -> Result<CS, Error>;
}

} // verus!
