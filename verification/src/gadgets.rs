//! Gadget infrastructure for building circuits: the standard three-column
//! configuration with multiply/add gates, and the backend that packs
//! high-level operations into rows, selectors and copy constraints.

use vstd::prelude::*;
use crate::arithmetic::Field;
use crate::arithmetic::fsub;
use crate::circuit::Advice;
use crate::circuit::Assignment;
use crate::circuit::Column;
use crate::circuit::ConstraintSystem;
use crate::circuit::Expression;
use crate::circuit::Fixed;
use crate::circuit::Queries;
use crate::plonk::Error;

verus! {

/// Represents one advice cell somewhere: a column and a row.
#[derive(Copy, Clone, Debug)]
pub struct Variable(Column<Advice>, usize);

impl Variable {
    /// The index of the cell's column.
    pub closed spec fn col_spec(self) -> usize {
        self.0.index_spec()
    }

    /// The cell's row.
    pub closed spec fn row_spec(self) -> usize {
        self.1
    }

    /// The index of the cell's column.
    pub fn column_index(&self) -> (r: usize)
        ensures
            r == self.col_spec(),
    {
        self.0.index()
    }

    /// The cell's row.
    pub fn row(&self) -> (r: usize)
        ensures
            r == self.row_spec(),
    {
        self.1
    }
}

/// The column position of an advice column within the standard permutation
/// group: a maps to 0, b to 1, anything else (c, under the membership
/// precondition) to 2.
pub open spec fn standard_position(a: usize, b: usize, col: usize) -> usize {
    if col == a {
        0
    } else if col == b {
        1
    } else {
        2
    }
}

/// A backend for circuit synthesis which supports copy constraint enforcement
/// and raw addition / multiplication operations. The spec functions expose
/// the backend's row-allocation state and the recorded tables of the
/// underlying assignment backend, so each operation's contract states both
/// the packing behaviour and exactly what is handed down: which cells get
/// the closure's values, which selector values are written, and which wiring
/// record a copy produces.
pub trait StandardCS<FF: Field>: Sized {
    /// The next free row.
    spec fn next_row(self) -> usize;

    /// The cell-packing cursor: which column position (0 = a, 1 = b, 2 = c)
    /// of which row the next single-cell allocation lands in, if a row is
    /// already open.
    spec fn alloc_cursor(self) -> Option<(usize, usize)>;

    /// The index of advice column a.
    spec fn col_a(self) -> usize;

    /// The index of advice column b.
    spec fn col_b(self) -> usize;

    /// The index of advice column c.
    spec fn col_c(self) -> usize;

    /// The index of selector column sa.
    spec fn col_sa(self) -> usize;

    /// The index of selector column sb.
    spec fn col_sb(self) -> usize;

    /// The index of selector column sc.
    spec fn col_sc(self) -> usize;

    /// The index of selector column sm.
    spec fn col_sm(self) -> usize;

    /// The permutation group this configuration registered.
    spec fn perm_spec(self) -> usize;

    /// Whether the underlying backend is the shape-only variant.
    spec fn backend_shape_only(self) -> bool;

    /// The backend's recorded witness table.
    spec fn backend_advice(self) -> Map<(usize, usize), nat>;

    /// The backend's recorded fixed table.
    spec fn backend_fixed(self) -> Map<(usize, usize), nat>;

    /// The backend's recorded copy wiring.
    spec fn backend_wiring(self) -> Seq<Seq<Seq<(usize, usize)>>>;

    /// Whether the backend accepts an advice assignment at (column, row).
    spec fn backend_accepts_advice(self, column: usize, row: usize) -> bool;

    /// Whether the backend accepts a fixed assignment at (column, row).
    spec fn backend_accepts_fixed(self, column: usize, row: usize) -> bool;

    /// Whether the backend accepts a copy record with these coordinates.
    spec fn backend_accepts_copy(
        self,
        permutation: usize,
        left_column: usize,
        left_row: usize,
        right_column: usize,
        right_row: usize,
    ) -> bool;

    /// Allocate one fresh row enforcing a·b = c there; `f` lazily supplies
    /// the three values, which land in cells (a, r), (b, r), (c, r), while
    /// the selectors of row r are set to (sa, sb, sc, sm) = (0, 0, 1, 1).
    fn raw_multiply<V: FnOnce() -> Result<(FF, FF, FF), Error>>(&mut self, f: V) -> (r: Result<
        (Variable, Variable, Variable),
        Error,
    >)
        requires
            call_requires(f, ()),
            old(self).next_row() < usize::MAX,
        ensures
                        final(self).col_a() == old(self).col_a(),
            final(self).col_b() == old(self).col_b(),
            final(self).col_c() == old(self).col_c(),
            final(self).col_sa() == old(self).col_sa(),
            final(self).col_sb() == old(self).col_sb(),
            final(self).col_sc() == old(self).col_sc(),
            final(self).col_sm() == old(self).col_sm(),
            final(self).perm_spec() == old(self).perm_spec(),
            final(self).backend_shape_only() == old(self).backend_shape_only(),
            forall|c2: usize, r2: usize|
                #[trigger] final(self).backend_accepts_advice(c2, r2) == old(
                    self,
                ).backend_accepts_advice(c2, r2),
            forall|c2: usize, r2: usize|
                #[trigger] final(self).backend_accepts_fixed(c2, r2) == old(
                    self,
                ).backend_accepts_fixed(c2, r2),
            forall|p2: usize, a2: usize, b2: usize, c2: usize, d2: usize|
                #[trigger] final(self).backend_accepts_copy(p2, a2, b2, c2, d2) == old(
                    self,
                ).backend_accepts_copy(p2, a2, b2, c2, d2),
            final(self).next_row() == old(self).next_row() + 1,
            final(self).alloc_cursor() == old(self).alloc_cursor(),
            final(self).backend_wiring() == old(self).backend_wiring(),
            old(self).backend_shape_only() ==> final(self).backend_advice() == old(
                self,
            ).backend_advice(),
            !old(self).backend_shape_only() ==> final(self).backend_fixed() == old(
                self,
            ).backend_fixed(),
            r matches Ok(v) ==> v.0.col_spec() == old(self).col_a() && v.1.col_spec() == old(
                self,
            ).col_b() && v.2.col_spec() == old(self).col_c() && v.0.row_spec() == old(
                self,
            ).next_row() && v.1.row_spec() == old(self).next_row() && v.2.row_spec() == old(
                self,
            ).next_row(),
            !old(self).backend_shape_only() && (r matches Ok(_)) ==> (exists|t: (FF, FF, FF)|
                (#[trigger] call_ensures(f, (), Ok(t)) && final(self).backend_advice() == old(
                    self,
                ).backend_advice().insert(
                    (old(self).col_a(), old(self).next_row()),
                    t.0.val(),
                ).insert((old(self).col_b(), old(self).next_row()), t.1.val()).insert(
                    (old(self).col_c(), old(self).next_row()),
                    t.2.val(),
                ))),
            old(self).backend_shape_only() && (r matches Ok(_)) ==> final(self).backend_fixed()
                == old(self).backend_fixed().insert(
                (old(self).col_sa(), old(self).next_row()),
                0,
            ).insert((old(self).col_sb(), old(self).next_row()), 0).insert(
                (old(self).col_sc(), old(self).next_row()),
                1,
            ).insert((old(self).col_sm(), old(self).next_row()), 1),
            r matches Err(e) ==> e == Error::IncompatibleParams || call_ensures(
                f,
                (),
                Err::<(FF, FF, FF), Error>(e),
            ),
            (old(self).backend_accepts_advice(old(self).col_a(), old(self).next_row()) && old(
                self,
            ).backend_accepts_advice(old(self).col_b(), old(self).next_row()) && old(
                self,
            ).backend_accepts_advice(old(self).col_c(), old(self).next_row()) && old(
                self,
            ).backend_accepts_fixed(old(self).col_sa(), old(self).next_row()) && old(
                self,
            ).backend_accepts_fixed(old(self).col_sb(), old(self).next_row()) && old(
                self,
            ).backend_accepts_fixed(old(self).col_sc(), old(self).next_row()) && old(
                self,
            ).backend_accepts_fixed(old(self).col_sm(), old(self).next_row())) && (!old(self).backend_shape_only()
                ==> (forall|ret: Result<(FF, FF, FF), Error>|
                call_ensures(f, (), ret) ==> ret matches Ok(_))) ==> r matches Ok(_),
    ;

    /// Allocate one fresh row enforcing a + b = c there; `f` lazily supplies
    /// the three values, which land in cells (a, r), (b, r), (c, r), while
    /// the selectors of row r are set to (sa, sb, sc, sm) = (1, 1, 1, 0).
    fn raw_add<V: FnOnce() -> Result<(FF, FF, FF), Error>>(&mut self, f: V) -> (r: Result<
        (Variable, Variable, Variable),
        Error,
    >)
        requires
            call_requires(f, ()),
            old(self).next_row() < usize::MAX,
        ensures
                        final(self).col_a() == old(self).col_a(),
            final(self).col_b() == old(self).col_b(),
            final(self).col_c() == old(self).col_c(),
            final(self).col_sa() == old(self).col_sa(),
            final(self).col_sb() == old(self).col_sb(),
            final(self).col_sc() == old(self).col_sc(),
            final(self).col_sm() == old(self).col_sm(),
            final(self).perm_spec() == old(self).perm_spec(),
            final(self).backend_shape_only() == old(self).backend_shape_only(),
            forall|c2: usize, r2: usize|
                #[trigger] final(self).backend_accepts_advice(c2, r2) == old(
                    self,
                ).backend_accepts_advice(c2, r2),
            forall|c2: usize, r2: usize|
                #[trigger] final(self).backend_accepts_fixed(c2, r2) == old(
                    self,
                ).backend_accepts_fixed(c2, r2),
            forall|p2: usize, a2: usize, b2: usize, c2: usize, d2: usize|
                #[trigger] final(self).backend_accepts_copy(p2, a2, b2, c2, d2) == old(
                    self,
                ).backend_accepts_copy(p2, a2, b2, c2, d2),
            final(self).next_row() == old(self).next_row() + 1,
            final(self).alloc_cursor() == old(self).alloc_cursor(),
            final(self).backend_wiring() == old(self).backend_wiring(),
            old(self).backend_shape_only() ==> final(self).backend_advice() == old(
                self,
            ).backend_advice(),
            !old(self).backend_shape_only() ==> final(self).backend_fixed() == old(
                self,
            ).backend_fixed(),
            r matches Ok(v) ==> v.0.col_spec() == old(self).col_a() && v.1.col_spec() == old(
                self,
            ).col_b() && v.2.col_spec() == old(self).col_c() && v.0.row_spec() == old(
                self,
            ).next_row() && v.1.row_spec() == old(self).next_row() && v.2.row_spec() == old(
                self,
            ).next_row(),
            !old(self).backend_shape_only() && (r matches Ok(_)) ==> (exists|t: (FF, FF, FF)|
                (#[trigger] call_ensures(f, (), Ok(t)) && final(self).backend_advice() == old(
                    self,
                ).backend_advice().insert(
                    (old(self).col_a(), old(self).next_row()),
                    t.0.val(),
                ).insert((old(self).col_b(), old(self).next_row()), t.1.val()).insert(
                    (old(self).col_c(), old(self).next_row()),
                    t.2.val(),
                ))),
            old(self).backend_shape_only() && (r matches Ok(_)) ==> final(self).backend_fixed()
                == old(self).backend_fixed().insert(
                (old(self).col_sa(), old(self).next_row()),
                1,
            ).insert((old(self).col_sb(), old(self).next_row()), 1).insert(
                (old(self).col_sc(), old(self).next_row()),
                1,
            ).insert((old(self).col_sm(), old(self).next_row()), 0),
            r matches Err(e) ==> e == Error::IncompatibleParams || call_ensures(
                f,
                (),
                Err::<(FF, FF, FF), Error>(e),
            ),
            (old(self).backend_accepts_advice(old(self).col_a(), old(self).next_row()) && old(
                self,
            ).backend_accepts_advice(old(self).col_b(), old(self).next_row()) && old(
                self,
            ).backend_accepts_advice(old(self).col_c(), old(self).next_row()) && old(
                self,
            ).backend_accepts_fixed(old(self).col_sa(), old(self).next_row()) && old(
                self,
            ).backend_accepts_fixed(old(self).col_sb(), old(self).next_row()) && old(
                self,
            ).backend_accepts_fixed(old(self).col_sc(), old(self).next_row()) && old(
                self,
            ).backend_accepts_fixed(old(self).col_sm(), old(self).next_row())) && (!old(self).backend_shape_only()
                ==> (forall|ret: Result<(FF, FF, FF), Error>|
                call_ensures(f, (), ret) ==> ret matches Ok(_))) ==> r matches Ok(_),
    ;

    /// Record that two cells must hold equal values, by translating each
    /// column to its position in the registered permutation group (a to 0,
    /// b to 1, c to 2) and handing one wiring record to the backend. Both
    /// cells must lie in this configuration's own advice columns: a variable
    /// from a foreign configuration is a broken caller contract, not a
    /// recoverable error.
    fn copy(&mut self, a: Variable, b: Variable) -> (r: Result<(), Error>)
        requires
            a.col_spec() == old(self).col_a() || a.col_spec() == old(self).col_b() || a.col_spec()
                == old(self).col_c(),
            b.col_spec() == old(self).col_a() || b.col_spec() == old(self).col_b() || b.col_spec()
                == old(self).col_c(),
        ensures
                        final(self).col_a() == old(self).col_a(),
            final(self).col_b() == old(self).col_b(),
            final(self).col_c() == old(self).col_c(),
            final(self).col_sa() == old(self).col_sa(),
            final(self).col_sb() == old(self).col_sb(),
            final(self).col_sc() == old(self).col_sc(),
            final(self).col_sm() == old(self).col_sm(),
            final(self).perm_spec() == old(self).perm_spec(),
            final(self).backend_shape_only() == old(self).backend_shape_only(),
            forall|c2: usize, r2: usize|
                #[trigger] final(self).backend_accepts_advice(c2, r2) == old(
                    self,
                ).backend_accepts_advice(c2, r2),
            forall|c2: usize, r2: usize|
                #[trigger] final(self).backend_accepts_fixed(c2, r2) == old(
                    self,
                ).backend_accepts_fixed(c2, r2),
            forall|p2: usize, a2: usize, b2: usize, c2: usize, d2: usize|
                #[trigger] final(self).backend_accepts_copy(p2, a2, b2, c2, d2) == old(
                    self,
                ).backend_accepts_copy(p2, a2, b2, c2, d2),
            final(self).next_row() == old(self).next_row(),
            final(self).alloc_cursor() == old(self).alloc_cursor(),
            final(self).backend_advice() == old(self).backend_advice(),
            final(self).backend_fixed() == old(self).backend_fixed(),
            r matches Ok(_) <==> old(self).backend_accepts_copy(
                old(self).perm_spec(),
                standard_position(old(self).col_a(), old(self).col_b(), a.col_spec()),
                a.row_spec(),
                standard_position(old(self).col_a(), old(self).col_b(), b.col_spec()),
                b.row_spec(),
            ),
            r matches Err(e) ==> e == Error::IncompatibleParams && final(self).backend_wiring()
                == old(self).backend_wiring(),
            !old(self).backend_shape_only() ==> final(self).backend_wiring() == old(
                self,
            ).backend_wiring(),
            old(self).backend_shape_only() && (r matches Ok(_)) ==> final(self).backend_wiring()
                == crate::circuit::wiring_swap(
                old(self).backend_wiring(),
                old(self).perm_spec() as int,
                standard_position(old(self).col_a(), old(self).col_b(), a.col_spec()) as int,
                a.row_spec() as int,
                standard_position(old(self).col_a(), old(self).col_b(), b.col_spec()) as int,
                b.row_spec() as int,
            ),
    ;

    /// Allocate one cell for a single value, packing three cells per row: the
    /// cursor walks a → b → c within an open row, then opens a fresh row.
    /// When the backend assignment fails, the cursor is left where it was,
    /// so the next successful allocation targets the same cell (though a
    /// freshly opened row stays claimed).
    fn alloc_cell<V: FnOnce() -> Result<FF, Error>>(&mut self, f: V) -> (r: Result<Variable, Error>)
        requires
            call_requires(f, ()),
            old(self).next_row() < usize::MAX,
        ensures
                        final(self).col_a() == old(self).col_a(),
            final(self).col_b() == old(self).col_b(),
            final(self).col_c() == old(self).col_c(),
            final(self).col_sa() == old(self).col_sa(),
            final(self).col_sb() == old(self).col_sb(),
            final(self).col_sc() == old(self).col_sc(),
            final(self).col_sm() == old(self).col_sm(),
            final(self).perm_spec() == old(self).perm_spec(),
            final(self).backend_shape_only() == old(self).backend_shape_only(),
            forall|c2: usize, r2: usize|
                #[trigger] final(self).backend_accepts_advice(c2, r2) == old(
                    self,
                ).backend_accepts_advice(c2, r2),
            forall|c2: usize, r2: usize|
                #[trigger] final(self).backend_accepts_fixed(c2, r2) == old(
                    self,
                ).backend_accepts_fixed(c2, r2),
            forall|p2: usize, a2: usize, b2: usize, c2: usize, d2: usize|
                #[trigger] final(self).backend_accepts_copy(p2, a2, b2, c2, d2) == old(
                    self,
                ).backend_accepts_copy(p2, a2, b2, c2, d2),
            final(self).backend_fixed() == old(self).backend_fixed(),
            final(self).backend_wiring() == old(self).backend_wiring(),
            old(self).backend_shape_only() ==> final(self).backend_advice() == old(
                self,
            ).backend_advice(),
            r matches Err(_) ==> final(self).alloc_cursor() == old(self).alloc_cursor(),
            r matches Err(e) ==> e == Error::IncompatibleParams || call_ensures(
                f,
                (),
                Err::<FF, Error>(e),
            ),
            !old(self).backend_shape_only() ==> (r matches Ok(v) ==> (exists|w: FF|
                (#[trigger] call_ensures(f, (), Ok(w)) && final(self).backend_advice() == old(
                    self,
                ).backend_advice().insert((v.col_spec(), v.row_spec()), w.val())))),
            match old(self).alloc_cursor() {
                None => {
                    &&& final(self).next_row() == old(self).next_row() + 1
                    &&& (r matches Ok(v) ==> final(self).alloc_cursor() == Some(
                        (1usize, old(self).next_row()),
                    ) && v.col_spec() == old(self).col_a() && v.row_spec() == old(self).next_row())
                    &&& (old(self).backend_accepts_advice(old(self).col_a(), old(self).next_row())
                        && (!old(self).backend_shape_only() ==> (forall|ret: Result<FF, Error>|
                        call_ensures(f, (), ret) ==> ret matches Ok(_))) ==> r matches Ok(_))
                },
                Some((p, row)) => if p == 0 {
                    &&& final(self).next_row() == old(self).next_row()
                    &&& (r matches Ok(v) ==> final(self).alloc_cursor() == Some((1usize, row))
                        && v.col_spec() == old(self).col_a() && v.row_spec() == row)
                    &&& (old(self).backend_accepts_advice(old(self).col_a(), row) && (!old(
                        self,
                    ).backend_shape_only() ==> (forall|ret: Result<FF, Error>|
                        call_ensures(f, (), ret) ==> ret matches Ok(_))) ==> r matches Ok(_))
                } else if p == 1 {
                    &&& final(self).next_row() == old(self).next_row()
                    &&& (r matches Ok(v) ==> final(self).alloc_cursor() == Some((2usize, row))
                        && v.col_spec() == old(self).col_b() && v.row_spec() == row)
                    &&& (old(self).backend_accepts_advice(old(self).col_b(), row) && (!old(
                        self,
                    ).backend_shape_only() ==> (forall|ret: Result<FF, Error>|
                        call_ensures(f, (), ret) ==> ret matches Ok(_))) ==> r matches Ok(_))
                } else {
                    &&& (r matches Err(_) ==> final(self).next_row() == old(self).next_row())
                    &&& (r matches Ok(v) ==> final(self).next_row() == old(self).next_row() + 1
                        && final(self).alloc_cursor() == Some((0usize, old(self).next_row()))
                        && v.col_spec() == old(self).col_c() && v.row_spec() == row)
                    &&& (old(self).backend_accepts_advice(old(self).col_c(), row) && (!old(
                        self,
                    ).backend_shape_only() ==> (forall|ret: Result<FF, Error>|
                        call_ensures(f, (), ret) ==> ret matches Ok(_))) ==> r matches Ok(_))
                },
            },
    ;
}

/// The symbolic identity the standard configuration registers:
/// a·sa + b·sb + a·b·sm + c·sc·(−1), over the given column indices, with the
/// given constant standing for −1.
pub open spec fn standard_gate_expr<F: Field>(
    a: usize,
    b: usize,
    c: usize,
    sa: usize,
    sb: usize,
    sc: usize,
    sm: usize,
    minus_one: F,
) -> Expression<F> {
    Expression::Sum(
        Box::new(
            Expression::Sum(
                Box::new(
                    Expression::Sum(
                        Box::new(
                            Expression::Product(
                                Box::new(Expression::Advice(a)),
                                Box::new(Expression::Fixed(sa)),
                            ),
                        ),
                        Box::new(
                            Expression::Product(
                                Box::new(Expression::Advice(b)),
                                Box::new(Expression::Fixed(sb)),
                            ),
                        ),
                    ),
                ),
                Box::new(
                    Expression::Product(
                        Box::new(
                            Expression::Product(
                                Box::new(Expression::Advice(a)),
                                Box::new(Expression::Advice(b)),
                            ),
                        ),
                        Box::new(Expression::Fixed(sm)),
                    ),
                ),
            ),
        ),
        Box::new(
            Expression::Product(
                Box::new(
                    Expression::Product(
                        Box::new(Expression::Advice(c)),
                        Box::new(Expression::Fixed(sc)),
                    ),
                ),
                Box::new(Expression::Constant(minus_one)),
            ),
        ),
    )
}

/// The standard circuit configuration: advice columns a, b, c in one
/// permutation group, and selector columns sm, sa, sb, sc realising the
/// single per-row identity a·sa + b·sb + a·b·sm − c·sc = 0.
#[derive(Clone, Debug)]
pub struct StandardConfig {
    pub a: Column<Advice>,
    pub b: Column<Advice>,
    pub c: Column<Advice>,
    pub sa: Column<Fixed>,
    pub sb: Column<Fixed>,
    pub sc: Column<Fixed>,
    pub sm: Column<Fixed>,
    pub perm: usize,
}

impl StandardConfig {
    /// Initialize this circuit configuration: allocate the three advice
    /// columns, register them as one permutation group, allocate the four
    /// selector columns, and register the multiply/add gate.
    pub fn new<F: Field>(meta: &mut ConstraintSystem<F>) -> (r: Self)
        requires
            old(meta).num_advice_spec() + 3 <= usize::MAX,
            old(meta).num_fixed_spec() + 4 <= usize::MAX,
        ensures
            r.a.index_spec() as nat == old(meta).num_advice_spec(),
            r.b.index_spec() as nat == old(meta).num_advice_spec() + 1,
            r.c.index_spec() as nat == old(meta).num_advice_spec() + 2,
            r.sm.index_spec() as nat == old(meta).num_fixed_spec(),
            r.sa.index_spec() as nat == old(meta).num_fixed_spec() + 1,
            r.sb.index_spec() as nat == old(meta).num_fixed_spec() + 2,
            r.sc.index_spec() as nat == old(meta).num_fixed_spec() + 3,
            r.perm as nat == old(meta).perms_spec().len(),
            final(meta).num_advice_spec() == old(meta).num_advice_spec() + 3,
            final(meta).num_fixed_spec() == old(meta).num_fixed_spec() + 4,
            final(meta).perms_spec().len() == old(meta).perms_spec().len() + 1,
            final(meta).perms_spec().last() =~= seq![r.a.index_spec(), r.b.index_spec(), r.c.index_spec()],
            final(meta).gates_spec().len() == old(meta).gates_spec().len() + 1,
            exists|mo: F|
                ((#[trigger] standard_gate_expr(
                    r.a.index_spec(),
                    r.b.index_spec(),
                    r.c.index_spec(),
                    r.sa.index_spec(),
                    r.sb.index_spec(),
                    r.sc.index_spec(),
                    r.sm.index_spec(),
                    mo,
                )) == final(meta).gates_spec().last() && mo.val() == fsub(F::modulus(), 0, 1)),
    {
        let a = meta.advice_column();
        let b = meta.advice_column();
        let c = meta.advice_column();

        let perm = meta.permutation(&[a, b, c]);

        let sm = meta.fixed_column();
        let sa = meta.fixed_column();
        let sb = meta.fixed_column();
        let sc = meta.fixed_column();

        let minus_one = F::one().neg();
        let gate_builder = (|queries: Queries| -> (e: Expression<F>)
            ensures
                e == standard_gate_expr(
                    a.index_spec(),
                    b.index_spec(),
                    c.index_spec(),
                    sa.index_spec(),
                    sb.index_spec(),
                    sc.index_spec(),
                    sm.index_spec(),
                    minus_one,
                ),
            {
                let lhs = queries.query_advice(a).times(queries.query_fixed(sa)).plus(
                    queries.query_advice(b).times(queries.query_fixed(sb)),
                ).plus(
                    queries.query_advice(a).times(queries.query_advice(b)).times(
                        queries.query_fixed(sm),
                    ),
                );
                lhs.plus(
                    queries.query_advice(c).times(queries.query_fixed(sc)).times(
                        Expression::Constant(minus_one),
                    ),
                )
            });
        meta.create_gate(gate_builder);

        let config = StandardConfig { a, b, c, sa, sb, sc, sm, perm };
        proof {
            assert(standard_gate_expr(
                config.a.index_spec(),
                config.b.index_spec(),
                config.c.index_spec(),
                config.sa.index_spec(),
                config.sb.index_spec(),
                config.sc.index_spec(),
                config.sm.index_spec(),
                minus_one,
            ) == meta.gates_spec().last());
            assert(minus_one.val() == fsub(F::modulus(), 0, 1));
        }
        config
    }
}

/// Standard constraint system synthesizer: packs multiply/add operations and
/// single-cell allocations into rows of the standard configuration, writing
/// values and selectors through the given assignment backend.
pub struct Standard<'a, F: Field, CS: Assignment<F>> {
    pub cs: &'a mut CS,
    pub config: StandardConfig,
    current_gate: usize,
    alloc_gate: Option<(usize, usize)>,
    _marker: core::marker::PhantomData<F>,
}

impl<'a, F: Field, CS: Assignment<F>> Standard<'a, F, CS> {
    /// Create a new synthesis backend for the standard configuration.
    pub fn new(cs: &'a mut CS, config: StandardConfig) -> (r: Self)
        ensures
            r.next_row() == 0,
            r.alloc_cursor() is None,
            r.col_a() == config.a.index_spec(),
            r.col_b() == config.b.index_spec(),
            r.col_c() == config.c.index_spec(),
            r.col_sa() == config.sa.index_spec(),
            r.col_sb() == config.sb.index_spec(),
            r.col_sc() == config.sc.index_spec(),
            r.col_sm() == config.sm.index_spec(),
            r.perm_spec() == config.perm,
            r.backend_shape_only() == CS::shape_only(),
            r.backend_advice() == old(cs).advice_spec(),
            r.backend_fixed() == old(cs).fixed_spec(),
            r.backend_wiring() == old(cs).wiring_spec(),
    {
        Standard {
            cs,
            config,
            current_gate: 0,
            alloc_gate: None,
            _marker: core::marker::PhantomData,
        }
    }
}

/// The deferred computation an unset selector cell is filled from: zero.
fn selector_zero<F: Field>() -> (r: Result<F, Error>)
    ensures
        r matches Ok(v) && v.val() == 0,
{
    Ok(F::zero())
}

/// The deferred computation a set selector cell is filled from: one.
fn selector_one<F: Field>() -> (r: Result<F, Error>)
    ensures
        r matches Ok(v) && v.val() == 1,
{
    Ok(F::one())
}

impl<'a, F: Field, CS: Assignment<F>> StandardCS<F> for Standard<'a, F, CS> {
    closed spec fn next_row(self) -> usize {
        self.current_gate
    }

    closed spec fn alloc_cursor(self) -> Option<(usize, usize)> {
        self.alloc_gate
    }

    closed spec fn col_a(self) -> usize {
        self.config.a.index_spec()
    }

    closed spec fn col_b(self) -> usize {
        self.config.b.index_spec()
    }

    closed spec fn col_c(self) -> usize {
        self.config.c.index_spec()
    }

    closed spec fn col_sa(self) -> usize {
        self.config.sa.index_spec()
    }

    closed spec fn col_sb(self) -> usize {
        self.config.sb.index_spec()
    }

    closed spec fn col_sc(self) -> usize {
        self.config.sc.index_spec()
    }

    closed spec fn col_sm(self) -> usize {
        self.config.sm.index_spec()
    }

    closed spec fn perm_spec(self) -> usize {
        self.config.perm
    }

    closed spec fn backend_shape_only(self) -> bool {
        CS::shape_only()
    }

    closed spec fn backend_advice(self) -> Map<(usize, usize), nat> {
        (*self.cs).advice_spec()
    }

    closed spec fn backend_fixed(self) -> Map<(usize, usize), nat> {
        (*self.cs).fixed_spec()
    }

    closed spec fn backend_wiring(self) -> Seq<Seq<Seq<(usize, usize)>>> {
        (*self.cs).wiring_spec()
    }

    closed spec fn backend_accepts_advice(self, column: usize, row: usize) -> bool {
        (*self.cs).accepts_advice(column, row)
    }

    closed spec fn backend_accepts_fixed(self, column: usize, row: usize) -> bool {
        (*self.cs).accepts_fixed(column, row)
    }

    closed spec fn backend_accepts_copy(
        self,
        permutation: usize,
        left_column: usize,
        left_row: usize,
        right_column: usize,
        right_row: usize,
    ) -> bool {
        (*self.cs).accepts_copy(permutation, left_column, left_row, right_column, right_row)
    }

    fn raw_multiply<V: FnOnce() -> Result<(F, F, F), Error>>(&mut self, f: V) -> (r: Result<
        (Variable, Variable, Variable),
        Error,
    >) {
        let index = self.current_gate;
        self.current_gate = self.current_gate + 1;
        self.cs.assign_gate(self.config.a, self.config.b, self.config.c, index, f)?;
        self.cs.assign_fixed(self.config.sa, index, selector_zero::<F>)?;
        self.cs.assign_fixed(self.config.sb, index, selector_zero::<F>)?;
        self.cs.assign_fixed(self.config.sc, index, selector_one::<F>)?;
        self.cs.assign_fixed(self.config.sm, index, selector_one::<F>)?;
        Ok(
            (
                Variable(self.config.a, index),
                Variable(self.config.b, index),
                Variable(self.config.c, index),
            ),
        )
    }

    fn raw_add<V: FnOnce() -> Result<(F, F, F), Error>>(&mut self, f: V) -> (r: Result<
        (Variable, Variable, Variable),
        Error,
    >) {
        let index = self.current_gate;
        self.current_gate = self.current_gate + 1;
        self.cs.assign_gate(self.config.a, self.config.b, self.config.c, index, f)?;
        self.cs.assign_fixed(self.config.sa, index, selector_one::<F>)?;
        self.cs.assign_fixed(self.config.sb, index, selector_one::<F>)?;
        self.cs.assign_fixed(self.config.sc, index, selector_one::<F>)?;
        self.cs.assign_fixed(self.config.sm, index, selector_zero::<F>)?;
        Ok(
            (
                Variable(self.config.a, index),
                Variable(self.config.b, index),
                Variable(self.config.c, index),
            ),
        )
    }

    fn copy(&mut self, left: Variable, right: Variable) -> (r: Result<(), Error>) {
        let left_column: usize = if left.0.index() == self.config.a.index() {
            0
        } else if left.0.index() == self.config.b.index() {
            1
        } else {
            2
        };
        let right_column: usize = if right.0.index() == self.config.a.index() {
            0
        } else if right.0.index() == self.config.b.index() {
            1
        } else {
            2
        };
        self.cs.copy(self.config.perm, left_column, left.1, right_column, right.1)
    }

    fn alloc_cell<V: FnOnce() -> Result<F, Error>>(&mut self, f: V) -> (r: Result<Variable, Error>) {
        let cursor = self.alloc_gate;
        if cursor.is_none() {
            let row = self.current_gate;
            self.current_gate = self.current_gate + 1;
            self.cs.assign_advice(self.config.a, row, f)?;
            self.alloc_gate = Some((1, row));
            Ok(Variable(self.config.a, row))
        } else {
            let (p, row) = cursor.unwrap();
            if p == 0 {
                self.cs.assign_advice(self.config.a, row, f)?;
                self.alloc_gate = Some((1, row));
                Ok(Variable(self.config.a, row))
            } else if p == 1 {
                self.cs.assign_advice(self.config.b, row, f)?;
                self.alloc_gate = Some((2, row));
                Ok(Variable(self.config.b, row))
            } else {
                self.cs.assign_advice(self.config.c, row, f)?;
                let fresh = self.current_gate;
                self.current_gate = self.current_gate + 1;
                self.alloc_gate = Some((0, fresh));
                Ok(Variable(self.config.c, row))
            }
        }
    }
}

} // verus!
