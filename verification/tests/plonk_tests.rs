//! End-to-end protocol tests: completeness, soundness, determinism, the
//! packing behaviour of the standard backend, and the deferred verification
//! guard's two finalize strategies.

use halo::arithmetic::EqAffine;
use halo::arithmetic::Field;
use halo::arithmetic::Fp;
use halo::arithmetic::Fq;
use halo::circuit::Assignment;
use halo::circuit::Circuit;
use halo::circuit::Column;
use halo::circuit::ConstraintSystem;
use halo::circuit::Advice;
use halo::circuit::Fixed;
use halo::gadgets::Standard;
use halo::gadgets::StandardCS;
use halo::gadgets::StandardConfig;
use halo::plonk::Error;
use halo::plonk::Proof;
use halo::plonk::SRS;
use halo::polycommit::commit;
use halo::polycommit::Params;
use halo::transcript::DummyHash;

struct MyCircuit<F: Field> {
    a: Option<F>,
}

impl<F: Field> Circuit<F> for MyCircuit<F> {
    type Config = StandardConfig;

    fn configure(meta: &mut ConstraintSystem<F>) -> StandardConfig {
        StandardConfig::new(meta)
    }

    fn synthesize<CS: Assignment<F>>(
        &self,
        mut cs: CS,
        config: &StandardConfig,
    ) -> Result<CS, Error> {
        {
            let mut std_cs = Standard::new(&mut cs, config.clone());
            for _ in 0..10 {
                let (_, _, _) = std_cs.raw_multiply(|| {
                    let a = self.a.ok_or(Error::SynthesisError)?;
                    let a2 = a.mul(a);
                    Ok((a, a, a2))
                })?;
                let (_, _, _) = std_cs.raw_add(|| {
                    let a = self.a.ok_or(Error::SynthesisError)?;
                    let a2 = a.mul(a);
                    let a3 = a.add(a2);
                    Ok((a, a2, a3))
                })?;
            }
        }
        Ok(cs)
    }
}

#[test]
fn test_proving() {
    const K: u32 = 5;

    // Initialize the polynomial commitment parameters
    let params: Params<EqAffine> = Params::new::<DummyHash<Fq>>(K);

    let circuit: MyCircuit<Fp> = MyCircuit {
        a: Some(Fp::from_u64(2).neg().add(Fp::root_of_unity()).pow(&[100, 0, 0, 0])),
    };

    // Initialize the SRS
    let srs = SRS::generate(&params, &circuit).expect("SRS generation should not fail");

    // Create a proof
    let proof = Proof::create::<DummyHash<Fq>, DummyHash<Fp>, _>(&params, &srs, &circuit)
        .expect("proof generation should not fail");

    assert!(proof.verify::<DummyHash<Fq>, DummyHash<Fp>>(&params, &srs));
}

#[test]
fn srs_generation_is_deterministic() {
    let params: Params<EqAffine> = Params::new::<DummyHash<Fq>>(5);
    let circuit: MyCircuit<Fp> = MyCircuit { a: None };
    let srs1 = SRS::generate(&params, &circuit).expect("srs");
    let srs2 = SRS::generate(&params, &circuit).expect("srs");
    assert_eq!(srs1.fixed_commitments(), srs2.fixed_commitments());
    assert_eq!(srs1.sigma_commitments(), srs2.sigma_commitments());
    assert_eq!(srs1.fixed_polys(), srs2.fixed_polys());
    assert_eq!(srs1.sigma_polys(), srs2.sigma_polys());
}

#[test]
fn missing_witness_is_synthesis_error() {
    let params: Params<EqAffine> = Params::new::<DummyHash<Fq>>(5);
    let circuit: MyCircuit<Fp> = MyCircuit { a: None };
    let srs = SRS::generate(&params, &circuit).expect("srs");
    let result = Proof::create::<DummyHash<Fq>, DummyHash<Fp>, _>(&params, &srs, &circuit);
    assert!(matches!(result, Err(Error::SynthesisError)));
}

#[test]
fn circuit_too_large_for_params_is_rejected() {
    // The circuit consumes 20 rows; k = 4 gives a domain of only 16.
    let params: Params<EqAffine> = Params::new::<DummyHash<Fq>>(4);
    let circuit: MyCircuit<Fp> = MyCircuit { a: Some(Fp::from_u64(3)) };
    let result = SRS::generate(&params, &circuit);
    assert!(matches!(result, Err(Error::IncompatibleParams)));
}

struct MulAddCircuit {
    x: u64,
    y: u64,
    product: u64,
    sum: u64,
}

impl Circuit<Fp> for MulAddCircuit {
    type Config = StandardConfig;

    fn configure(meta: &mut ConstraintSystem<Fp>) -> StandardConfig {
        StandardConfig::new(meta)
    }

    fn synthesize<CS: Assignment<Fp>>(
        &self,
        mut cs: CS,
        config: &StandardConfig,
    ) -> Result<CS, Error> {
        {
            let mut std_cs = Standard::new(&mut cs, config.clone());
            let (_, _, _) = std_cs.raw_multiply(|| {
                Ok((
                    Fp::from_u64(self.x),
                    Fp::from_u64(self.y),
                    Fp::from_u64(self.product),
                ))
            })?;
            let (_, _, _) = std_cs.raw_add(|| {
                Ok((Fp::from_u64(self.x), Fp::from_u64(self.y), Fp::from_u64(self.sum)))
            })?;
        }
        Ok(cs)
    }
}

#[test]
fn raw_gates_with_consistent_witness_verify() {
    // 2 * 3 = 6 and 2 + 3 = 5 both hold in the field.
    let params: Params<EqAffine> = Params::new::<DummyHash<Fq>>(3);
    let circuit = MulAddCircuit { x: 2, y: 3, product: 6, sum: 5 };
    let srs = SRS::generate(&params, &circuit).expect("srs");
    let proof = Proof::create::<DummyHash<Fq>, DummyHash<Fp>, _>(&params, &srs, &circuit)
        .expect("proof");
    assert!(proof.verify::<DummyHash<Fq>, DummyHash<Fp>>(&params, &srs));
}

#[test]
fn wrong_product_synthesizes_but_fails_verification() {
    // 2 * 3 = 7 is false: the prover still produces a proof — failures
    // surface only at verification time.
    let params: Params<EqAffine> = Params::new::<DummyHash<Fq>>(3);
    let circuit = MulAddCircuit { x: 2, y: 3, product: 7, sum: 5 };
    let srs = SRS::generate(&params, &circuit).expect("srs");
    let proof = Proof::create::<DummyHash<Fq>, DummyHash<Fp>, _>(&params, &srs, &circuit)
        .expect("synthesis must succeed even for an inconsistent witness");
    assert!(!proof.verify::<DummyHash<Fq>, DummyHash<Fp>>(&params, &srs));
}

#[test]
fn wrong_sum_synthesizes_but_fails_verification() {
    let params: Params<EqAffine> = Params::new::<DummyHash<Fq>>(3);
    let circuit = MulAddCircuit { x: 2, y: 3, product: 6, sum: 4 };
    let srs = SRS::generate(&params, &circuit).expect("srs");
    let proof = Proof::create::<DummyHash<Fq>, DummyHash<Fp>, _>(&params, &srs, &circuit)
        .expect("proof");
    assert!(!proof.verify::<DummyHash<Fq>, DummyHash<Fp>>(&params, &srs));
}

struct CopyCircuit {
    left: u64,
    right: u64,
}

impl Circuit<Fp> for CopyCircuit {
    type Config = StandardConfig;

    fn configure(meta: &mut ConstraintSystem<Fp>) -> StandardConfig {
        StandardConfig::new(meta)
    }

    fn synthesize<CS: Assignment<Fp>>(
        &self,
        mut cs: CS,
        config: &StandardConfig,
    ) -> Result<CS, Error> {
        {
            let mut std_cs = Standard::new(&mut cs, config.clone());
            let left = self.left;
            let right = self.right;
            let (va, _, _) = std_cs.raw_multiply(|| {
                let l = Fp::from_u64(left);
                Ok((l, Fp::from_u64(1), l))
            })?;
            let (vb, _, _) = std_cs.raw_multiply(|| {
                let r = Fp::from_u64(right);
                Ok((r, Fp::from_u64(1), r))
            })?;
            std_cs.copy(va, vb)?;
        }
        Ok(cs)
    }
}

#[test]
fn equal_copied_values_still_verify() {
    let params: Params<EqAffine> = Params::new::<DummyHash<Fq>>(3);
    let circuit = CopyCircuit { left: 9, right: 9 };
    let srs = SRS::generate(&params, &circuit).expect("srs");
    let proof = Proof::create::<DummyHash<Fq>, DummyHash<Fp>, _>(&params, &srs, &circuit)
        .expect("proof");
    assert!(proof.verify::<DummyHash<Fq>, DummyHash<Fp>>(&params, &srs));
}

#[test]
fn unequal_copied_values_are_rejected() {
    let params: Params<EqAffine> = Params::new::<DummyHash<Fq>>(3);
    let circuit = CopyCircuit { left: 9, right: 11 };
    let srs = SRS::generate(&params, &circuit).expect("srs");
    let proof = Proof::create::<DummyHash<Fq>, DummyHash<Fp>, _>(&params, &srs, &circuit)
        .expect("synthesis succeeds; only verification rejects");
    assert!(!proof.verify::<DummyHash<Fq>, DummyHash<Fp>>(&params, &srs));
}

#[test]
fn tampered_evaluation_is_rejected() {
    let params: Params<EqAffine> = Params::new::<DummyHash<Fq>>(5);
    let circuit: MyCircuit<Fp> = MyCircuit {
        a: Some(Fp::from_u64(2).neg().add(Fp::root_of_unity()).pow(&[100, 0, 0, 0])),
    };
    let srs = SRS::generate(&params, &circuit).expect("srs");
    let proof = Proof::create::<DummyHash<Fq>, DummyHash<Fp>, _>(&params, &srs, &circuit)
        .expect("proof");

    // Flip a stored wire evaluation.
    let mut bad = proof.clone();
    bad.advice_evals[0] = bad.advice_evals[0].add(Fp::from_u64(1));
    assert!(!bad.verify::<DummyHash<Fq>, DummyHash<Fp>>(&params, &srs));

    // Flip a stored quotient-chunk evaluation.
    let mut bad2 = proof.clone();
    bad2.h_evals[1] = bad2.h_evals[1].add(Fp::from_u64(1));
    assert!(!bad2.verify::<DummyHash<Fq>, DummyHash<Fp>>(&params, &srs));

    // Flip a stored selector evaluation.
    let mut bad3 = proof.clone();
    bad3.fixed_evals[0] = bad3.fixed_evals[0].add(Fp::from_u64(1));
    assert!(!bad3.verify::<DummyHash<Fq>, DummyHash<Fp>>(&params, &srs));

    // Flip a permutation-product evaluation.
    let mut bad4 = proof.clone();
    bad4.z_evals[0] = bad4.z_evals[0].add(Fp::from_u64(1));
    assert!(!bad4.verify::<DummyHash<Fq>, DummyHash<Fp>>(&params, &srs));
}

#[test]
fn rejection_surfaces_as_constraint_system_failure() {
    let params: Params<EqAffine> = Params::new::<DummyHash<Fq>>(3);
    let good = MulAddCircuit { x: 2, y: 3, product: 6, sum: 5 };
    let srs = SRS::generate(&params, &good).expect("srs");
    let proof = Proof::create::<DummyHash<Fq>, DummyHash<Fp>, _>(&params, &srs, &good)
        .expect("proof");
    let guard = proof
        .verify_guard::<DummyHash<Fq>, DummyHash<Fp>>(&params, &srs)
        .expect("guard");
    assert!(matches!(guard.evaluate(&params), Ok(())));

    let bad = MulAddCircuit { x: 2, y: 3, product: 7, sum: 5 };
    let bad_proof = Proof::create::<DummyHash<Fq>, DummyHash<Fp>, _>(&params, &srs, &bad)
        .expect("proof");
    let bad_guard = bad_proof
        .verify_guard::<DummyHash<Fq>, DummyHash<Fp>>(&params, &srs)
        .expect("guard");
    assert!(matches!(bad_guard.evaluate(&params), Err(Error::ConstraintSystemFailure)));
}

#[test]
fn both_guard_finalize_strategies_agree() {
    let params: Params<EqAffine> = Params::new::<DummyHash<Fq>>(3);
    let circuit = MulAddCircuit { x: 2, y: 3, product: 6, sum: 5 };
    let srs = SRS::generate(&params, &circuit).expect("srs");
    let proof = Proof::create::<DummyHash<Fq>, DummyHash<Fp>, _>(&params, &srs, &circuit)
        .expect("proof");
    let guard = proof
        .verify_guard::<DummyHash<Fq>, DummyHash<Fp>>(&params, &srs)
        .expect("well-shaped proof");
    assert!(guard.use_challenges(&params));
    assert!(guard.use_g(&params));

    let bad_circuit = MulAddCircuit { x: 2, y: 3, product: 8, sum: 5 };
    let bad_proof = Proof::create::<DummyHash<Fq>, DummyHash<Fp>, _>(&params, &srs, &bad_circuit)
        .expect("proof");
    let bad_guard = bad_proof
        .verify_guard::<DummyHash<Fq>, DummyHash<Fp>>(&params, &srs)
        .expect("well-shaped proof");
    assert!(!bad_guard.use_challenges(&params));
    assert!(!bad_guard.use_g(&params));
}

/// A circuit that performs four single-cell allocations and reports each
/// returned cell through interior mutability, so the packing behaviour is
/// observable from outside synthesis.
struct PackingCircuit {
    slots: core::cell::RefCell<Vec<(usize, usize)>>,
}

impl Circuit<Fp> for PackingCircuit {
    type Config = StandardConfig;

    fn configure(meta: &mut ConstraintSystem<Fp>) -> StandardConfig {
        StandardConfig::new(meta)
    }

    fn synthesize<CS: Assignment<Fp>>(
        &self,
        mut cs: CS,
        config: &StandardConfig,
    ) -> Result<CS, Error> {
        {
            let mut std_cs = Standard::new(&mut cs, config.clone());
            let v1 = std_cs.alloc_cell(|| Ok(Fp::from_u64(1)))?;
            let v2 = std_cs.alloc_cell(|| Ok(Fp::from_u64(2)))?;
            let v3 = std_cs.alloc_cell(|| Ok(Fp::from_u64(3)))?;
            let v4 = std_cs.alloc_cell(|| Ok(Fp::from_u64(4)))?;
            let mut slots = self.slots.borrow_mut();
            slots.clear();
            for v in [v1, v2, v3, v4] {
                slots.push((v.column_index(), v.row()));
            }
        }
        Ok(cs)
    }
}

#[test]
fn alloc_packs_three_cells_per_row() {
    let params: Params<EqAffine> = Params::new::<DummyHash<Fq>>(3);
    let circuit = PackingCircuit { slots: core::cell::RefCell::new(Vec::new()) };
    let mut meta = ConstraintSystem::<Fp>::new();
    let config = StandardConfig::new(&mut meta);
    SRS::generate(&params, &circuit).expect("srs");
    let slots = circuit.slots.borrow();

    // Three consecutive allocations land in columns a, b, c of one row.
    assert_eq!(slots[0].0, config.a.index());
    assert_eq!(slots[1].0, config.b.index());
    assert_eq!(slots[2].0, config.c.index());
    assert_eq!(slots[0].1, slots[1].1);
    assert_eq!(slots[1].1, slots[2].1);

    // The fourth opens a new row, starting again at column a.
    assert_eq!(slots[3].0, config.a.index());
    assert_eq!(slots[3].1, slots[0].1 + 1);
}

/// A circuit interleaving a multiply gate between single-cell allocations,
/// reporting the allocated cells and the row the multiply claimed.
struct InterleavedCircuit {
    slots: core::cell::RefCell<Vec<(usize, usize)>>,
}

impl Circuit<Fp> for InterleavedCircuit {
    type Config = StandardConfig;

    fn configure(meta: &mut ConstraintSystem<Fp>) -> StandardConfig {
        StandardConfig::new(meta)
    }

    fn synthesize<CS: Assignment<Fp>>(
        &self,
        mut cs: CS,
        config: &StandardConfig,
    ) -> Result<CS, Error> {
        {
            let mut std_cs = Standard::new(&mut cs, config.clone());
            let v1 = std_cs.alloc_cell(|| Ok(Fp::from_u64(1)))?;
            let (ma, _, _) = std_cs
                .raw_multiply(|| Ok((Fp::from_u64(2), Fp::from_u64(3), Fp::from_u64(6))))?;
            let v2 = std_cs.alloc_cell(|| Ok(Fp::from_u64(4)))?;
            let mut slots = self.slots.borrow_mut();
            slots.clear();
            for v in [v1, ma, v2] {
                slots.push((v.column_index(), v.row()));
            }
        }
        Ok(cs)
    }
}

#[test]
fn alloc_cursor_survives_raw_gates() {
    let params: Params<EqAffine> = Params::new::<DummyHash<Fq>>(3);
    let circuit = InterleavedCircuit { slots: core::cell::RefCell::new(Vec::new()) };
    let mut meta = ConstraintSystem::<Fp>::new();
    let config = StandardConfig::new(&mut meta);
    SRS::generate(&params, &circuit).expect("srs");
    let slots = circuit.slots.borrow();

    // The multiply consumed its own fresh row; the packing cursor still
    // points into the allocation row.
    assert_eq!(slots[1].1, slots[0].1 + 1);
    assert_eq!(slots[2].0, config.b.index());
    assert_eq!(slots[2].1, slots[0].1);
}

#[test]
fn commitments_bind_to_coefficients_and_parameters() {
    let params: Params<EqAffine> = Params::new::<DummyHash<Fq>>(5);
    let p1 = vec![Fp::from_u64(1), Fp::from_u64(2), Fp::from_u64(3)];
    let p2 = vec![Fp::from_u64(1), Fp::from_u64(2), Fp::from_u64(4)];
    let c1: EqAffine = commit(&params, &p1);
    let c1_again: EqAffine = commit(&params, &p1);
    let c2: EqAffine = commit(&params, &p2);
    assert_eq!(c1, c1_again);
    assert_ne!(c1, c2);
    // A different parameter set yields different commitments to the same
    // polynomial.
    let other: Params<EqAffine> = Params::new::<DummyHash<Fq>>(6);
    let c3: EqAffine = commit(&other, &p1);
    assert_ne!(c1, c3);
}
