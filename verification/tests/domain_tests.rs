//! Field arithmetic and evaluation-domain tests: exact values for the
//! modular operations, and the domain round-trips.

use halo::arithmetic::invert;
use halo::arithmetic::pow_u64;
use halo::arithmetic::Field;
use halo::arithmetic::Fp;
use halo::arithmetic::P_MODULUS;
use halo::domain::eval_at;
use halo::domain::EvaluationDomain;
use halo::plonk::Error;

#[test]
fn field_ops_have_exact_values() {
    let a = Fp::from_u64(P_MODULUS - 1);
    let b = Fp::from_u64(2);
    assert_eq!(a.add(b).as_u64(), 1);
    assert_eq!(b.sub(a).as_u64(), 3);
    assert_eq!(a.mul(b).as_u64(), P_MODULUS - 2);
    assert_eq!(a.neg().as_u64(), 1);
    assert_eq!(Fp::from_u64(3).pow(&[5, 0, 0, 0]).as_u64(), 243);
    assert_eq!(pow_u64(Fp::from_u64(2), 31).as_u64(), (1u64 << 31) % P_MODULUS);
}

#[test]
fn inversion_by_fermat_power() {
    let x = Fp::from_u64(7);
    assert_eq!(invert(x).mul(x).as_u64(), 1);
    let y = Fp::from_u64(123456789);
    assert_eq!(invert(y).mul(y).as_u64(), 1);
    // Zero has no inverse; the Fermat power maps it to zero.
    assert_eq!(invert(Fp::from_u64(0)).as_u64(), 0);
}

#[test]
fn root_of_unity_has_exact_order() {
    // The root generates the 2-power subgroup: its 2^27-th power is one and
    // its 2^26-th power is not.
    let root = Fp::root_of_unity();
    let mut x = root;
    for _ in 0..26 {
        x = x.square();
    }
    assert_ne!(x.as_u64(), 1);
    assert_eq!(x.square().as_u64(), 1);
}

#[test]
fn interpolate_then_evaluate_recovers_rows() {
    let domain = EvaluationDomain::<Fp>::new(5).expect("domain");
    let mut values: Vec<Fp> = Vec::new();
    for i in 0..32u64 {
        values.push(Fp::from_u64(i * i + 3 * i + 7));
    }
    let poly = domain.interpolate(&values);
    let back = domain.evaluate_on_domain(&poly);
    assert_eq!(back.len(), values.len());
    for i in 0..values.len() {
        assert_eq!(back[i].as_u64(), values[i].as_u64());
    }
}

#[test]
fn extended_round_trip_is_identity() {
    let domain = EvaluationDomain::<Fp>::new(5).expect("domain");
    let mut coeffs: Vec<Fp> = Vec::new();
    for i in 0..32u64 {
        coeffs.push(Fp::from_u64(11 * i + 5));
    }
    let ext = domain.coeff_to_extended(&coeffs);
    assert_eq!(ext.len(), 128);
    let back = domain.extended_to_coeff(&ext);
    assert_eq!(back.len(), 128);
    for i in 0..coeffs.len() {
        assert_eq!(back[i].as_u64(), coeffs[i].as_u64());
    }
    for i in coeffs.len()..back.len() {
        assert_eq!(back[i].as_u64(), 0);
    }
}

#[test]
fn domain_without_root_support_is_a_configuration_error() {
    // The scalar field's 2-adicity is 27, and the extended domain needs two
    // more doublings: k = 26 is the first size that cannot be served.
    assert!(matches!(EvaluationDomain::<Fp>::new(26), Err(Error::IncompatibleParams)));
    assert!(matches!(EvaluationDomain::<Fp>::new(0), Err(Error::IncompatibleParams)));
    assert!(EvaluationDomain::<Fp>::new(25).is_ok());
}

#[test]
fn horner_evaluation_matches_direct_computation() {
    // 5 + 2x + 3x^2 at x = 10 is 325.
    let coeffs = vec![Fp::from_u64(5), Fp::from_u64(2), Fp::from_u64(3)];
    assert_eq!(eval_at(&coeffs, Fp::from_u64(10)).as_u64(), 325);
}
