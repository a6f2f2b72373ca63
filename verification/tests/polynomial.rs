use plonk_core::domain::EvaluationDomain;
use plonk_core::field::Scalar;
use plonk_core::polynomial::{Evaluations, Polynomial};

fn poly(values: &[u64]) -> Polynomial {
    Polynomial::from_coefficients_vec(values.iter().map(|v| Scalar::from_u64(*v)).collect())
}

fn scalars(values: &[u64]) -> Vec<Scalar> {
    values.iter().map(|v| Scalar::from_u64(*v)).collect()
}

#[test]
fn zeros_at_the_end_are_dropped() {
    assert_eq!(poly(&[1, 2, 0, 0]).coeffs(), &scalars(&[1, 2]));
    assert_eq!(poly(&[0, 0, 3]).coeffs(), &scalars(&[0, 0, 3]));
    assert_eq!(poly(&[0, 0]).coeffs(), &scalars(&[]));
    assert_eq!(poly(&[0, 0]), Polynomial::zero());
}

#[test]
fn degree_and_zero() {
    assert_eq!(poly(&[]).degree(), 0);
    assert!(poly(&[]).is_zero());
    assert_eq!(poly(&[5]).degree(), 0);
    assert!(!poly(&[5]).is_zero());
    assert_eq!(poly(&[5, 0, 1]).degree(), 2);
}

#[test]
fn scaling_multiplies_every_coefficient() {
    assert_eq!(poly(&[1, 2, 3]).scale(&Scalar::from_u64(5)), poly(&[5, 10, 15]));
    assert_eq!(poly(&[1, 2, 3]).scale(&Scalar::zero()), Polynomial::zero());
    assert_eq!(poly(&[]).scale(&Scalar::from_u64(5)), Polynomial::zero());
}

#[test]
fn sums_are_taken_coefficient_by_coefficient() {
    assert_eq!(poly(&[1, 2, 3]).add(&poly(&[10, 20])), poly(&[11, 22, 3]));
    assert_eq!(poly(&[10, 20]).add(&poly(&[1, 2, 3])), poly(&[11, 22, 3]));
    assert_eq!(poly(&[]).add(&poly(&[1, 2])), poly(&[1, 2]));
    assert_eq!(poly(&[1, 2]).add(&poly(&[])), poly(&[1, 2]));
    // the leading terms cancel
    let minus = poly(&[1, 2, 3]).scale(&Scalar::one().neg());
    assert_eq!(poly(&[5, 2, 3]).add(&minus), poly(&[4]));
    assert_eq!(poly(&[1, 2, 3]).add(&minus), Polynomial::zero());
}

#[test]
fn evaluation_is_the_value_at_a_point() {
    assert_eq!(poly(&[1, 2, 3]).evaluate(&Scalar::from_u64(2)), Scalar::from_u64(17));
    assert_eq!(poly(&[1, 2, 3]).evaluate(&Scalar::zero()), Scalar::from_u64(1));
    assert_eq!(poly(&[]).evaluate(&Scalar::from_u64(2)), Scalar::zero());
    assert_eq!(poly(&[0, 1]).evaluate(&Scalar::from_u64(9).neg()), Scalar::from_u64(9).neg());
}

#[test]
fn evaluations_are_read_by_index() {
    let table = Evaluations::from_vec(scalars(&[7, 8, 9]));
    assert_eq!(table.len(), 3);
    assert_eq!(table.get(0), Scalar::from_u64(7));
    assert_eq!(table.get(2), Scalar::from_u64(9));
}

#[test]
fn domain_size_is_the_next_power_of_two() {
    let size = |n: usize| EvaluationDomain::new(n).map(|d| d.size());
    assert_eq!(size(0), Some(1));
    assert_eq!(size(1), Some(1));
    assert_eq!(size(2), Some(2));
    assert_eq!(size(3), Some(4));
    assert_eq!(size(4), Some(4));
    assert_eq!(size(5), Some(8));
    assert_eq!(size(1000), Some(1024));
    assert_eq!(size(0x8000_0000), Some(0x8000_0000));
    assert_eq!(size(0x7fff_ffff), Some(0x8000_0000));
    assert_eq!(size(0x8000_0001), None);
    assert_eq!(size(usize::MAX), None);
}

#[test]
fn first_lagrange_coefficient_on_and_off_the_domain() {
    let domain = EvaluationDomain::new(4).unwrap();
    // (5^4 - 1) / (4 * (5 - 1)) = 39
    assert_eq!(
        domain.evaluate_first_lagrange_coefficient(&Scalar::from_u64(5)),
        Scalar::from_u64(39)
    );
    // one at the first point of the domain, zero at the others
    assert_eq!(domain.evaluate_first_lagrange_coefficient(&Scalar::one()), Scalar::one());
    let minus_one = Scalar::one().neg();
    assert_eq!(minus_one.pow(4), Scalar::one());
    assert_eq!(domain.evaluate_first_lagrange_coefficient(&minus_one), Scalar::zero());
    // the polynomial of the domain of one point is constant
    let single = EvaluationDomain::new(1).unwrap();
    assert_eq!(
        single.evaluate_first_lagrange_coefficient(&Scalar::from_u64(5)),
        Scalar::one()
    );
    // (z^2 - 1) / (2 (z - 1)) = (z + 1) / 2
    let pair = EvaluationDomain::new(2).unwrap();
    assert_eq!(
        pair.evaluate_first_lagrange_coefficient(&Scalar::from_u64(5)),
        Scalar::from_u64(3)
    );
}
