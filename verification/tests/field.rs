use dusk_bls12_381::BlsScalar;
use plonk_core::field::Scalar;

fn outside(s: &Scalar) -> BlsScalar {
    BlsScalar::from_raw(s.to_raw())
}

fn inside(b: &BlsScalar) -> Scalar {
    Scalar::from_raw(*b.reduce().internal_repr())
}

const MODULUS: [u64; 4] = [
    0xffff_ffff_0000_0001,
    0x53bd_a402_fffe_5bfe,
    0x3339_d808_09a1_d805,
    0x73ed_a753_299d_7d48,
];

#[test]
fn constants_have_their_values() {
    assert_eq!(Scalar::zero().to_raw(), [0, 0, 0, 0]);
    assert_eq!(Scalar::one().to_raw(), [1, 0, 0, 0]);
    assert_eq!(Scalar::from_u64(1729).to_raw(), [1729, 0, 0, 0]);
    assert_eq!(outside(&Scalar::one()), BlsScalar::one());
    assert_eq!(outside(&Scalar::from_u64(6)), BlsScalar::from(6));
}

#[test]
fn from_raw_reduces_modulo_the_order() {
    assert_eq!(Scalar::from_raw(MODULUS), Scalar::zero());
    let mut above = MODULUS;
    above[0] += 5;
    assert_eq!(Scalar::from_raw(above), Scalar::from_u64(5));
    assert_eq!(Scalar::from_raw([9, 8, 7, 6]).to_raw(), [9, 8, 7, 6]);
}

#[test]
fn addition_is_modular() {
    let a = Scalar::from_u64(20);
    let b = Scalar::from_u64(22);
    assert_eq!(a.add(&b), Scalar::from_u64(42));
    let mut last = MODULUS;
    last[0] -= 1;
    let minus_one = Scalar::from_raw(last);
    assert_eq!(minus_one.add(&Scalar::one()), Scalar::zero());
    assert_eq!(minus_one.add(&Scalar::from_u64(3)), Scalar::from_u64(2));
}

#[test]
fn subtraction_is_modular() {
    let a = Scalar::from_u64(20);
    let b = Scalar::from_u64(22);
    assert_eq!(b.sub(&a), Scalar::from_u64(2));
    let mut expected = MODULUS;
    expected[0] -= 2;
    assert_eq!(a.sub(&b).to_raw(), expected);
}

#[test]
fn multiplication_is_modular() {
    let a = Scalar::from_u64(12);
    assert_eq!(a.mul(&a).mul(&a), Scalar::from_u64(1728));
    let big = Scalar::from_raw([0, 0, 0, 1]);
    let product = big.mul(&big);
    assert_eq!(outside(&product), outside(&big) * outside(&big));
    assert!(product != big);
}

#[test]
fn negation_is_modular() {
    let mut expected = MODULUS;
    expected[0] -= 20;
    assert_eq!(Scalar::from_u64(20).neg().to_raw(), expected);
    assert_eq!(Scalar::zero().neg(), Scalar::zero());
    assert_eq!(Scalar::from_u64(20).neg().add(&Scalar::from_u64(20)), Scalar::zero());
}

#[test]
fn inverse_multiplies_to_one() {
    assert_eq!(Scalar::zero().invert(), None);
    assert_eq!(Scalar::one().invert(), Some(Scalar::one()));
    let seven = Scalar::from_u64(7);
    let inverse = seven.invert().unwrap();
    assert!(inverse != seven);
    assert_eq!(inverse.mul(&seven), Scalar::one());
    assert_eq!(outside(&inverse), BlsScalar::from(7).invert().unwrap());
}

#[test]
fn power_is_repeated_multiplication() {
    let three = Scalar::from_u64(3);
    assert_eq!(three.pow(0), Scalar::one());
    assert_eq!(three.pow(1), three);
    assert_eq!(three.pow(5), Scalar::from_u64(243));
    let x = Scalar::from_raw([5, 4, 3, 2]);
    assert_eq!(x.pow(3), x.mul(&x).mul(&x));
}

#[test]
fn operations_agree_with_the_outside_field() {
    let values = [
        Scalar::from_u64(0),
        Scalar::from_u64(1),
        Scalar::from_u64(u64::MAX),
        Scalar::from_raw([1, 2, 3, 4]),
        Scalar::from_raw([u64::MAX, u64::MAX, u64::MAX, u64::MAX]),
        Scalar::from_u64(20).neg(),
    ];
    for a in values.iter() {
        assert_eq!(inside(&outside(a)), *a);
        assert_eq!(a.neg(), inside(&-outside(a)));
        for b in values.iter() {
            assert_eq!(a.add(b), inside(&(outside(a) + outside(b))));
            assert_eq!(a.sub(b), inside(&(outside(a) - outside(b))));
            assert_eq!(a.mul(b), inside(&(outside(a) * outside(b))));
        }
    }
}
