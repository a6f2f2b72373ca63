//! Elements of the BLS12-381 scalar field.
//!
//! A [`Scalar`] holds the canonical little-endian limbs of a field element.
//! The arithmetic itself is done by `dusk_bls12_381::BlsScalar`; the functions
//! that call it are the only unverified code in this module.

use dusk_bls12_381::BlsScalar;
use vstd::arithmetic::div_mod::{
    lemma_add_mod_noop, lemma_mul_mod_noop_general, lemma_small_mod, lemma_sub_mod_noop,
};
use vstd::arithmetic::power::pow;
use vstd::prelude::*;

verus! {

/// The order of the scalar field.
///
/// It is `0x73eda753299d7d483339d80809a1d80553bda402fffe5bfeffffffff00000001`,
/// written here limb by limb.
pub open spec fn modulus() -> int {
    limbs_value(
        0xffff_ffff_0000_0001,
        0x53bd_a402_fffe_5bfe,
        0x3339_d808_09a1_d805,
        0x73ed_a753_299d_7d48,
    )
}

/// The canonical representative of the integer `x` in the field.
pub open spec fn fe(x: int) -> int {
    x % modulus()
}

/// The inverse of `a` in the field: the representative that multiplies
/// `a` to one. The modulus is prime, so there is one for every `a` that is
/// not a multiple of the modulus, and only one.
pub open spec fn field_inverse(a: int) -> int {
    choose|b: int| inverts(fe(a), b)
}

/// Whether `b` is the representative that multiplies `a` to one.
pub open spec fn inverts(a: int, b: int) -> bool {
    0 <= b < modulus() && fe(a * b) == 1
}

/// Whether `a` has an inverse in the field.
pub open spec fn invertible(a: int) -> bool {
    exists|b: int| inverts(a, b)
}

/// The integer that four little-endian 64-bit limbs stand for.
pub open spec fn limbs_value(l0: u64, l1: u64, l2: u64, l3: u64) -> int {
    (l0 as int) + (l1 as int) * 0x1_0000_0000_0000_0000 + (l2 as int) * 0x1_0000_0000_0000_0000
        * 0x1_0000_0000_0000_0000 + (l3 as int) * 0x1_0000_0000_0000_0000 * 0x1_0000_0000_0000_0000
        * 0x1_0000_0000_0000_0000
}

/// A field element, kept as the little-endian limbs of an integer.
#[derive(Clone, Copy, Debug, PartialEq, Eq, Structural, Hash)]
pub struct Scalar {
    l0: u64,
    l1: u64,
    l2: u64,
    l3: u64,
}

impl View for Scalar {
    type V = int;

    closed spec fn view(&self) -> int {
        limbs_value(self.l0, self.l1, self.l2, self.l3)
    }
}

impl Scalar {
    /// The scalar that stands for the integer `x`: the one whose value is
    /// the canonical representative of `x`.
    pub closed spec fn of_int(x: int) -> Scalar {
        let v = fe(x);
        Scalar {
            l0: (v % 0x1_0000_0000_0000_0000) as u64,
            l1: ((v / 0x1_0000_0000_0000_0000) % 0x1_0000_0000_0000_0000) as u64,
            l2: ((v / 0x1_0000_0000_0000_0000 / 0x1_0000_0000_0000_0000)
                % 0x1_0000_0000_0000_0000) as u64,
            l3: ((v / 0x1_0000_0000_0000_0000 / 0x1_0000_0000_0000_0000
                / 0x1_0000_0000_0000_0000) % 0x1_0000_0000_0000_0000) as u64,
        }
    }

    /// Whether the limbs hold the representative below the modulus. Every
    /// scalar that a program holds does.
    #[verifier::type_invariant]
    pub open spec fn is_canonical(&self) -> bool {
        0 <= self@ < modulus()
    }
}

/// The value of [`Scalar::of_int`] is the canonical representative of its
/// argument.
pub proof fn lemma_of_int(x: int)
    ensures
        Scalar::of_int(x)@ == fe(x),
        Scalar::of_int(x).is_canonical(),
{
}

/// A scalar with a given value is the one that [`Scalar::of_int`] names.
pub proof fn lemma_of_int_unique(s: Scalar, x: int)
    requires
        s@ == fe(x),
    ensures
        s == Scalar::of_int(x),
{
    lemma_of_int(x);
    lemma_view_injective(s, Scalar::of_int(x));
}

/// Two scalars with the same value are the same scalar.
pub proof fn lemma_view_injective(a: Scalar, b: Scalar)
    requires
        a@ == b@,
    ensures
        a == b,
{
    let r: int = 0x1_0000_0000_0000_0000;
    let x = a.l1 as int + (a.l2 as int) * r + (a.l3 as int) * r * r;
    let y = b.l1 as int + (b.l2 as int) * r + (b.l3 as int) * r * r;
    assert(a@ == a.l0 as int + x * r) by (nonlinear_arith)
        requires
            a@ == a.l0 as int + (a.l1 as int) * r + (a.l2 as int) * r * r + (a.l3 as int) * r * r * r,
            x == a.l1 as int + (a.l2 as int) * r + (a.l3 as int) * r * r,
    ;
    assert(b@ == b.l0 as int + y * r) by (nonlinear_arith)
        requires
            b@ == b.l0 as int + (b.l1 as int) * r + (b.l2 as int) * r * r + (b.l3 as int) * r * r * r,
            y == b.l1 as int + (b.l2 as int) * r + (b.l3 as int) * r * r,
    ;
    lemma_radix_unique(a.l0 as int, x, b.l0 as int, y);
    let x2 = a.l2 as int + (a.l3 as int) * r;
    let y2 = b.l2 as int + (b.l3 as int) * r;
    assert(x == a.l1 as int + x2 * r) by (nonlinear_arith)
        requires
            x == a.l1 as int + (a.l2 as int) * r + (a.l3 as int) * r * r,
            x2 == a.l2 as int + (a.l3 as int) * r,
    ;
    assert(y == b.l1 as int + y2 * r) by (nonlinear_arith)
        requires
            y == b.l1 as int + (b.l2 as int) * r + (b.l3 as int) * r * r,
            y2 == b.l2 as int + (b.l3 as int) * r,
    ;
    lemma_radix_unique(a.l1 as int, x2, b.l1 as int, y2);
    lemma_radix_unique(a.l2 as int, a.l3 as int, b.l2 as int, b.l3 as int);
}

/// A digit below `2^64` and the rest above it are determined by their sum.
proof fn lemma_radix_unique(d: int, x: int, e: int, y: int)
    requires
        0 <= d < 0x1_0000_0000_0000_0000,
        0 <= e < 0x1_0000_0000_0000_0000,
        d + x * 0x1_0000_0000_0000_0000 == e + y * 0x1_0000_0000_0000_0000,
    ensures
        d == e,
        x == y,
{
}

/// Sums of congruent integers are congruent.
pub proof fn lemma_congruent_add(a: int, b: int, x: int, y: int)
    requires
        fe(a) == fe(x),
        fe(b) == fe(y),
    ensures
        fe(a + b) == fe(x + y),
{
    lemma_add_mod_noop(a, b, modulus());
    lemma_add_mod_noop(x, y, modulus());
}

/// Differences of congruent integers are congruent.
pub proof fn lemma_congruent_sub(a: int, b: int, x: int, y: int)
    requires
        fe(a) == fe(x),
        fe(b) == fe(y),
    ensures
        fe(a - b) == fe(x - y),
{
    lemma_sub_mod_noop(a, b, modulus());
    lemma_sub_mod_noop(x, y, modulus());
}

/// Products of congruent integers are congruent.
pub proof fn lemma_congruent_mul(a: int, b: int, x: int, y: int)
    requires
        fe(a) == fe(x),
        fe(b) == fe(y),
    ensures
        fe(a * b) == fe(x * y),
{
    lemma_mul_mod_noop_general(a, b, modulus());
    lemma_mul_mod_noop_general(x, y, modulus());
}

/// What has an inverse is not zero in the field.
pub proof fn lemma_invertible_nonzero(a: int)
    requires
        invertible(a),
    ensures
        fe(a) != 0,
{
    let b = choose|b: int| inverts(a, b);
    lemma_fe_canonical(a);
    lemma_fe_canonical(b);
    lemma_congruent_mul(a, b, fe(a), b);
    if fe(a) == 0 {
        assert(0 * b == 0);
        lemma_fe_canonical(0);
    }
}

/// The product of two integers that have inverses has one: the product of
/// the inverses.
pub proof fn lemma_invertible_mul(a: int, c: int)
    requires
        invertible(a),
        invertible(c),
    ensures
        invertible(a * c),
{
    let b = choose|b: int| inverts(a, b);
    let d = choose|d: int| inverts(c, d);
    let e = fe(b * d);
    lemma_fe_canonical(b * d);
    lemma_fe_canonical(a * c);
    lemma_congruent_mul(a * c, e, a * c, b * d);
    assert((a * c) * (b * d) == (a * b) * (c * d)) by (nonlinear_arith);
    lemma_fe_canonical(a * b);
    lemma_fe_canonical(c * d);
    lemma_fe_canonical(1);
    lemma_congruent_mul(a * b, c * d, 1, 1);
    assert(1 * 1 == 1);
    assert(inverts(a * c, e));
}

/// The canonical representative of an integer is congruent to it, and an
/// integer that is already in the field's range is its own representative.
pub proof fn lemma_fe_canonical(x: int)
    ensures
        0 <= fe(x) < modulus(),
        fe(fe(x)) == fe(x),
        0 <= x < modulus() ==> fe(x) == x,
{
    if 0 <= x < modulus() {
        lemma_small_mod(x as nat, modulus() as nat);
    }
    lemma_small_mod(fe(x) as nat, modulus() as nat);
}

/// `BlsScalar::from_raw`, which takes any 256-bit integer to the field
/// element congruent to it, then `BlsScalar::reduce`, which gives that
/// element's canonical limbs.
#[verifier::external_body]
fn bls_from_raw(l0: u64, l1: u64, l2: u64, l3: u64) -> (r: Scalar)
    ensures
        r@ == fe(limbs_value(l0, l1, l2, l3)),
{
    let z = BlsScalar::from_raw([l0, l1, l2, l3]).reduce();
    let w = z.internal_repr();
    Scalar { l0: w[0], l1: w[1], l2: w[2], l3: w[3] }
}

/// `BlsScalar`'s `+`: addition in the field. The operands go in through
/// `BlsScalar::from_raw` and the sum comes back through `BlsScalar::reduce`.
#[verifier::external_body]
fn bls_add(a: &Scalar, b: &Scalar) -> (r: Scalar)
    ensures
        r@ == fe(a@ + b@),
{
    let x = BlsScalar::from_raw([a.l0, a.l1, a.l2, a.l3]);
    let y = BlsScalar::from_raw([b.l0, b.l1, b.l2, b.l3]);
    let z = (x + y).reduce();
    let w = z.internal_repr();
    Scalar { l0: w[0], l1: w[1], l2: w[2], l3: w[3] }
}

/// `BlsScalar`'s binary `-`: subtraction in the field, with the same
/// conversions as for addition.
#[verifier::external_body]
fn bls_sub(a: &Scalar, b: &Scalar) -> (r: Scalar)
    ensures
        r@ == fe(a@ - b@),
{
    let x = BlsScalar::from_raw([a.l0, a.l1, a.l2, a.l3]);
    let y = BlsScalar::from_raw([b.l0, b.l1, b.l2, b.l3]);
    let z = (x - y).reduce();
    let w = z.internal_repr();
    Scalar { l0: w[0], l1: w[1], l2: w[2], l3: w[3] }
}

/// `BlsScalar`'s `*`: multiplication in the field, with the same
/// conversions as for addition.
#[verifier::external_body]
fn bls_mul(a: &Scalar, b: &Scalar) -> (r: Scalar)
    ensures
        r@ == fe(a@ * b@),
{
    let x = BlsScalar::from_raw([a.l0, a.l1, a.l2, a.l3]);
    let y = BlsScalar::from_raw([b.l0, b.l1, b.l2, b.l3]);
    let z = (x * y).reduce();
    let w = z.internal_repr();
    Scalar { l0: w[0], l1: w[1], l2: w[2], l3: w[3] }
}

/// `BlsScalar`'s unary `-`: the additive inverse in the field, with the
/// same conversions as for addition.
#[verifier::external_body]
fn bls_neg(a: &Scalar) -> (r: Scalar)
    ensures
        r@ == fe(-a@),
{
    let x = BlsScalar::from_raw([a.l0, a.l1, a.l2, a.l3]);
    let z = (-x).reduce();
    let w = z.internal_repr();
    Scalar { l0: w[0], l1: w[1], l2: w[2], l3: w[3] }
}

/// `BlsScalar::invert`: the multiplicative inverse in the field, which
/// every element but zero has, with the same conversions as for addition.
#[verifier::external_body]
fn bls_invert(a: &Scalar) -> (r: Option<Scalar>)
    ensures
        fe(a@) == 0 <==> r is None,
        r is Some ==> r->0@ == field_inverse(a@) && 0 <= r->0@ < modulus() && fe(a@ * r->0@) == 1,
{
    let x = BlsScalar::from_raw([a.l0, a.l1, a.l2, a.l3]);
    match x.invert() {
        Some(y) => {
            let z = y.reduce();
            let w = z.internal_repr();
            Some(Scalar { l0: w[0], l1: w[1], l2: w[2], l3: w[3] })
        },
        None => None,
    }
}

/// `BlsScalar::pow` with an exponent of one limb: the power in the field,
/// with the same conversions as for addition.
#[verifier::external_body]
fn bls_pow(a: &Scalar, by: u64) -> (r: Scalar)
    ensures
        r@ == fe(pow(a@, by as nat)),
{
    let x = BlsScalar::from_raw([a.l0, a.l1, a.l2, a.l3]);
    let z = x.pow(&[by, 0, 0, 0]).reduce();
    let w = z.internal_repr();
    Scalar { l0: w[0], l1: w[1], l2: w[2], l3: w[3] }
}

impl Scalar {
    /// The additive identity.
    pub fn zero() -> (r: Scalar)
        ensures
            r@ == 0,
            r == Scalar::of_int(0),
    {
        let r = Scalar { l0: 0, l1: 0, l2: 0, l3: 0 };
        proof {
            lemma_of_int_unique(r, 0);
        }
        r
    }

    /// The multiplicative identity.
    pub fn one() -> (r: Scalar)
        ensures
            r@ == 1,
            r == Scalar::of_int(1),
    {
        let r = Scalar { l0: 1, l1: 0, l2: 0, l3: 0 };
        proof {
            lemma_fe_canonical(1);
            lemma_of_int_unique(r, 1);
        }
        r
    }

    /// The field element of a small integer.
    pub fn from_u64(v: u64) -> (r: Scalar)
        ensures
            r@ == v,
            r == Scalar::of_int(v as int),
    {
        let r = Scalar { l0: v, l1: 0, l2: 0, l3: 0 };
        proof {
            lemma_fe_canonical(v as int);
            lemma_of_int_unique(r, v as int);
        }
        r
    }

    /// The field element congruent to the 256-bit integer with the given
    /// little-endian limbs.
    pub fn from_raw(limbs: [u64; 4]) -> (r: Scalar)
        ensures
            r@ == fe(limbs_value(limbs[0], limbs[1], limbs[2], limbs[3])),
            r == Scalar::of_int(limbs_value(limbs[0], limbs[1], limbs[2], limbs[3])),
    {
        let r = bls_from_raw(limbs[0], limbs[1], limbs[2], limbs[3]);
        proof {
            lemma_of_int_unique(r, limbs_value(limbs[0], limbs[1], limbs[2], limbs[3]));
        }
        r
    }

    /// The little-endian limbs of the value.
    pub fn to_raw(&self) -> (r: [u64; 4])
        ensures
            limbs_value(r[0], r[1], r[2], r[3]) == self@,
    {
        [self.l0, self.l1, self.l2, self.l3]
    }

    /// `self + rhs` in the field.
    pub fn add(&self, rhs: &Scalar) -> (r: Scalar)
        ensures
            r@ == fe(self@ + rhs@),
            r == Scalar::of_int(self@ + rhs@),
    {
        let r = bls_add(self, rhs);
        proof {
            lemma_of_int_unique(r, self@ + rhs@);
        }
        r
    }

    /// `self - rhs` in the field.
    pub fn sub(&self, rhs: &Scalar) -> (r: Scalar)
        ensures
            r@ == fe(self@ - rhs@),
            r == Scalar::of_int(self@ - rhs@),
    {
        let r = bls_sub(self, rhs);
        proof {
            lemma_of_int_unique(r, self@ - rhs@);
        }
        r
    }

    /// `self * rhs` in the field.
    pub fn mul(&self, rhs: &Scalar) -> (r: Scalar)
        ensures
            r@ == fe(self@ * rhs@),
            r == Scalar::of_int(self@ * rhs@),
    {
        let r = bls_mul(self, rhs);
        proof {
            lemma_of_int_unique(r, self@ * rhs@);
        }
        r
    }

    /// The inverse of `self` in the field; zero has none.
    pub fn invert(&self) -> (r: Option<Scalar>)
        ensures
            self@ == 0 <==> r is None,
            r is Some ==> r->0@ == field_inverse(self@) && fe(self@ * r->0@) == 1,
            r is Some ==> invertible(self@),
    {
        proof {
            use_type_invariant(self);
            lemma_fe_canonical(self@);
        }
        let r = bls_invert(self);
        proof {
            if r is Some {
                assert(inverts(self@, r->0@));
            }
        }
        r
    }

    /// `self` to the power `by` in the field.
    pub fn pow(&self, by: u64) -> (r: Scalar)
        ensures
            r@ == fe(pow(self@, by as nat)),
            r == Scalar::of_int(pow(self@, by as nat)),
    {
        let r = bls_pow(self, by);
        proof {
            lemma_of_int_unique(r, pow(self@, by as nat));
        }
        r
    }

    /// `-self` in the field.
    pub fn neg(&self) -> (r: Scalar)
        ensures
            r@ == fe(-self@),
            r == Scalar::of_int(-self@),
    {
        let r = bls_neg(self);
        proof {
            lemma_of_int_unique(r, -self@);
        }
        r
    }
}

/// The sum of two scalars that stand for the integers `x` and `y`.
pub(crate) fn add_as(a: &Scalar, b: &Scalar, Ghost(x): Ghost<int>, Ghost(y): Ghost<int>) -> (r:
    Scalar)
    requires
        fe(a@) == fe(x),
        fe(b@) == fe(y),
    ensures
        r@ == fe(x + y),
        fe(r@) == fe(x + y),
        r == Scalar::of_int(x + y),
{
    proof {
        lemma_congruent_add(a@, b@, x, y);
        lemma_fe_canonical(x + y);
    }
    let r = a.add(b);
    proof {
        lemma_of_int_unique(r, x + y);
    }
    r
}

/// The difference of two scalars that stand for the integers `x` and `y`.
pub(crate) fn sub_as(a: &Scalar, b: &Scalar, Ghost(x): Ghost<int>, Ghost(y): Ghost<int>) -> (r:
    Scalar)
    requires
        fe(a@) == fe(x),
        fe(b@) == fe(y),
    ensures
        r@ == fe(x - y),
        fe(r@) == fe(x - y),
        r == Scalar::of_int(x - y),
{
    proof {
        lemma_congruent_sub(a@, b@, x, y);
        lemma_fe_canonical(x - y);
    }
    let r = a.sub(b);
    proof {
        lemma_of_int_unique(r, x - y);
    }
    r
}

/// The product of two scalars that stand for the integers `x` and `y`.
pub(crate) fn mul_as(a: &Scalar, b: &Scalar, Ghost(x): Ghost<int>, Ghost(y): Ghost<int>) -> (r:
    Scalar)
    requires
        fe(a@) == fe(x),
        fe(b@) == fe(y),
    ensures
        r@ == fe(x * y),
        fe(r@) == fe(x * y),
        r == Scalar::of_int(x * y),
{
    proof {
        lemma_congruent_mul(a@, b@, x, y);
        lemma_fe_canonical(x * y);
    }
    let r = a.mul(b);
    proof {
        lemma_of_int_unique(r, x * y);
    }
    r
}

/// The negation of a scalar that stands for the integer `x`.
pub(crate) fn neg_as(a: &Scalar, Ghost(x): Ghost<int>) -> (r: Scalar)
    requires
        fe(a@) == fe(x),
    ensures
        r@ == fe(-x),
        fe(r@) == fe(-x),
        r == Scalar::of_int(-x),
{
    proof {
        lemma_congruent_sub(0, a@, 0, x);
        lemma_fe_canonical(-x);
    }
    let r = a.neg();
    proof {
        lemma_of_int_unique(r, -x);
    }
    r
}

impl From<u64> for Scalar {
    /// The field element of a small integer.
    fn from(v: u64) -> (r: Scalar) {
        Scalar::from_u64(v)
    }
}

impl vstd::std_specs::convert::FromSpecImpl<u64> for Scalar {
    open spec fn obeys_from_spec() -> bool {
        true
    }

    open spec fn from_spec(v: u64) -> Scalar {
        Scalar::of_int(v as int)
    }
}

} // verus!
