//! Dense polynomials over the scalar field, and tables of evaluations.

use crate::field::{
    add_as, fe, lemma_fe_canonical, lemma_of_int, lemma_of_int_unique, mul_as, Scalar,
};
use vstd::prelude::*;

verus! {

/// Whether a coefficient list has no zero at its end.
pub open spec fn normalized(s: Seq<Scalar>) -> bool {
    s.len() == 0 || s.last() != Scalar::of_int(0)
}

/// The coefficient list without the zeros at its end.
pub open spec fn normalize(s: Seq<Scalar>) -> Seq<Scalar>
    decreases s.len(),
{
    if s.len() == 0 || s.last() != Scalar::of_int(0) {
        s
    } else {
        normalize(s.drop_last())
    }
}

/// The value of the coefficient of `X^i`, which is zero from the length of
/// the list on.
pub open spec fn coefficient(s: Seq<Scalar>, i: int) -> int {
    if 0 <= i < s.len() {
        s[i]@
    } else {
        0
    }
}

/// The coefficients of the polynomial times the scalar `c`.
pub open spec fn scaled(s: Seq<Scalar>, c: Scalar) -> Seq<Scalar> {
    normalize(Seq::new(s.len(), |i: int| Scalar::of_int(s[i]@ * c@)))
}

/// The coefficients of the sum of two polynomials.
pub open spec fn sum(a: Seq<Scalar>, b: Seq<Scalar>) -> Seq<Scalar> {
    normalize(
        Seq::new(
            if a.len() >= b.len() {
                a.len()
            } else {
                b.len()
            },
            |i: int| Scalar::of_int(coefficient(a, i) + coefficient(b, i)),
        ),
    )
}

/// The value of the polynomial at `x`: the constant term, plus `x` times
/// the value of the polynomial of the other coefficients.
pub open spec fn evaluation(s: Seq<Scalar>, x: int) -> int
    decreases s.len(),
{
    if s.len() == 0 {
        0
    } else {
        s[0]@ + x * evaluation(s.subrange(1, s.len() as int), x)
    }
}

/// Normalizing leaves a normalized list that is a prefix of the given one
/// and has the same coefficients.
pub proof fn lemma_normalize(s: Seq<Scalar>)
    ensures
        normalized(normalize(s)),
        normalize(s).len() <= s.len(),
        normalize(s) == s.subrange(0, normalize(s).len() as int),
        forall|i: int| coefficient(normalize(s), i) == #[trigger] coefficient(s, i),
    decreases s.len(),
{
    if s.len() == 0 || s.last() != Scalar::of_int(0) {
        assert(s.subrange(0, s.len() as int) =~= s);
    } else {
        let t = s.drop_last();
        lemma_normalize(t);
        lemma_of_int(0);
        assert(normalize(s) =~= s.subrange(0, normalize(s).len() as int));
        assert forall|i: int| coefficient(normalize(s), i) == #[trigger] coefficient(s, i) by {
            assert(coefficient(normalize(t), i) == coefficient(t, i));
        }
    }
}

/// The coefficients of a scaled polynomial are those of the polynomial
/// times the scalar.
pub proof fn lemma_scaled_coefficient(s: Seq<Scalar>, c: Scalar, i: int)
    ensures
        coefficient(scaled(s, c), i) == fe(coefficient(s, i) * c@),
        normalized(scaled(s, c)),
{
    let raw = Seq::new(s.len(), |i: int| Scalar::of_int(s[i]@ * c@));
    lemma_normalize(raw);
    assert(coefficient(normalize(raw), i) == coefficient(raw, i));
    if 0 <= i < s.len() {
        lemma_of_int(s[i]@ * c@);
    } else {
        assert(0 * c@ == 0);
        lemma_fe_canonical(0);
    }
}

/// The coefficients of a sum are the sums of the coefficients.
pub proof fn lemma_sum_coefficient(a: Seq<Scalar>, b: Seq<Scalar>, i: int)
    ensures
        coefficient(sum(a, b), i) == fe(coefficient(a, i) + coefficient(b, i)),
        normalized(sum(a, b)),
{
    let len = if a.len() >= b.len() {
        a.len()
    } else {
        b.len()
    };
    let raw = Seq::new(len, |i: int| Scalar::of_int(coefficient(a, i) + coefficient(b, i)));
    lemma_normalize(raw);
    assert(coefficient(normalize(raw), i) == coefficient(raw, i));
    if 0 <= i < len {
        lemma_of_int(coefficient(a, i) + coefficient(b, i));
    } else {
        lemma_fe_canonical(0);
    }
}

/// A polynomial, as the list of its coefficients from the constant term
/// up. The list has no zero at its end.
#[derive(Debug, PartialEq, Eq)]
pub struct Polynomial {
    coeffs: Vec<Scalar>,
}

impl Clone for Polynomial {
    fn clone(&self) -> (r: Polynomial)
        ensures
            r@ == self@,
    {
        proof {
            use_type_invariant(self);
        }
        let coeffs = self.coeffs.clone();
        assert(coeffs@ =~= self.coeffs@);
        Polynomial { coeffs }
    }
}

impl View for Polynomial {
    type V = Seq<Scalar>;

    closed spec fn view(&self) -> Seq<Scalar> {
        self.coeffs@
    }
}

impl Polynomial {
    /// No zero stands at the end of the coefficient list. Every polynomial
    /// that a program holds is so.
    #[verifier::type_invariant]
    pub open spec fn wf(&self) -> bool {
        normalized(self@)
    }

    /// The zero polynomial.
    pub fn zero() -> (r: Polynomial)
        ensures
            r@ == Seq::<Scalar>::empty(),
            r.wf(),
    {
        Polynomial { coeffs: Vec::new() }
    }

    /// The polynomial with the given coefficients, from the constant term
    /// up. Zeros at the end of the list are dropped.
    pub fn from_coefficients_vec(coeffs: Vec<Scalar>) -> (r: Polynomial)
        ensures
            r@ == normalize(coeffs@),
            r.wf(),
    {
        let mut coeffs = coeffs;
        let ghost given = coeffs@;
        let zero = Scalar::zero();
        while coeffs.len() > 0 && coeffs[coeffs.len() - 1] == zero
            invariant
                normalize(coeffs@) == normalize(given),
                zero == Scalar::of_int(0),
            decreases coeffs.len(),
        {
            proof {
                assert(coeffs@.last() == zero);
            }
            coeffs.pop();
        }
        proof {
            lemma_normalize(given);
        }
        Polynomial { coeffs }
    }

    /// The coefficients, from the constant term up.
    pub fn coeffs(&self) -> (r: &Vec<Scalar>)
        ensures
            r@ == self@,
    {
        &self.coeffs
    }

    /// Whether this is the zero polynomial.
    pub fn is_zero(&self) -> (r: bool)
        ensures
            r == (self@.len() == 0),
            self.wf(),
    {
        proof {
            use_type_invariant(self);
        }
        self.coeffs.len() == 0
    }

    /// The degree of the polynomial; that of the zero polynomial is 0.
    pub fn degree(&self) -> (r: usize)
        ensures
            self@.len() == 0 ==> r == 0,
            self@.len() > 0 ==> r == self@.len() - 1,
            self.wf(),
    {
        proof {
            use_type_invariant(self);
        }
        if self.coeffs.len() == 0 {
            0
        } else {
            self.coeffs.len() - 1
        }
    }

    /// The value of the polynomial at `x`.
    pub fn evaluate(&self, x: &Scalar) -> (r: Scalar)
        ensures
            r@ == fe(evaluation(self@, x@)),
    {
        let mut acc = Scalar::zero();
        let mut i: usize = self.coeffs.len();
        proof {
            lemma_fe_canonical(0);
            assert(self@.subrange(i as int, self@.len() as int).len() == 0);
        }
        while i > 0
            invariant
                i <= self@.len(),
                acc@ == fe(evaluation(self@.subrange(i as int, self@.len() as int), x@)),
            decreases i,
        {
            i -= 1;
            let ghost above = self@.subrange(i as int + 1, self@.len() as int);
            let ghost here = self@.subrange(i as int, self@.len() as int);
            proof {
                assert(here.subrange(1, here.len() as int) =~= above);
                assert(here[0] == self@[i as int]);
                lemma_fe_canonical(evaluation(above, x@));
            }
            let shifted = mul_as(x, &acc, Ghost(x@), Ghost(evaluation(above, x@)));
            acc = add_as(
                &self.coeffs[i],
                &shifted,
                Ghost(self@[i as int]@),
                Ghost(x@ * evaluation(above, x@)),
            );
        }
        proof {
            assert(self@.subrange(0, self@.len() as int) =~= self@);
        }
        acc
    }

    /// The polynomial times the scalar `c`.
    pub fn scale(&self, c: &Scalar) -> (r: Polynomial)
        ensures
            r@ == scaled(self@, *c),
            r.wf(),
    {
        let mut scalars: Vec<Scalar> = Vec::with_capacity(self.coeffs.len());
        let mut i: usize = 0;
        while i < self.coeffs.len()
            invariant
                i <= self.coeffs@.len(),
                scalars@.len() == i,
                forall|k: int|
                    0 <= k < i ==> #[trigger] scalars@[k] == Scalar::of_int(self.coeffs@[k]@ * c@),
            decreases self.coeffs@.len() - i,
        {
            scalars.push(self.coeffs[i].mul(c));
            i += 1;
        }
        proof {
            assert(scalars@ =~= Seq::new(
                self@.len(),
                |i: int| Scalar::of_int(self@[i]@ * c@),
            ));
        }
        Polynomial::from_coefficients_vec(scalars)
    }

    /// The sum of two polynomials.
    pub fn add(&self, other: &Polynomial) -> (r: Polynomial)
        ensures
            r@ == sum(self@, other@),
            r.wf(),
    {
        let len = if self.coeffs.len() >= other.coeffs.len() {
            self.coeffs.len()
        } else {
            other.coeffs.len()
        };
        let mut scalars: Vec<Scalar> = Vec::with_capacity(len);
        let mut i: usize = 0;
        while i < len
            invariant
                i <= len,
                len == if self@.len() >= other@.len() {
                    self@.len()
                } else {
                    other@.len()
                },
                scalars@.len() == i,
                forall|k: int|
                    0 <= k < i ==> #[trigger] scalars@[k] == Scalar::of_int(
                        coefficient(self@, k) + coefficient(other@, k),
                    ),
            decreases len - i,
        {
            if i < self.coeffs.len() && i < other.coeffs.len() {
                scalars.push(self.coeffs[i].add(&other.coeffs[i]));
            } else if i < self.coeffs.len() {
                let c = self.coeffs[i];
                proof {
                    use_type_invariant(&c);
                    lemma_fe_canonical(c@);
                    lemma_of_int_unique(c, c@);
                }
                scalars.push(c);
            } else {
                let c = other.coeffs[i];
                proof {
                    use_type_invariant(&c);
                    lemma_fe_canonical(c@);
                    lemma_of_int_unique(c, c@);
                }
                scalars.push(c);
            }
            i += 1;
        }
        proof {
            assert(scalars@ =~= Seq::new(
                len as nat,
                |i: int| Scalar::of_int(coefficient(self@, i) + coefficient(other@, i)),
            ));
        }
        Polynomial::from_coefficients_vec(scalars)
    }
}

/// A table of the values of a polynomial on the points of a domain.
#[derive(Debug, PartialEq, Eq)]
pub struct Evaluations {
    /// The values, in the order of the domain's points.
    pub evals: Vec<Scalar>,
}

impl Clone for Evaluations {
    fn clone(&self) -> (r: Evaluations)
        ensures
            r@ == self@,
    {
        let evals = self.evals.clone();
        assert(evals@ =~= self.evals@);
        Evaluations { evals }
    }
}

impl View for Evaluations {
    type V = Seq<Scalar>;

    open spec fn view(&self) -> Seq<Scalar> {
        self.evals@
    }
}

impl Evaluations {
    /// The table of the given values.
    pub fn from_vec(evals: Vec<Scalar>) -> (r: Evaluations)
        ensures
            r@ == evals@,
    {
        Evaluations { evals }
    }

    /// The number of values.
    pub fn len(&self) -> (r: usize)
        ensures
            r == self@.len(),
    {
        self.evals.len()
    }

    /// The value at the point with the given index.
    pub fn get(&self, index: usize) -> (r: Scalar)
        requires
            index < self@.len(),
        ensures
            r == self@[index as int],
    {
        self.evals[index]
    }
}

} // verus!
