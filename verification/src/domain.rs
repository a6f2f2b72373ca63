//! The part of an evaluation domain that the linearisation reads: its size
//! and the value of its first Lagrange polynomial at a point.

use crate::field::{
    fe, field_inverse, lemma_fe_canonical, lemma_view_injective, modulus, mul_as, sub_as, Scalar,
};
use vstd::arithmetic::div_mod::lemma_mod_add_multiples_vanish;
use vstd::arithmetic::power::{lemma1_pow, pow};
use vstd::prelude::*;

verus! {

/// The largest size of a domain: the field has roots of unity of order
/// `2^32` and no domain of that size is made.
pub const MAX_SIZE: u64 = 0x8000_0000;

/// `size`, doubled until it is at least `n`.
pub open spec fn doubled_until(size: nat, n: nat) -> nat
    decreases
        if size < n {
            n - size
        } else {
            0
        },
{
    if size >= n || size == 0 {
        size
    } else {
        doubled_until(2 * size, n)
    }
}

/// The size of the domain for polynomials of `n` coefficients: the least
/// power of two that is at least `n`.
pub open spec fn size_for(n: nat) -> nat {
    doubled_until(1, n)
}

/// `2^log`.
pub open spec fn two_to(log: nat) -> nat
    decreases log,
{
    if log == 0 {
        1
    } else {
        2 * two_to((log - 1) as nat)
    }
}

/// The value at `tau` of the first Lagrange polynomial of the domain of
/// the given size: `(tau^size - 1) / (size · (tau - 1))`, and at a point
/// of the domain one if the point is one, else zero.
pub open spec fn first_lagrange(size: nat, tau: int) -> int {
    if fe(pow(tau, size)) == 1 {
        if tau == 1 {
            1
        } else {
            0
        }
    } else {
        (pow(tau, size) - 1) * field_inverse(size as int) * field_inverse(tau - 1)
    }
}

/// Powers of two grow with the exponent.
proof fn lemma_two_to_monotone(a: nat, b: nat)
    requires
        a <= b,
    ensures
        two_to(a) <= two_to(b),
        two_to(a) >= 1,
    decreases b,
{
    if a < b {
        lemma_two_to_monotone(a, (b - 1) as nat);
    } else if a > 0 {
        lemma_two_to_monotone((a - 1) as nat, (a - 1) as nat);
    }
}

/// `2^31` is the largest size.
proof fn lemma_two_to_31()
    ensures
        two_to(31) == MAX_SIZE,
{
    reveal_with_fuel(two_to, 32);
}

/// An evaluation domain: the multiplicative subgroup of the field whose
/// order is a given power of two.
#[derive(Clone, Copy, Debug)]
pub struct EvaluationDomain {
    size: u64,
    log_size_of_group: u32,
    size_as_field_element: Scalar,
    size_inv: Scalar,
}

impl EvaluationDomain {
    /// The number of points.
    pub closed spec fn spec_size(&self) -> nat {
        self.size as nat
    }

    /// The size is the power of two that the logarithm names, and the
    /// field elements are the size and its inverse.
    #[verifier::type_invariant]
    closed spec fn wf(&self) -> bool {
        &&& self.size == two_to(self.log_size_of_group as nat)
        &&& self.log_size_of_group < 32
        &&& self.size_as_field_element@ == self.size
        &&& self.size_inv@ == field_inverse(self.size as int)
        &&& fe(self.size * self.size_inv@) == 1
    }

    /// The domain for polynomials of `num_coeffs` coefficients, where one
    /// exists: its size is the least power of two that is at least
    /// `num_coeffs`, and no more than `2^31`.
    pub fn new(num_coeffs: usize) -> (r: Option<EvaluationDomain>)
        ensures
            num_coeffs <= MAX_SIZE <==> r is Some,
            r is Some ==> r->0.spec_size() == size_for(num_coeffs as nat),
    {
        let mut size: u64 = 1;
        let mut log_size_of_group: u32 = 0;
        while size < num_coeffs as u64
            invariant
                size == two_to(log_size_of_group as nat),
                log_size_of_group <= 31,
                doubled_until(size as nat, num_coeffs as nat) == size_for(num_coeffs as nat),
            decreases 31 - log_size_of_group,
        {
            proof {
                lemma_two_to_31();
            }
            if log_size_of_group == 31 {
                return None;
            }
            proof {
                lemma_two_to_monotone(log_size_of_group as nat, 30);
                lemma_two_to_monotone(30, 31);
            }
            size = size * 2;
            log_size_of_group = log_size_of_group + 1;
        }
        proof {
            lemma_two_to_31();
            lemma_two_to_monotone(log_size_of_group as nat, 31);
            lemma_fe_canonical(size as int);
        }
        let size_as_field_element = Scalar::from_u64(size);
        match size_as_field_element.invert() {
            Some(size_inv) => Some(
                EvaluationDomain { size, log_size_of_group, size_as_field_element, size_inv },
            ),
            // the size is not zero, so that it has an inverse
            None => None,
        }
    }

    /// The number of points.
    pub fn size(&self) -> (r: u64)
        ensures
            r == self.spec_size(),
    {
        self.size
    }

    /// The value of the first Lagrange polynomial of the domain at `tau`.
    pub fn evaluate_first_lagrange_coefficient(&self, tau: &Scalar) -> (r: Scalar)
        ensures
            r@ == fe(first_lagrange(self.spec_size(), tau@)),
            fe(r@) == fe(first_lagrange(self.spec_size(), tau@)),
    {
        let t_size = tau.pow(self.size);
        let one = Scalar::one();
        proof {
            use_type_invariant(self);
            use_type_invariant(tau);
            lemma_fe_canonical(0);
            lemma_fe_canonical(1);
            lemma_fe_canonical(tau@ - 1);
            lemma_fe_canonical(first_lagrange(self.spec_size(), tau@));
            lemma_fe_canonical(pow(tau@, self.size as nat));
            lemma_fe_canonical(modulus() - 1);
            lemma_mod_add_multiples_vanish(-1, modulus());
            if tau@ == 1 {
                lemma1_pow(self.size as nat);
            }
            if t_size@ == 1 {
                lemma_view_injective(t_size, one);
            }
        }
        if t_size == one {
            if *tau == one {
                one
            } else {
                proof {
                    if tau@ == 1 {
                        lemma_view_injective(*tau, one);
                    }
                }
                Scalar::zero()
            }
        } else {
            let numerator = sub_as(&t_size, &one, Ghost(pow(tau@, self.size as nat)), Ghost(1));
            let l = mul_as(
                &numerator,
                &self.size_inv,
                Ghost(pow(tau@, self.size as nat) - 1),
                Ghost(field_inverse(self.size as int)),
            );
            let u = tau.sub(&one);
            match u.invert() {
                Some(inverse) => {
                    proof {
                        // the inverse of the representative is that of the integer
                        assert(inverse@ == field_inverse(u@));
                        lemma_inverse_congruent(u@, tau@ - 1);
                    }
                    mul_as(
                        &l,
                        &inverse,
                        Ghost(
                            (pow(tau@, self.size as nat) - 1) * field_inverse(self.size as int),
                        ),
                        Ghost(field_inverse(tau@ - 1)),
                    )
                },
                // tau is not one here, so that tau - 1 has an inverse
                None => Scalar::zero(),
            }
        }
    }
}

/// Congruent integers have the same inverse.
pub proof fn lemma_inverse_congruent(a: int, b: int)
    requires
        fe(a) == fe(b),
    ensures
        field_inverse(a) == field_inverse(b),
{
}

} // verus!
