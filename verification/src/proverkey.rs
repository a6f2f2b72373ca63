//! The prover key of the permutation and lookup arguments: the committed
//! polynomials with their evaluations, and the contributions that they
//! make to the quotient polynomial and to the linearisation polynomial.
//!
//! Every contribution is stated as the canonical representative of an
//! integer expression in the values of its inputs.

use crate::field::{
    add_as, fe, invertible, lemma_congruent_add, lemma_congruent_mul, lemma_fe_canonical,
    lemma_invertible_mul, lemma_invertible_nonzero, lemma_of_int, mul_as,
    neg_as, sub_as, lemma_of_int_unique, Scalar,
};
use crate::constants::{K1, K2, K3};
use crate::domain::{first_lagrange, size_for, EvaluationDomain, MAX_SIZE};
use crate::polynomial::{
    coefficient, lemma_scaled_coefficient, lemma_sum_coefficient, scaled, sum, Evaluations,
    Polynomial,
};
use vstd::prelude::*;

verus! {

/// `(w_l + βx + γ)(w_r + βK1x + γ)(w_o + βK2x + γ)(w_4 + βK3x + γ)·z·α`:
/// the forward factor of the grand product of the permutation argument.
pub open spec fn identity_term(
    w_l: int,
    w_r: int,
    w_o: int,
    w_4: int,
    x: int,
    z: int,
    alpha: int,
    beta: int,
    gamma: int,
) -> int {
    (w_l + beta * x + gamma) * (w_r + beta * (K1 as int) * x + gamma) * (w_o + beta * (K2 as int)
        * x + gamma) * (w_4 + beta * (K3 as int) * x + gamma) * z * alpha
}

/// `-(w_l + βσ1 + γ)(w_r + βσ2 + γ)(w_o + βσ3 + γ)(w_4 + βσ4 + γ)·z(ωx)·α`:
/// the backward factor of the grand product of the permutation argument.
pub open spec fn copy_term(
    w_l: int,
    w_r: int,
    w_o: int,
    w_4: int,
    sigma_1: int,
    sigma_2: int,
    sigma_3: int,
    sigma_4: int,
    z_next: int,
    alpha: int,
    beta: int,
    gamma: int,
) -> int {
    -((w_l + beta * sigma_1 + gamma) * (w_r + beta * sigma_2 + gamma) * (w_o + beta * sigma_3
        + gamma) * (w_4 + beta * sigma_4 + gamma) * z_next * alpha)
}

/// `(x - ω^(n-1))·p·(1 + δ)·(ε + f)·(ε(1 + δ) + t + δ·t(ωx))·α^5`: the
/// forward factor of the grand product of the lookup argument. `omega` is
/// the last root of unity, which takes the last row out of the identity.
pub open spec fn lookup_identity_term(
    x: int,
    f: int,
    t: int,
    t_next: int,
    p: int,
    alpha: int,
    delta: int,
    epsilon: int,
    omega: int,
) -> int {
    (x - omega) * p * (1 + delta) * (epsilon + f) * (epsilon * (1 + delta) + t + delta * t_next)
        * (alpha * alpha * alpha * alpha * alpha)
}

/// `-p(ωx)·(x - ω^(n-1))·(ε(1 + δ) + h_1 + δ·h_1(ωx))·(ε(1 + δ) + h_2 +
/// δ·h_2(ωx))·α^5`: the backward factor of the grand product of the lookup
/// argument.
pub open spec fn lookup_copy_term(
    x: int,
    h_1: int,
    h_2: int,
    h_1_next: int,
    h_2_next: int,
    p_next: int,
    alpha: int,
    delta: int,
    epsilon: int,
    omega: int,
) -> int {
    -(p_next * (x - omega) * (epsilon * (1 + delta) + h_1 + delta * h_1_next) * (epsilon * (1
        + delta) + h_2 + delta * h_2_next) * (alpha * alpha * alpha * alpha * alpha))
}

/// `(z - 1)·L_1·α^2 + (p - 1)·L_1·α^4`: both grand products start at one.
/// The two products of the first Lagrange polynomial with a power of `α`
/// are given.
pub open spec fn first_lagrange_term(z: int, p: int, l1_alpha_sq: int, l1_alpha_4: int) -> int {
    (z - 1) * l1_alpha_sq + (p - 1) * l1_alpha_4
}

/// `(p - 1)·L_n·α^7`: the grand product of the lookup argument ends at one.
pub open spec fn last_lagrange_term(p: int, ln_alpha_7: int) -> int {
    (p - 1) * ln_alpha_7
}

/// `(h_1 - h_2(ωx))·L_n·α^6`: the first half of the sorted column ends
/// where the second begins.
pub open spec fn overlap_term(h_1: int, h_2_next: int, ln_alpha_6: int) -> int {
    (h_1 - h_2_next) * ln_alpha_6
}

/// `(a + βz + γ)(b + βK1z + γ)(c + βK2z + γ)(d + βK3z + γ)·α`: what the
/// grand product polynomial of the permutation argument is multiplied by
/// in the linearisation.
pub open spec fn lineariser_identity_coefficient(
    a: int,
    b: int,
    c: int,
    d: int,
    z: int,
    alpha: int,
    beta: int,
    gamma: int,
) -> int {
    (a + beta * z + gamma) * (b + beta * (K1 as int) * z + gamma) * (c + beta * (K2 as int) * z
        + gamma) * (d + beta * (K3 as int) * z + gamma) * alpha
}

/// `-(a + βσ1 + γ)(b + βσ2 + γ)(c + βσ3 + γ)·β·z(ωz)·α`: what the
/// polynomial of the fourth wire's permutation is multiplied by in the
/// linearisation.
pub open spec fn lineariser_copy_coefficient(
    a: int,
    b: int,
    c: int,
    z_eval: int,
    sigma_1: int,
    sigma_2: int,
    sigma_3: int,
    alpha: int,
    beta: int,
    gamma: int,
) -> int {
    -((a + beta * sigma_1 + gamma) * (b + beta * sigma_2 + gamma) * (c + beta * sigma_3 + gamma)
        * (beta * z_eval) * alpha)
}

/// The degree of the polynomial with the given coefficients; that of the
/// zero polynomial is 0.
pub open spec fn degree_of(s: Seq<Scalar>) -> nat {
    if s.len() == 0 {
        0
    } else {
        (s.len() - 1) as nat
    }
}

/// The coefficients of the linearisation polynomial: the grand product
/// polynomial times `a`, plus the polynomial of the fourth wire's
/// permutation times `b`, plus the grand product polynomial times `c`.
pub open spec fn linearisation(
    z_poly: Seq<Scalar>,
    fourth_sigma: Seq<Scalar>,
    a: int,
    b: int,
    c: int,
) -> Seq<Scalar> {
    sum(
        sum(scaled(z_poly, Scalar::of_int(a)), scaled(fourth_sigma, Scalar::of_int(b))),
        scaled(z_poly, Scalar::of_int(c)),
    )
}

/// Each coefficient of the linearisation polynomial is the combination of
/// the coefficients of the two polynomials that it is made of.
pub proof fn lemma_linearisation_coefficient(
    z_poly: Seq<Scalar>,
    fourth_sigma: Seq<Scalar>,
    a: int,
    b: int,
    c: int,
    i: int,
)
    ensures
        coefficient(linearisation(z_poly, fourth_sigma, a, b, c), i) == fe(
            coefficient(z_poly, i) * a + coefficient(fourth_sigma, i) * b + coefficient(z_poly, i)
                * c,
        ),
{
    let sa = Scalar::of_int(a);
    let sb = Scalar::of_int(b);
    let sc = Scalar::of_int(c);
    let pa = scaled(z_poly, sa);
    let pb = scaled(fourth_sigma, sb);
    let pc = scaled(z_poly, sc);
    lemma_of_int(a);
    lemma_of_int(b);
    lemma_of_int(c);
    lemma_scaled_coefficient(z_poly, sa, i);
    lemma_scaled_coefficient(fourth_sigma, sb, i);
    lemma_scaled_coefficient(z_poly, sc, i);
    lemma_sum_coefficient(pa, pb, i);
    lemma_sum_coefficient(sum(pa, pb), pc, i);
    let z = coefficient(z_poly, i);
    let s = coefficient(fourth_sigma, i);
    lemma_fe_canonical(a);
    lemma_fe_canonical(b);
    lemma_fe_canonical(c);
    lemma_fe_canonical(z);
    lemma_fe_canonical(s);
    lemma_congruent_mul(z, fe(a), z, a);
    lemma_congruent_mul(s, fe(b), s, b);
    lemma_congruent_mul(z, fe(c), z, c);
    lemma_fe_canonical(z * a);
    lemma_fe_canonical(s * b);
    lemma_fe_canonical(z * c);
    lemma_congruent_add(fe(z * a), fe(s * b), z * a, s * b);
    lemma_fe_canonical(z * a + s * b);
    lemma_congruent_add(fe(z * a + s * b), fe(z * c), z * a + s * b, z * c);
}

/// The third term of the quotient is not zero where none of its factors
/// is: where the point is not the last of the domain, and the grand
/// product, `1 + δ`, `ε + f`, the compressed pair of table entries and `α`
/// each have an inverse, as every element of the field but zero has. No
/// other factor can cancel a query at that point.
pub proof fn lemma_lookup_identity_term_nonzero(
    x: int,
    f: int,
    t: int,
    t_next: int,
    p: int,
    alpha: int,
    delta: int,
    epsilon: int,
    omega: int,
)
    requires
        invertible(x - omega),
        invertible(p),
        invertible(1 + delta),
        invertible(epsilon + f),
        invertible(epsilon * (1 + delta) + t + delta * t_next),
        invertible(alpha),
    ensures
        fe(lookup_identity_term(x, f, t, t_next, p, alpha, delta, epsilon, omega)) != 0,
{
    let a_1 = x - omega;
    let d = 1 + delta;
    let a_2 = epsilon + f;
    let a_3 = epsilon * (1 + delta) + t + delta * t_next;
    lemma_invertible_mul(alpha, alpha);
    lemma_invertible_mul(alpha * alpha, alpha);
    lemma_invertible_mul(alpha * alpha * alpha, alpha);
    lemma_invertible_mul(alpha * alpha * alpha * alpha, alpha);
    lemma_invertible_mul(a_1, p);
    lemma_invertible_mul(a_1 * p, d);
    lemma_invertible_mul(a_1 * p * d, a_2);
    lemma_invertible_mul(a_1 * p * d * a_2, a_3);
    lemma_invertible_mul(a_1 * p * d * a_2 * a_3, alpha * alpha * alpha * alpha * alpha);
    lemma_invertible_nonzero(a_1 * p * d * a_2 * a_3 * (alpha * alpha * alpha * alpha * alpha));
}

/// `w + β·s + γ`.
fn blinded(w: &Scalar, beta: &Scalar, s: &Scalar, gamma: &Scalar) -> (r: Scalar)
    ensures
        r@ == fe(w@ + beta@ * s@ + gamma@),
        fe(r@) == fe(w@ + beta@ * s@ + gamma@),
{
    let bs = mul_as(beta, s, Ghost(beta@), Ghost(s@));
    let t = add_as(w, &bs, Ghost(w@), Ghost(beta@ * s@));
    add_as(&t, gamma, Ghost(w@ + beta@ * s@), Ghost(gamma@))
}

/// `w + β·k·x + γ`.
fn blinded_on_coset(w: &Scalar, beta: &Scalar, k: u64, x: &Scalar, gamma: &Scalar) -> (r: Scalar)
    ensures
        r@ == fe(w@ + beta@ * (k as int) * x@ + gamma@),
        fe(r@) == fe(w@ + beta@ * (k as int) * x@ + gamma@),
{
    let shift = Scalar::from_u64(k);
    let bk = mul_as(beta, &shift, Ghost(beta@), Ghost(k as int));
    let bkx = mul_as(&bk, x, Ghost(beta@ * (k as int)), Ghost(x@));
    let t = add_as(w, &bkx, Ghost(w@), Ghost(beta@ * (k as int) * x@));
    add_as(&t, gamma, Ghost(w@ + beta@ * (k as int) * x@), Ghost(gamma@))
}

/// `α^5`, by four multiplications.
fn fifth_power(alpha: &Scalar) -> (r: Scalar)
    ensures
        r@ == fe(alpha@ * alpha@ * alpha@ * alpha@ * alpha@),
        fe(r@) == fe(alpha@ * alpha@ * alpha@ * alpha@ * alpha@),
{
    let a2 = mul_as(alpha, alpha, Ghost(alpha@), Ghost(alpha@));
    let a3 = mul_as(&a2, alpha, Ghost(alpha@ * alpha@), Ghost(alpha@));
    let a4 = mul_as(&a3, alpha, Ghost(alpha@ * alpha@ * alpha@), Ghost(alpha@));
    mul_as(&a4, alpha, Ghost(alpha@ * alpha@ * alpha@ * alpha@), Ghost(alpha@))
}

/// `ε(1 + δ) + h + δ·h(ωx)`.
fn compressed(epsilon: &Scalar, delta: &Scalar, h: &Scalar, h_next: &Scalar) -> (r: Scalar)
    ensures
        r@ == fe(epsilon@ * (1 + delta@) + h@ + delta@ * h_next@),
        fe(r@) == fe(epsilon@ * (1 + delta@) + h@ + delta@ * h_next@),
{
    let one = Scalar::one();
    let one_plus_delta = add_as(&one, delta, Ghost(1), Ghost(delta@));
    let e = mul_as(epsilon, &one_plus_delta, Ghost(epsilon@), Ghost(1 + delta@));
    let dh = mul_as(delta, h_next, Ghost(delta@), Ghost(h_next@));
    let t = add_as(&e, h, Ghost(epsilon@ * (1 + delta@)), Ghost(h@));
    add_as(&t, &dh, Ghost(epsilon@ * (1 + delta@) + h@), Ghost(delta@ * h_next@))
}

/// The part of a prover key that belongs to the permutation and lookup
/// arguments.
#[derive(Debug, Eq, PartialEq)]
pub struct ProverKey {
    /// The permutation of the left wires: polynomial and evaluations.
    pub left_sigma: (Polynomial, Evaluations),
    /// The permutation of the right wires.
    pub right_sigma: (Polynomial, Evaluations),
    /// The permutation of the output wires.
    pub out_sigma: (Polynomial, Evaluations),
    /// The permutation of the fourth wires.
    pub fourth_sigma: (Polynomial, Evaluations),
    /// The evaluations of `f(X) = X`: the points of the domain.
    pub linear_evaluations: Evaluations,
    /// The first half of the sorted column of queries and table.
    pub h_1: (Polynomial, Evaluations),
    /// The second half of the sorted column of queries and table.
    pub h_2: (Polynomial, Evaluations),
    /// The compressed table.
    pub t: (Polynomial, Evaluations),
}

impl Clone for ProverKey {
    fn clone(&self) -> (r: ProverKey)
        ensures
            r.left_sigma.0@ == self.left_sigma.0@,
            r.left_sigma.1@ == self.left_sigma.1@,
            r.right_sigma.0@ == self.right_sigma.0@,
            r.right_sigma.1@ == self.right_sigma.1@,
            r.out_sigma.0@ == self.out_sigma.0@,
            r.out_sigma.1@ == self.out_sigma.1@,
            r.fourth_sigma.0@ == self.fourth_sigma.0@,
            r.fourth_sigma.1@ == self.fourth_sigma.1@,
            r.linear_evaluations@ == self.linear_evaluations@,
            r.h_1.0@ == self.h_1.0@,
            r.h_1.1@ == self.h_1.1@,
            r.h_2.0@ == self.h_2.0@,
            r.h_2.1@ == self.h_2.1@,
            r.t.0@ == self.t.0@,
            r.t.1@ == self.t.1@,
    {
        ProverKey {
            left_sigma: (self.left_sigma.0.clone(), self.left_sigma.1.clone()),
            right_sigma: (self.right_sigma.0.clone(), self.right_sigma.1.clone()),
            out_sigma: (self.out_sigma.0.clone(), self.out_sigma.1.clone()),
            fourth_sigma: (self.fourth_sigma.0.clone(), self.fourth_sigma.1.clone()),
            linear_evaluations: self.linear_evaluations.clone(),
            h_1: (self.h_1.0.clone(), self.h_1.1.clone()),
            h_2: (self.h_2.0.clone(), self.h_2.1.clone()),
            t: (self.t.0.clone(), self.t.1.clone()),
        }
    }
}

impl ProverKey {
    /// Whether `index` is a point of every evaluation table that the
    /// quotient reads.
    pub open spec fn covers(&self, index: usize) -> bool {
        &&& index < self.linear_evaluations@.len()
        &&& index < self.left_sigma.1@.len()
        &&& index < self.right_sigma.1@.len()
        &&& index < self.out_sigma.1@.len()
        &&& index < self.fourth_sigma.1@.len()
    }

    /// The point of the domain with the given index.
    pub open spec fn point(&self, index: usize) -> int {
        self.linear_evaluations@[index as int]@
    }

    /// Whether `index` is a point of every evaluation table that the
    /// quotient reads.
    pub fn has_point(&self, index: usize) -> (r: bool)
        ensures
            r == self.covers(index),
    {
        index < self.linear_evaluations.len() && index < self.left_sigma.1.len() && index
            < self.right_sigma.1.len() && index < self.out_sigma.1.len() && index
            < self.fourth_sigma.1.len()
    }

    /// The contribution of the permutation and lookup arguments to the
    /// quotient polynomial at the point with the given index: the sum of
    /// the seven terms.
    pub fn compute_quotient_i(
        &self,
        index: usize,
        w_l_i: &Scalar,
        w_r_i: &Scalar,
        w_o_i: &Scalar,
        w_4_i: &Scalar,
        f_i: &Scalar,
        t_i: &Scalar,
        t_i_next: &Scalar,
        h_1_i: &Scalar,
        h_2_i: &Scalar,
        h_1_i_next: &Scalar,
        h_2_i_next: &Scalar,
        z_i: &Scalar,
        z_i_next: &Scalar,
        p_i: &Scalar,
        p_i_next: &Scalar,
        alpha: &Scalar,
        l1_alpha_sq: &Scalar,
        l1_alpha_4: &Scalar,
        ln_alpha_6: &Scalar,
        ln_alpha_7: &Scalar,
        beta: &Scalar,
        gamma: &Scalar,
        delta: &Scalar,
        epsilon: &Scalar,
        omega_roots: &Scalar,
    ) -> (r: Scalar)
        requires
            self.covers(index),
        ensures
            r@ == fe(
                identity_term(
                    w_l_i@,
                    w_r_i@,
                    w_o_i@,
                    w_4_i@,
                    self.point(index),
                    z_i@,
                    alpha@,
                    beta@,
                    gamma@,
                ) + copy_term(
                    w_l_i@,
                    w_r_i@,
                    w_o_i@,
                    w_4_i@,
                    self.left_sigma.1@[index as int]@,
                    self.right_sigma.1@[index as int]@,
                    self.out_sigma.1@[index as int]@,
                    self.fourth_sigma.1@[index as int]@,
                    z_i_next@,
                    alpha@,
                    beta@,
                    gamma@,
                ) + lookup_identity_term(
                    self.point(index),
                    f_i@,
                    t_i@,
                    t_i_next@,
                    p_i@,
                    alpha@,
                    delta@,
                    epsilon@,
                    omega_roots@,
                ) + lookup_copy_term(
                    self.point(index),
                    h_1_i@,
                    h_2_i@,
                    h_1_i_next@,
                    h_2_i_next@,
                    p_i_next@,
                    alpha@,
                    delta@,
                    epsilon@,
                    omega_roots@,
                ) + first_lagrange_term(z_i@, p_i@, l1_alpha_sq@, l1_alpha_4@) + last_lagrange_term(
                    p_i@,
                    ln_alpha_7@,
                ) + overlap_term(h_1_i@, h_2_i_next@, ln_alpha_6@),
            ),
    {
        let a = self.compute_quotient_identity_range_check_i(
            index,
            w_l_i,
            w_r_i,
            w_o_i,
            w_4_i,
            z_i,
            alpha,
            beta,
            gamma,
        );
        let b = self.compute_quotient_copy_range_check_i(
            index,
            w_l_i,
            w_r_i,
            w_o_i,
            w_4_i,
            z_i_next,
            alpha,
            beta,
            gamma,
        );
        let c = self.compute_lookup_quotient_identity_range_check_i(
            index,
            f_i,
            t_i,
            t_i_next,
            p_i,
            alpha,
            delta,
            epsilon,
            omega_roots,
        );
        let d = self.compute_lookup_quotient_copy_range_check_i(
            index,
            h_1_i,
            h_2_i,
            h_1_i_next,
            h_2_i_next,
            p_i_next,
            alpha,
            delta,
            epsilon,
            omega_roots,
        );
        let e = self.compute_quotient_term_check_first_la_grange_polys(
            z_i,
            p_i,
            l1_alpha_sq,
            l1_alpha_4,
        );
        let f = self.compute_quotient_last_la_grange_polys(p_i, ln_alpha_7);
        let g = self.compute_overlap_check(h_1_i, h_2_i_next, ln_alpha_6);

        let ghost ta = identity_term(
            w_l_i@,
            w_r_i@,
            w_o_i@,
            w_4_i@,
            self.point(index),
            z_i@,
            alpha@,
            beta@,
            gamma@,
        );
        let ghost tb = copy_term(
            w_l_i@,
            w_r_i@,
            w_o_i@,
            w_4_i@,
            self.left_sigma.1@[index as int]@,
            self.right_sigma.1@[index as int]@,
            self.out_sigma.1@[index as int]@,
            self.fourth_sigma.1@[index as int]@,
            z_i_next@,
            alpha@,
            beta@,
            gamma@,
        );
        let ghost tc = lookup_identity_term(
            self.point(index),
            f_i@,
            t_i@,
            t_i_next@,
            p_i@,
            alpha@,
            delta@,
            epsilon@,
            omega_roots@,
        );
        let ghost td = lookup_copy_term(
            self.point(index),
            h_1_i@,
            h_2_i@,
            h_1_i_next@,
            h_2_i_next@,
            p_i_next@,
            alpha@,
            delta@,
            epsilon@,
            omega_roots@,
        );
        let ghost te = first_lagrange_term(z_i@, p_i@, l1_alpha_sq@, l1_alpha_4@);
        let ghost tf = last_lagrange_term(p_i@, ln_alpha_7@);
        let ghost tg = overlap_term(h_1_i@, h_2_i_next@, ln_alpha_6@);

        proof {
            lemma_fe_canonical(ta);
            lemma_fe_canonical(tb);
            lemma_fe_canonical(tc);
            lemma_fe_canonical(td);
            lemma_fe_canonical(te);
            lemma_fe_canonical(tf);
            lemma_fe_canonical(tg);
        }
        let s = add_as(&a, &b, Ghost(ta), Ghost(tb));
        let s = add_as(&s, &c, Ghost(ta + tb), Ghost(tc));
        let s = add_as(&s, &d, Ghost(ta + tb + tc), Ghost(td));
        let s = add_as(&s, &e, Ghost(ta + tb + tc + td), Ghost(te));
        let s = add_as(&s, &f, Ghost(ta + tb + tc + td + te), Ghost(tf));
        add_as(&s, &g, Ghost(ta + tb + tc + td + te + tf), Ghost(tg))
    }

    /// The first term of the quotient:
    /// `(a(x) + beta * X + gamma) (b(X) + beta * k1 * X + gamma) (c(X) + beta *
    /// k2 * X + gamma)(d(X) + beta * k3 * X + gamma)z(X) * alpha`.
    pub fn compute_quotient_identity_range_check_i(
        &self,
        index: usize,
        w_l_i: &Scalar,
        w_r_i: &Scalar,
        w_o_i: &Scalar,
        w_4_i: &Scalar,
        z_i: &Scalar,
        alpha: &Scalar,
        beta: &Scalar,
        gamma: &Scalar,
    ) -> (r: Scalar)
        requires
            index < self.linear_evaluations@.len(),
        ensures
            r@ == fe(
                identity_term(
                    w_l_i@,
                    w_r_i@,
                    w_o_i@,
                    w_4_i@,
                    self.point(index),
                    z_i@,
                    alpha@,
                    beta@,
                    gamma@,
                ),
            ),
    {
        let x = self.linear_evaluations.get(index);

        let f_0 = blinded(w_l_i, beta, &x, gamma);
        let f_1 = blinded_on_coset(w_r_i, beta, K1, &x, gamma);
        let f_2 = blinded_on_coset(w_o_i, beta, K2, &x, gamma);
        let f_3 = blinded_on_coset(w_4_i, beta, K3, &x, gamma);

        let ghost e_0 = w_l_i@ + beta@ * x@ + gamma@;
        let ghost e_1 = w_r_i@ + beta@ * (K1 as int) * x@ + gamma@;
        let ghost e_2 = w_o_i@ + beta@ * (K2 as int) * x@ + gamma@;
        let ghost e_3 = w_4_i@ + beta@ * (K3 as int) * x@ + gamma@;

        let p = mul_as(&f_0, &f_1, Ghost(e_0), Ghost(e_1));
        let p = mul_as(&p, &f_2, Ghost(e_0 * e_1), Ghost(e_2));
        let p = mul_as(&p, &f_3, Ghost(e_0 * e_1 * e_2), Ghost(e_3));
        let p = mul_as(&p, z_i, Ghost(e_0 * e_1 * e_2 * e_3), Ghost(z_i@));
        mul_as(&p, alpha, Ghost(e_0 * e_1 * e_2 * e_3 * z_i@), Ghost(alpha@))
    }

    /// The third term of the quotient:
    /// `(x - omega^n) * p(x) * (1 + delta) * (epsilon + f(x))(epsilon(1 +
    /// delta) + t(x) + delta * t(x_omega)) * alpha^5`.
    pub fn compute_lookup_quotient_identity_range_check_i(
        &self,
        index: usize,
        f_i: &Scalar,
        t_i: &Scalar,
        t_i_next: &Scalar,
        p_i: &Scalar,
        alpha: &Scalar,
        delta: &Scalar,
        epsilon: &Scalar,
        omega_roots: &Scalar,
    ) -> (r: Scalar)
        requires
            index < self.linear_evaluations@.len(),
        ensures
            r@ == fe(
                lookup_identity_term(
                    self.point(index),
                    f_i@,
                    t_i@,
                    t_i_next@,
                    p_i@,
                    alpha@,
                    delta@,
                    epsilon@,
                    omega_roots@,
                ),
            ),
    {
        let x = self.linear_evaluations.get(index);
        let alpha_5 = fifth_power(alpha);

        // Compute multi use fn, 1 + delta
        let one = Scalar::one();
        let one_plus_delta = add_as(&one, delta, Ghost(1), Ghost(delta@));

        let a_1 = sub_as(&x, omega_roots, Ghost(x@), Ghost(omega_roots@));
        let a_2 = add_as(epsilon, f_i, Ghost(epsilon@), Ghost(f_i@));
        let a_3 = compressed(epsilon, delta, t_i, t_i_next);

        let ghost e_1 = x@ - omega_roots@;
        let ghost e_d = 1 + delta@;
        let ghost e_2 = epsilon@ + f_i@;
        let ghost e_3 = epsilon@ * (1 + delta@) + t_i@ + delta@ * t_i_next@;
        let ghost e_5 = alpha@ * alpha@ * alpha@ * alpha@ * alpha@;

        let p = mul_as(&a_1, p_i, Ghost(e_1), Ghost(p_i@));
        let p = mul_as(&p, &one_plus_delta, Ghost(e_1 * p_i@), Ghost(e_d));
        let p = mul_as(&p, &a_2, Ghost(e_1 * p_i@ * e_d), Ghost(e_2));
        let p = mul_as(&p, &a_3, Ghost(e_1 * p_i@ * e_d * e_2), Ghost(e_3));
        mul_as(&p, &alpha_5, Ghost(e_1 * p_i@ * e_d * e_2 * e_3), Ghost(e_5))
    }

    /// The second term of the quotient:
    /// `-(a(x) + beta * Sigma1(X) + gamma) (b(X) + beta * Sigma2(X) + gamma)
    /// (c(X) + beta * Sigma3(X) + gamma)(d(X) + beta * Sigma4(X) + gamma)
    /// Z(X.omega) * alpha`.
    pub fn compute_quotient_copy_range_check_i(
        &self,
        index: usize,
        w_l_i: &Scalar,
        w_r_i: &Scalar,
        w_o_i: &Scalar,
        w_4_i: &Scalar,
        z_i_next: &Scalar,
        alpha: &Scalar,
        beta: &Scalar,
        gamma: &Scalar,
    ) -> (r: Scalar)
        requires
            index < self.left_sigma.1@.len(),
            index < self.right_sigma.1@.len(),
            index < self.out_sigma.1@.len(),
            index < self.fourth_sigma.1@.len(),
        ensures
            r@ == fe(
                copy_term(
                    w_l_i@,
                    w_r_i@,
                    w_o_i@,
                    w_4_i@,
                    self.left_sigma.1@[index as int]@,
                    self.right_sigma.1@[index as int]@,
                    self.out_sigma.1@[index as int]@,
                    self.fourth_sigma.1@[index as int]@,
                    z_i_next@,
                    alpha@,
                    beta@,
                    gamma@,
                ),
            ),
    {
        let left_sigma_eval = self.left_sigma.1.get(index);
        let right_sigma_eval = self.right_sigma.1.get(index);
        let out_sigma_eval = self.out_sigma.1.get(index);
        let fourth_sigma_eval = self.fourth_sigma.1.get(index);

        let f_0 = blinded(w_l_i, beta, &left_sigma_eval, gamma);
        let f_1 = blinded(w_r_i, beta, &right_sigma_eval, gamma);
        let f_2 = blinded(w_o_i, beta, &out_sigma_eval, gamma);
        let f_3 = blinded(w_4_i, beta, &fourth_sigma_eval, gamma);

        let ghost e_0 = w_l_i@ + beta@ * left_sigma_eval@ + gamma@;
        let ghost e_1 = w_r_i@ + beta@ * right_sigma_eval@ + gamma@;
        let ghost e_2 = w_o_i@ + beta@ * out_sigma_eval@ + gamma@;
        let ghost e_3 = w_4_i@ + beta@ * fourth_sigma_eval@ + gamma@;

        let p = mul_as(&f_0, &f_1, Ghost(e_0), Ghost(e_1));
        let p = mul_as(&p, &f_2, Ghost(e_0 * e_1), Ghost(e_2));
        let p = mul_as(&p, &f_3, Ghost(e_0 * e_1 * e_2), Ghost(e_3));
        let p = mul_as(&p, z_i_next, Ghost(e_0 * e_1 * e_2 * e_3), Ghost(z_i_next@));
        let product = mul_as(&p, alpha, Ghost(e_0 * e_1 * e_2 * e_3 * z_i_next@), Ghost(alpha@));

        neg_as(&product, Ghost(e_0 * e_1 * e_2 * e_3 * z_i_next@ * alpha@))
    }

    /// The fourth term of the quotient:
    /// `-(x - omega^n) * p(x_omega) * (epsilon(1 + delta) + h_1(x) + delta *
    /// h_1(x_omega)) * (epsilon(1 + delta) + h_2(x) + delta * h_2(x_omega)) *
    /// alpha^5`.
    pub fn compute_lookup_quotient_copy_range_check_i(
        &self,
        index: usize,
        h_1_i: &Scalar,
        h_2_i: &Scalar,
        h_1_i_next: &Scalar,
        h_2_i_next: &Scalar,
        p_i_next: &Scalar,
        alpha: &Scalar,
        delta: &Scalar,
        epsilon: &Scalar,
        omega_roots: &Scalar,
    ) -> (r: Scalar)
        requires
            index < self.linear_evaluations@.len(),
        ensures
            r@ == fe(
                lookup_copy_term(
                    self.point(index),
                    h_1_i@,
                    h_2_i@,
                    h_1_i_next@,
                    h_2_i_next@,
                    p_i_next@,
                    alpha@,
                    delta@,
                    epsilon@,
                    omega_roots@,
                ),
            ),
    {
        let alpha_5 = fifth_power(alpha);

        let x = self.linear_evaluations.get(index);
        let a_1 = sub_as(&x, omega_roots, Ghost(x@), Ghost(omega_roots@));
        let a_2 = compressed(epsilon, delta, h_1_i, h_1_i_next);
        let a_3 = compressed(epsilon, delta, h_2_i, h_2_i_next);

        let ghost e_1 = x@ - omega_roots@;
        let ghost e_2 = epsilon@ * (1 + delta@) + h_1_i@ + delta@ * h_1_i_next@;
        let ghost e_3 = epsilon@ * (1 + delta@) + h_2_i@ + delta@ * h_2_i_next@;
        let ghost e_5 = alpha@ * alpha@ * alpha@ * alpha@ * alpha@;

        let p = mul_as(p_i_next, &a_1, Ghost(p_i_next@), Ghost(e_1));
        let p = mul_as(&p, &a_2, Ghost(p_i_next@ * e_1), Ghost(e_2));
        let p = mul_as(&p, &a_3, Ghost(p_i_next@ * e_1 * e_2), Ghost(e_3));
        let product = mul_as(&p, &alpha_5, Ghost(p_i_next@ * e_1 * e_2 * e_3), Ghost(e_5));

        neg_as(&product, Ghost(p_i_next@ * e_1 * e_2 * e_3 * e_5))
    }

    /// The fifth term of the quotient: `L_1(X)[Z(X) - 1] + L_1(X)[P(X) - 1]`,
    /// each part with its power of `alpha`.
    pub fn compute_quotient_term_check_first_la_grange_polys(
        &self,
        z_i: &Scalar,
        p_i: &Scalar,
        l1_alpha_sq: &Scalar,
        l1_alpha_4: &Scalar,
    ) -> (r: Scalar)
        ensures
            r@ == fe(first_lagrange_term(z_i@, p_i@, l1_alpha_sq@, l1_alpha_4@)),
    {
        let one = Scalar::one();
        let z_minus_one = sub_as(z_i, &one, Ghost(z_i@), Ghost(1));
        let p_minus_one = sub_as(p_i, &one, Ghost(p_i@), Ghost(1));
        let a_1 = mul_as(&z_minus_one, l1_alpha_sq, Ghost(z_i@ - 1), Ghost(l1_alpha_sq@));
        let a_2 = mul_as(&p_minus_one, l1_alpha_4, Ghost(p_i@ - 1), Ghost(l1_alpha_4@));

        add_as(
            &a_1,
            &a_2,
            Ghost((z_i@ - 1) * l1_alpha_sq@),
            Ghost((p_i@ - 1) * l1_alpha_4@),
        )
    }

    /// The sixth term of the quotient: `L_n(X)[P(X) - 1]` with its power of
    /// `alpha`.
    pub fn compute_quotient_last_la_grange_polys(&self, p_i: &Scalar, ln_alpha_7: &Scalar) -> (r:
        Scalar)
        ensures
            r@ == fe(last_lagrange_term(p_i@, ln_alpha_7@)),
    {
        let one = Scalar::one();
        let p_minus_one = sub_as(p_i, &one, Ghost(p_i@), Ghost(1));
        mul_as(&p_minus_one, ln_alpha_7, Ghost(p_i@ - 1), Ghost(ln_alpha_7@))
    }

    /// The seventh term of the quotient: `L_n(X)[h_1(X) - h_2(X.omega)]`
    /// with its power of `alpha`.
    pub fn compute_overlap_check(&self, h_1_i: &Scalar, h_2_i_next: &Scalar, ln_alpha_6: &Scalar)
        -> (r: Scalar)
        ensures
            r@ == fe(overlap_term(h_1_i@, h_2_i_next@, ln_alpha_6@)),
    {
        let difference = sub_as(h_1_i, h_2_i_next, Ghost(h_1_i@), Ghost(h_2_i_next@));
        mul_as(&difference, ln_alpha_6, Ghost(h_1_i@ - h_2_i_next@), Ghost(ln_alpha_6@))
    }

    /// The contribution of the permutation argument to the linearisation
    /// polynomial: the grand product polynomial `z_poly` and the polynomial
    /// of the fourth wire's permutation, each times a scalar that is
    /// computed from the evaluations at `z_challenge`.
    pub fn compute_linearisation(
        &self,
        z_challenge: &Scalar,
        challenges: (&Scalar, &Scalar, &Scalar),
        wire_evals: (&Scalar, &Scalar, &Scalar, &Scalar),
        sigma_evals: (&Scalar, &Scalar, &Scalar),
        z_eval: &Scalar,
        z_poly: &Polynomial,
    ) -> (r: Polynomial)
        requires
            degree_of(z_poly@) <= MAX_SIZE,
        ensures
            r@ == linearisation(
                z_poly@,
                self.fourth_sigma.0@,
                lineariser_identity_coefficient(
                    wire_evals.0@,
                    wire_evals.1@,
                    wire_evals.2@,
                    wire_evals.3@,
                    z_challenge@,
                    challenges.0@,
                    challenges.1@,
                    challenges.2@,
                ),
                lineariser_copy_coefficient(
                    wire_evals.0@,
                    wire_evals.1@,
                    wire_evals.2@,
                    z_eval@,
                    sigma_evals.0@,
                    sigma_evals.1@,
                    sigma_evals.2@,
                    challenges.0@,
                    challenges.1@,
                    challenges.2@,
                ),
                first_lagrange(size_for(degree_of(z_poly@)), z_challenge@) * (challenges.0@
                    * challenges.0@),
            ),
            r.wf(),
    {
        let (alpha, beta, gamma) = challenges;
        let (a_eval, b_eval, c_eval, d_eval) = wire_evals;
        let (sigma_1_eval, sigma_2_eval, sigma_3_eval) = sigma_evals;
        let a = self.compute_lineariser_identity_range_check(
            (a_eval, b_eval, c_eval, d_eval),
            z_challenge,
            (alpha, beta, gamma),
            z_poly,
        );
        let b = self.compute_lineariser_copy_range_check(
            (a_eval, b_eval, c_eval),
            z_eval,
            sigma_1_eval,
            sigma_2_eval,
            sigma_3_eval,
            (alpha, beta, gamma),
            &self.fourth_sigma.0,
        );

        let alpha_sq = mul_as(alpha, alpha, Ghost(alpha@), Ghost(alpha@));
        match EvaluationDomain::new(z_poly.degree()) {
            Some(domain) => {
                let c = self.compute_lineariser_check_is_one(
                    &domain,
                    z_challenge,
                    &alpha_sq,
                    z_poly,
                );
                proof {
                    let l_1 = first_lagrange(domain.spec_size(), z_challenge@);
                    lemma_of_int(l_1 * alpha_sq@);
                    lemma_congruent_mul(l_1, alpha_sq@, l_1, alpha@ * alpha@);
                    lemma_of_int_unique(
                        Scalar::of_int(
                            first_lagrange(domain.spec_size(), z_challenge@) * alpha_sq@,
                        ),
                        first_lagrange(domain.spec_size(), z_challenge@) * (alpha@ * alpha@),
                    );
                }
                a.add(&b).add(&c)
            },
            // no domain is too small for a polynomial of this degree
            None => Polynomial::zero(),
        }
    }

    /// The grand product polynomial times
    /// `(a_eval + beta * z_challenge + gamma)(b_eval + beta * K1 * z_challenge
    /// + gamma)(c_eval + beta * K2 * z_challenge + gamma)(d_eval + beta * K3 *
    /// z_challenge + gamma) * alpha`.
    pub fn compute_lineariser_identity_range_check(
        &self,
        wire_evals: (&Scalar, &Scalar, &Scalar, &Scalar),
        z_challenge: &Scalar,
        challenges: (&Scalar, &Scalar, &Scalar),
        z_poly: &Polynomial,
    ) -> (r: Polynomial)
        ensures
            r@ == scaled(
                z_poly@,
                Scalar::of_int(
                    lineariser_identity_coefficient(
                        wire_evals.0@,
                        wire_evals.1@,
                        wire_evals.2@,
                        wire_evals.3@,
                        z_challenge@,
                        challenges.0@,
                        challenges.1@,
                        challenges.2@,
                    ),
                ),
            ),
            r.wf(),
    {
        let (a_eval, b_eval, c_eval, d_eval) = wire_evals;
        let (alpha, beta, gamma) = challenges;

        // a_eval + beta * z_challenge + gamma
        let a_0 = blinded(a_eval, beta, z_challenge, gamma);
        // b_eval + beta * K1 * z_challenge + gamma
        let a_1 = blinded_on_coset(b_eval, beta, K1, z_challenge, gamma);
        // c_eval + beta * K2 * z_challenge + gamma
        let a_2 = blinded_on_coset(c_eval, beta, K2, z_challenge, gamma);
        // d_eval + beta * K3 * z_challenge + gamma
        let a_3 = blinded_on_coset(d_eval, beta, K3, z_challenge, gamma);

        let ghost e_0 = a_eval@ + beta@ * z_challenge@ + gamma@;
        let ghost e_1 = b_eval@ + beta@ * (K1 as int) * z_challenge@ + gamma@;
        let ghost e_2 = c_eval@ + beta@ * (K2 as int) * z_challenge@ + gamma@;
        let ghost e_3 = d_eval@ + beta@ * (K3 as int) * z_challenge@ + gamma@;

        let a = mul_as(&a_0, &a_1, Ghost(e_0), Ghost(e_1));
        let a = mul_as(&a, &a_2, Ghost(e_0 * e_1), Ghost(e_2));
        let a = mul_as(&a, &a_3, Ghost(e_0 * e_1 * e_2), Ghost(e_3));
        let a = mul_as(&a, alpha, Ghost(e_0 * e_1 * e_2 * e_3), Ghost(alpha@));
        z_poly.scale(&a)
    }

    /// The polynomial of the fourth wire's permutation times
    /// `-(a_eval + beta * sigma_1 + gamma)(b_eval + beta * sigma_2 + gamma)
    /// (c_eval + beta * sigma_3 + gamma) * beta * z_eval * alpha`.
    pub fn compute_lineariser_copy_range_check(
        &self,
        wire_evals: (&Scalar, &Scalar, &Scalar),
        z_eval: &Scalar,
        sigma_1_eval: &Scalar,
        sigma_2_eval: &Scalar,
        sigma_3_eval: &Scalar,
        challenges: (&Scalar, &Scalar, &Scalar),
        fourth_sigma_poly: &Polynomial,
    ) -> (r: Polynomial)
        ensures
            r@ == scaled(
                fourth_sigma_poly@,
                Scalar::of_int(
                    lineariser_copy_coefficient(
                        wire_evals.0@,
                        wire_evals.1@,
                        wire_evals.2@,
                        z_eval@,
                        sigma_1_eval@,
                        sigma_2_eval@,
                        sigma_3_eval@,
                        challenges.0@,
                        challenges.1@,
                        challenges.2@,
                    ),
                ),
            ),
            r.wf(),
    {
        let (a_eval, b_eval, c_eval) = wire_evals;
        let (alpha, beta, gamma) = challenges;

        // a_eval + beta * sigma_1 + gamma
        let a_0 = blinded(a_eval, beta, sigma_1_eval, gamma);
        // b_eval + beta * sigma_2 + gamma
        let a_1 = blinded(b_eval, beta, sigma_2_eval, gamma);
        // c_eval + beta * sigma_3 + gamma
        let a_2 = blinded(c_eval, beta, sigma_3_eval, gamma);

        let beta_z_eval = mul_as(beta, z_eval, Ghost(beta@), Ghost(z_eval@));

        let ghost e_0 = a_eval@ + beta@ * sigma_1_eval@ + gamma@;
        let ghost e_1 = b_eval@ + beta@ * sigma_2_eval@ + gamma@;
        let ghost e_2 = c_eval@ + beta@ * sigma_3_eval@ + gamma@;

        let a = mul_as(&a_0, &a_1, Ghost(e_0), Ghost(e_1));
        let a = mul_as(&a, &a_2, Ghost(e_0 * e_1), Ghost(e_2));
        let a = mul_as(&a, &beta_z_eval, Ghost(e_0 * e_1 * e_2), Ghost(beta@ * z_eval@));
        let a = mul_as(&a, alpha, Ghost(e_0 * e_1 * e_2 * (beta@ * z_eval@)), Ghost(alpha@));
        let minus_a = neg_as(&a, Ghost(e_0 * e_1 * e_2 * (beta@ * z_eval@) * alpha@));

        fourth_sigma_poly.scale(&minus_a)
    }

    /// The grand product polynomial times `L_1(z_challenge) * alpha^2`,
    /// where `L_1` is the first Lagrange polynomial of the domain.
    pub fn compute_lineariser_check_is_one(
        &self,
        domain: &EvaluationDomain,
        z_challenge: &Scalar,
        alpha_sq: &Scalar,
        z_coeffs: &Polynomial,
    ) -> (r: Polynomial)
        ensures
            r@ == scaled(
                z_coeffs@,
                Scalar::of_int(first_lagrange(domain.spec_size(), z_challenge@) * alpha_sq@),
            ),
            r.wf(),
    {
        // Evaluate l_1(z)
        let l_1_z = domain.evaluate_first_lagrange_coefficient(z_challenge);

        let factor = mul_as(
            &l_1_z,
            alpha_sq,
            Ghost(first_lagrange(domain.spec_size(), z_challenge@)),
            Ghost(alpha_sq@),
        );
        z_coeffs.scale(&factor)
    }
}

} // verus!
