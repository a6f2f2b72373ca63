use dusk_bls12_381::{BlsScalar, ROOT_OF_UNITY};
use plonk_core::composer::{FrozenCircuit, PlookupComposer};
use plonk_core::cs_errors::PlookupErrors;
use plonk_core::field::Scalar;
use plonk_core::multiset::MultiSet;
use plonk_core::polynomial::{Evaluations, Polynomial};
use plonk_core::proverkey::ProverKey;
use plonk_core::table::PlookupTable4Arity;
use plonk_core::variable::Variable;

/// The challenges of one run of the protocol.
struct Challenges {
    alpha: Scalar,
    beta: Scalar,
    gamma: Scalar,
    delta: Scalar,
    epsilon: Scalar,
    zeta: Scalar,
}

fn challenges() -> Challenges {
    Challenges {
        alpha: Scalar::from_raw([0x1234_5678_9abc_def1, 3, 5, 7]),
        beta: Scalar::from_raw([0x0fed_cba9_8765_4321, 11, 13, 17]),
        gamma: Scalar::from_raw([0x1111_2222_3333_4444, 19, 23, 29]),
        delta: Scalar::from_raw([0x5555_6666_7777_8888, 31, 37, 41]),
        epsilon: Scalar::from_raw([0x9999_aaaa_bbbb_cccc, 43, 47, 53]),
        zeta: Scalar::from_raw([0xdddd_eeee_ffff_0001, 59, 61, 67]),
    }
}

/// The powers of a root of unity of order `n`, a power of two.
fn roots_of_unity(n: usize) -> Vec<Scalar> {
    let mut generator: BlsScalar = ROOT_OF_UNITY;
    let mut order: u64 = 1 << 32;
    while order > n as u64 {
        generator = generator.square();
        order /= 2;
    }
    let omega = Scalar::from_raw(*generator.reduce().internal_repr());
    let mut roots = Vec::new();
    let mut power = Scalar::one();
    for _ in 0..n {
        roots.push(power);
        power = power.mul(&omega);
    }
    assert_eq!(power, Scalar::one());
    roots
}

fn divide(numerator: &Scalar, denominator: &Scalar) -> Scalar {
    numerator.mul(&denominator.invert().unwrap())
}

/// `a + zeta·b + zeta^2·c + zeta^3·d`.
fn compress(row: &[Scalar; 4], zeta: &Scalar) -> Scalar {
    let zeta_sq = zeta.mul(zeta);
    let zeta_cu = zeta_sq.mul(zeta);
    row[0]
        .add(&zeta.mul(&row[1]))
        .add(&zeta_sq.mul(&row[2]))
        .add(&zeta_cu.mul(&row[3]))
}

fn power(base: &Scalar, exponent: u32) -> Scalar {
    let mut result = Scalar::one();
    for _ in 0..exponent {
        result = result.mul(base);
    }
    result
}

/// Everything that the quotient reads, on a domain of `n` points.
struct Instance {
    n: usize,
    key: ProverKey,
    wires: [Vec<Scalar>; 4],
    f: Vec<Scalar>,
    t: Vec<Scalar>,
    h_1: Vec<Scalar>,
    h_2: Vec<Scalar>,
    z: Vec<Scalar>,
    p: Vec<Scalar>,
}

/// Whether the values on the wires of every arithmetic row satisfy the
/// equation of the row.
fn arithmetic_rows_hold(composer: &FrozenCircuit) -> bool {
    let value = |v: Variable| composer.value_of(v).unwrap();
    (0..composer.circuit_size()).all(|i| {
        let a = value(composer.w_l()[i]);
        let b = value(composer.w_r()[i]);
        let c = value(composer.w_o()[i]);
        let d = value(composer.w_4()[i]);
        let sum = composer.q_m()[i]
            .mul(&a)
            .mul(&b)
            .add(&composer.q_l()[i].mul(&a))
            .add(&composer.q_r()[i].mul(&b))
            .add(&composer.q_o()[i].mul(&c))
            .add(&composer.q_4()[i].mul(&d))
            .add(&composer.q_c()[i])
            .add(&composer.public_inputs()[i]);
        sum.mul(&composer.q_arith()[i]) == Scalar::zero()
    })
}

/// Lays a frozen circuit and a table out on a domain of `n` points, as a
/// prover does: wire values, sigma evaluations, the sorted column and its
/// halves, and the two grand products.
fn lay_out(
    composer: FrozenCircuit,
    table: &PlookupTable4Arity,
    n: usize,
    ch: &Challenges,
) -> Result<Instance, PlookupErrors> {
    let rows = composer.circuit_size();
    assert!(rows <= n && table.len() <= n);
    let roots = roots_of_unity(n);
    let zero = Scalar::zero();
    let one = Scalar::one();

    let column = |vars: &Vec<Variable>| -> Vec<Scalar> {
        let mut values: Vec<Scalar> =
            vars.iter().map(|v| composer.value_of(*v).unwrap()).collect();
        values.resize(n, zero);
        values
    };
    let wires = [
        column(composer.w_l()),
        column(composer.w_r()),
        column(composer.w_o()),
        column(composer.w_4()),
    ];
    let mut q_lookup = composer.q_lookup().clone();
    q_lookup.resize(n, zero);

    // the compressed table, filled up with its last row
    let mut t: Vec<Scalar> = table.0.iter().map(|row| compress(row, &ch.zeta)).collect();
    let filler = *t.last().unwrap();
    t.resize(n, filler);

    // the compressed queries; a row without a lookup asks for the filler
    let mut f = Vec::new();
    for i in 0..n - 1 {
        if q_lookup[i] == one {
            let query = [wires[0][i], wires[1][i], wires[2][i], wires[3][i]];
            f.push(compress(&query, &ch.zeta));
        } else {
            f.push(filler);
        }
    }

    let sorted = MultiSet::from_vec(t.clone()).sorted_concat(&MultiSet::from_vec(f.clone()))?;
    assert_eq!(sorted.len(), 2 * n - 1);
    let (h_1, h_2) = sorted.halve();
    let (h_1, h_2) = (h_1.0, h_2.0);
    assert_eq!(h_1.len(), n);
    assert_eq!(h_2.len(), n);
    f.push(zero);

    let perm = composer.into_permutation();
    let sigmas = perm.compute_sigma_permutations(n);
    let sigma_evals = [
        perm.compute_permutation_lagrange(&sigmas.left, &roots),
        perm.compute_permutation_lagrange(&sigmas.right, &roots),
        perm.compute_permutation_lagrange(&sigmas.out, &roots),
        perm.compute_permutation_lagrange(&sigmas.fourth, &roots),
    ];

    // the grand product of the permutation argument
    let shifts = [one, Scalar::from_u64(7), Scalar::from_u64(13), Scalar::from_u64(17)];
    let mut z = vec![one];
    for i in 0..n {
        let mut numerator = one;
        let mut denominator = one;
        for k in 0..4 {
            let identity = shifts[k].mul(&roots[i]);
            numerator = numerator.mul(&wires[k][i].add(&ch.beta.mul(&identity)).add(&ch.gamma));
            denominator =
                denominator.mul(&wires[k][i].add(&ch.beta.mul(&sigma_evals[k][i])).add(&ch.gamma));
        }
        let next = divide(&z[i].mul(&numerator), &denominator);
        z.push(next);
    }

    // the grand product of the lookup argument
    let one_plus_delta = one.add(&ch.delta);
    let shifted_epsilon = ch.epsilon.mul(&one_plus_delta);
    let pair = |x: &Scalar, y: &Scalar| shifted_epsilon.add(x).add(&ch.delta.mul(y));
    let mut p = vec![one];
    for i in 0..n - 1 {
        let numerator = one_plus_delta
            .mul(&ch.epsilon.add(&f[i]))
            .mul(&pair(&t[i], &t[i + 1]));
        let denominator = pair(&h_1[i], &h_1[i + 1]).mul(&pair(&h_2[i], &h_2[i + 1]));
        let next = divide(&p[i].mul(&numerator), &denominator);
        p.push(next);
    }

    let table_of = |values: &Vec<Scalar>| (Polynomial::zero(), Evaluations::from_vec(values.clone()));
    let key = ProverKey {
        left_sigma: table_of(&sigma_evals[0]),
        right_sigma: table_of(&sigma_evals[1]),
        out_sigma: table_of(&sigma_evals[2]),
        fourth_sigma: table_of(&sigma_evals[3]),
        linear_evaluations: Evaluations::from_vec(roots),
        h_1: table_of(&h_1),
        h_2: table_of(&h_2),
        t: table_of(&t),
    };
    Ok(Instance { n, key, wires, f, t, h_1, h_2, z, p })
}

/// The quotient contribution at the domain point with the given index.
fn quotient_at(instance: &Instance, ch: &Challenges, i: usize) -> Scalar {
    let n = instance.n;
    let next = (i + 1) % n;
    let zero = Scalar::zero();
    let first = if i == 0 { Scalar::one() } else { zero };
    let last = if i == n - 1 { Scalar::one() } else { zero };
    let omega_last = instance.key.linear_evaluations.get(n - 1);
    assert!(instance.key.has_point(i));
    instance.key.compute_quotient_i(
        i,
        &instance.wires[0][i],
        &instance.wires[1][i],
        &instance.wires[2][i],
        &instance.wires[3][i],
        &instance.f[i],
        &instance.t[i],
        &instance.t[next],
        &instance.h_1[i],
        &instance.h_2[i],
        &instance.h_1[next],
        &instance.h_2[next],
        &instance.z[i],
        &instance.z[next],
        &instance.p[i],
        &instance.p[next],
        &ch.alpha,
        &first.mul(&power(&ch.alpha, 2)),
        &first.mul(&power(&ch.alpha, 4)),
        &last.mul(&power(&ch.alpha, 6)),
        &last.mul(&power(&ch.alpha, 7)),
        &ch.beta,
        &ch.gamma,
        &ch.delta,
        &ch.epsilon,
        &omega_last,
    )
}

/// Whether the quotient contribution vanishes at every point of the domain.
fn quotient_vanishes(instance: &Instance, ch: &Challenges) -> bool {
    instance.z[instance.n] == Scalar::one()
        && (0..instance.n).all(|i| quotient_at(instance, ch, i) == Scalar::zero())
}

/// Runs a gadget on the prover's side and checks what the prover lays out.
fn gadget_plookup_tester(
    gadget: fn(composer: &mut PlookupComposer),
    n: usize,
    lookup_table: PlookupTable4Arity,
) -> Result<(), String> {
    let ch = challenges();
    let mut composer = PlookupComposer::new();
    gadget(&mut composer);
    // the verifier builds the same circuit
    let mut verifier = PlookupComposer::new();
    gadget(&mut verifier);

    if composer.circuit_size() < lookup_table.0.len() {
        for _ in 0..(lookup_table.0.len() - composer.circuit_size()) {
            composer.add_one_dummy_constraint();
            verifier.add_one_dummy_constraint();
        }
    }
    let composer = composer.freeze();
    let verifier = verifier.freeze();
    if composer.circuit_size() != verifier.circuit_size()
        || composer.w_l() != verifier.w_l()
        || composer.q_lookup() != verifier.q_lookup()
        || composer.public_inputs() != verifier.public_inputs()
    {
        return Err(format!("the two circuits differ"));
    }
    if !arithmetic_rows_hold(&composer) {
        return Err(format!("an arithmetic row does not hold"));
    }
    let instance = match lay_out(composer, &lookup_table, n, &ch) {
        Ok(instance) => instance,
        Err(PlookupErrors::ElementNotIndexed) => return Err(format!("a query is not in the table")),
    };
    if quotient_vanishes(&instance, &ch) {
        Ok(())
    } else {
        Err(format!("the quotient does not vanish"))
    }
}

/// `q_l·a + q_r·b + q_c + pi = c`, with a new variable for `c`.
fn add_gate(
    composer: &mut PlookupComposer,
    q_l_a: (Scalar, Variable),
    q_r_b: (Scalar, Variable),
    q_c: Scalar,
    pi: Scalar,
) -> Variable {
    let a = composer.value_of(q_l_a.1).unwrap();
    let b = composer.value_of(q_r_b.1).unwrap();
    let value = q_l_a.0.mul(&a).add(&q_r_b.0.mul(&b)).add(&q_c).add(&pi);
    let c = composer.add_input(value);
    composer.poly_gate(
        q_l_a.1,
        q_r_b.1,
        c,
        Scalar::zero(),
        q_l_a.0,
        q_r_b.0,
        Scalar::one().neg(),
        q_c,
        pi,
    );
    c
}

/// `q_m·a·b + q_o·c + q_c + pi = 0`.
fn mul_gate(
    composer: &mut PlookupComposer,
    a: Variable,
    b: Variable,
    c: Variable,
    q_m: Scalar,
    q_o: Scalar,
    q_c: Scalar,
    pi: Scalar,
) {
    composer.poly_gate(a, b, c, q_m, Scalar::zero(), Scalar::zero(), q_o, q_c, pi);
}

fn cube_table() -> PlookupTable4Arity {
    let mut cube_table = PlookupTable4Arity::new();
    cube_table.add_dummy_rows();
    for i in 0..(32 - cube_table.0.len() as u64) {
        cube_table.0.push([
            Scalar::from_u64(i),
            Scalar::from_u64(i * i * i),
            Scalar::zero(),
            Scalar::zero(),
        ]);
    }
    cube_table
}

#[test]
fn test_cube_table() {
    let cube_table = cube_table();

    let res = gadget_plookup_tester(
        |composer| {
            let zero = composer.add_input(Scalar::zero());

            let one = composer.add_input(Scalar::one());
            let one_cubed = composer.add_input(Scalar::one());

            let nine = composer.add_input(Scalar::from_u64(9));
            let nine_cubed = composer.add_input(Scalar::from_u64(9 * 9 * 9));

            let ten = composer.add_input(Scalar::from_u64(10));
            let ten_cubed = composer.add_input(Scalar::from_u64(10 * 10 * 10));

            let twelve = composer.add_input(Scalar::from_u64(12));
            let twelve_cubed = composer.add_input(Scalar::from_u64(12 * 12 * 12));

            // Add lookup query gates
            composer.plookup_gate(one, one_cubed, zero, Some(zero), Scalar::zero());
            composer.plookup_gate(nine, nine_cubed, zero, Some(zero), Scalar::zero());
            composer.plookup_gate(ten, ten_cubed, zero, Some(zero), Scalar::zero());
            composer.plookup_gate(twelve, twelve_cubed, zero, Some(zero), Scalar::zero());

            // Checks that 1^3 + 12^3 = 1729 (public input)
            composer.poly_gate(
                one_cubed,
                twelve_cubed,
                zero,
                Scalar::zero(),
                Scalar::one(),
                Scalar::one(),
                Scalar::zero(),
                Scalar::zero(),
                Scalar::from_u64(1729).neg(),
            );

            // Checks that 9^3 + 10^3 = 1729 (public input)
            composer.poly_gate(
                nine_cubed,
                ten_cubed,
                zero,
                Scalar::zero(),
                Scalar::one(),
                Scalar::one(),
                Scalar::zero(),
                Scalar::zero(),
                Scalar::from_u64(1729).neg(),
            );

            // Now we must show that the two ways of writing 1729
            // as a sum of two cubes are indeed different. We can
            // show that set {a, b} =/= {c, d} by showing that
            // a =/= c, a =/= d, b =/= c, and b =/= d. We can show
            // an individual inequality a =/= c by asking the prover
            // to provide an inverse z to a - c. Then a constraint
            // shows that z * (a - c) = 1. If a = c it will be
            // impossible for the prover to provide such an inverse.

            let a_minus_c_inverse = composer
                .add_input(Scalar::from_u64(1).sub(&Scalar::from_u64(9)).invert().unwrap());

            let a_minus_d_inverse = composer
                .add_input(Scalar::from_u64(1).sub(&Scalar::from_u64(10)).invert().unwrap());

            let b_minus_c_inverse = composer
                .add_input(Scalar::from_u64(12).sub(&Scalar::from_u64(9)).invert().unwrap());

            let b_minus_d_inverse = composer
                .add_input(Scalar::from_u64(12).sub(&Scalar::from_u64(10)).invert().unwrap());

            let a_minus_c = add_gate(
                composer,
                (Scalar::one(), one),
                (Scalar::one().neg(), nine),
                Scalar::zero(),
                Scalar::zero(),
            );

            let a_minus_d = add_gate(
                composer,
                (Scalar::one(), one),
                (Scalar::one().neg(), ten),
                Scalar::zero(),
                Scalar::zero(),
            );

            let b_minus_c = add_gate(
                composer,
                (Scalar::one(), twelve),
                (Scalar::one().neg(), nine),
                Scalar::zero(),
                Scalar::zero(),
            );

            let b_minus_d = add_gate(
                composer,
                (Scalar::one(), twelve),
                (Scalar::one().neg(), ten),
                Scalar::zero(),
                Scalar::zero(),
            );

            // Each multiplication gate constrains the output to be constant 1
            mul_gate(
                composer,
                a_minus_c,
                a_minus_c_inverse,
                zero,
                Scalar::one(),
                Scalar::zero(),
                Scalar::one().neg(),
                Scalar::zero(),
            );

            mul_gate(
                composer,
                a_minus_d,
                a_minus_d_inverse,
                zero,
                Scalar::one(),
                Scalar::zero(),
                Scalar::one().neg(),
                Scalar::zero(),
            );

            mul_gate(
                composer,
                b_minus_c,
                b_minus_c_inverse,
                zero,
                Scalar::one(),
                Scalar::zero(),
                Scalar::one().neg(),
                Scalar::zero(),
            );

            mul_gate(
                composer,
                b_minus_d,
                b_minus_d_inverse,
                zero,
                Scalar::one(),
                Scalar::zero(),
                Scalar::one().neg(),
                Scalar::zero(),
            );
        },
        32,
        cube_table,
    );

    assert!(res.is_ok());
}

#[test]
fn cubes_with_the_sum_as_constant_selector() {
    let res = gadget_plookup_tester(
        |composer| {
            let zero = composer.zero_var();
            let mut cubes = Vec::new();
            for x in [1u64, 9, 10, 12] {
                let base = composer.add_input(Scalar::from_u64(x));
                let cube = composer.add_input(Scalar::from_u64(x * x * x));
                composer.plookup_gate(base, cube, zero, None, Scalar::zero());
                cubes.push(cube);
            }
            for (a, b) in [(cubes[0], cubes[3]), (cubes[1], cubes[2])] {
                composer.poly_gate(
                    a,
                    b,
                    zero,
                    Scalar::zero(),
                    Scalar::one(),
                    Scalar::one(),
                    Scalar::zero(),
                    Scalar::from_u64(1729).neg(),
                    Scalar::zero(),
                );
            }
        },
        32,
        cube_table(),
    );
    assert_eq!(res, Ok(()));
}

#[test]
fn a_wrong_sum_is_not_satisfied() {
    let res = gadget_plookup_tester(
        |composer| {
            let zero = composer.zero_var();
            let a = composer.add_input(Scalar::from_u64(1));
            let b = composer.add_input(Scalar::from_u64(1728));
            composer.poly_gate(
                a,
                b,
                zero,
                Scalar::zero(),
                Scalar::one(),
                Scalar::one(),
                Scalar::zero(),
                Scalar::from_u64(1730).neg(),
                Scalar::zero(),
            );
        },
        32,
        cube_table(),
    );
    assert_eq!(res, Err(format!("an arithmetic row does not hold")));
}

#[test]
fn circuit_without_user_gates_has_a_vanishing_quotient() {
    let mut table = PlookupTable4Arity::new();
    table.add_dummy_rows();
    let res = gadget_plookup_tester(|_composer| {}, 4, table);
    assert_eq!(res, Ok(()));

    let mut table = PlookupTable4Arity::new();
    table.add_dummy_rows();
    let res = gadget_plookup_tester(|_composer| {}, 8, table);
    assert_eq!(res, Ok(()));
}

#[test]
fn padding_rows_need_the_dummy_rows_of_the_table() {
    let mut table = PlookupTable4Arity::new();
    table.insert(Scalar::from_u64(1), Scalar::from_u64(1), Scalar::zero(), Scalar::zero());
    let res = gadget_plookup_tester(|_composer| {}, 4, table);
    assert_eq!(res, Err(format!("a query is not in the table")));
}

#[test]
fn query_that_is_not_in_the_table_is_refused_when_sorting() {
    let res = gadget_plookup_tester(
        |composer| {
            let zero = composer.zero_var();
            let base = composer.add_input(Scalar::from_u64(3));
            let wrong = composer.add_input(Scalar::from_u64(28));
            composer.plookup_gate(base, wrong, zero, None, Scalar::zero());
        },
        32,
        cube_table(),
    );
    assert_eq!(res, Err(format!("a query is not in the table")));
}

#[test]
fn query_that_is_not_in_the_table_leaves_a_quotient_that_does_not_vanish() {
    let ch = challenges();
    let table = cube_table();
    let n = 32;

    let mut composer = PlookupComposer::new();
    let zero = composer.zero_var();
    let base = composer.add_input(Scalar::from_u64(3));
    let wrong = composer.add_input(Scalar::from_u64(28));
    composer.plookup_gate(base, wrong, zero, None, Scalar::zero());
    let bogus_row = composer.circuit_size() - 1;

    // an honest neighbour: the same circuit with the right cube
    let mut honest = PlookupComposer::new();
    let zero = honest.zero_var();
    let base = honest.add_input(Scalar::from_u64(3));
    let right = honest.add_input(Scalar::from_u64(27));
    honest.plookup_gate(base, right, zero, None, Scalar::zero());

    // the prover sorts as if the query were the honest one, and proves the
    // bogus one
    let mut instance = lay_out(honest.freeze(), &table, n, &ch).unwrap();
    assert!(quotient_vanishes(&instance, &ch));
    let bogus = [Scalar::from_u64(3), Scalar::from_u64(28), Scalar::zero(), Scalar::zero()];
    instance.f[bogus_row] = compress(&bogus, &ch.zeta);
    instance.wires[1][bogus_row] = Scalar::from_u64(28);

    // the third term alone is not zero at the row of the query
    let omega_last = instance.key.linear_evaluations.get(n - 1);
    let third = instance.key.compute_lookup_quotient_identity_range_check_i(
        bogus_row,
        &instance.f[bogus_row],
        &instance.t[bogus_row],
        &instance.t[bogus_row + 1],
        &instance.p[bogus_row],
        &ch.alpha,
        &ch.delta,
        &ch.epsilon,
        &omega_last,
    );
    assert_ne!(third, Scalar::zero());
    // and nothing cancels it
    assert_ne!(quotient_at(&instance, &ch, bogus_row), Scalar::zero());
    assert!(!quotient_vanishes(&instance, &ch));
}

#[test]
fn test_plookup_all_gates() {
    // a table of rows without a pattern, after the dummy rows
    let mut random_table = PlookupTable4Arity::new();
    random_table.add_dummy_rows();
    let mut state = Scalar::from_raw([0x243f_6a88_85a3_08d3, 0x1319_8a2e, 0x0370_7344, 0xa409]);
    let step = Scalar::from_raw([0x3822_299f_31d0_082e, 0xfa98_ec4e, 0x6c89_4528, 0x21e6]);
    let mut next = || {
        state = state.mul(&state).add(&step);
        state
    };
    let table_length = 57;
    for _ in 0..table_length {
        let row = [next(), next(), next(), next()];
        random_table.0.push(row);
    }

    fn all_gates_circuit(composer: &mut PlookupComposer) {
        // the row of the table that is queried, rebuilt as the table was
        let mut state = Scalar::from_raw([0x243f_6a88_85a3_08d3, 0x1319_8a2e, 0x0370_7344, 0xa409]);
        let step = Scalar::from_raw([0x3822_299f_31d0_082e, 0xfa98_ec4e, 0x6c89_4528, 0x21e6]);
        let mut row = [Scalar::zero(); 4];
        for _ in 0..23 {
            for entry in row.iter_mut() {
                state = state.mul(&state).add(&step);
                *entry = state;
            }
        }
        let (r1, r2, r3, r4) = (row[0], row[1], row[2], row[3]);
        let r1_var = composer.add_input(r1);
        let r2_var = composer.add_input(r2);
        let r3_var = composer.add_input(r3);
        let r4_var = composer.add_input(r4);

        // add a lookup query gate from the table
        composer.plookup_gate(r1_var, r2_var, r3_var, Some(r4_var), Scalar::zero());

        // add some arithmetic gates using the random values
        let _r1_r2_sum = add_gate(
            composer,
            (Scalar::one(), r1_var),
            (Scalar::one(), r2_var),
            Scalar::zero(),
            Scalar::zero(),
        );

        let product = composer.add_input(r3.mul(&r4));
        mul_gate(
            composer,
            r3_var,
            r4_var,
            product,
            Scalar::one(),
            Scalar::one().neg(),
            Scalar::zero(),
            Scalar::zero(),
        );
    }

    let res = gadget_plookup_tester(all_gates_circuit, 64, random_table);

    assert!(res.is_ok());
}
