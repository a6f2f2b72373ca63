use plonk_core::composer::PlookupComposer;
use plonk_core::field::Scalar;
use plonk_core::permutation::{Permutation, SigmaMappings};
use plonk_core::variable::{Variable, WireData};

fn sigma_at(sigmas: &SigmaMappings, slot: WireData) -> WireData {
    match slot {
        WireData::Left(i) => sigmas.left[i],
        WireData::Right(i) => sigmas.right[i],
        WireData::Output(i) => sigmas.out[i],
        WireData::Fourth(i) => sigmas.fourth[i],
    }
}

fn all_slots(n: usize) -> Vec<WireData> {
    let mut slots = Vec::new();
    for i in 0..n {
        slots.push(WireData::Left(i));
        slots.push(WireData::Right(i));
        slots.push(WireData::Output(i));
        slots.push(WireData::Fourth(i));
    }
    slots
}

/// The slots on the cycle of `start`, from `start` on.
fn cycle_of(sigmas: &SigmaMappings, start: WireData) -> Vec<WireData> {
    let mut cycle = vec![start];
    let mut slot = sigma_at(sigmas, start);
    while slot != start {
        assert!(cycle.len() < 1000);
        cycle.push(slot);
        slot = sigma_at(sigmas, slot);
    }
    cycle
}

#[test]
fn tracker_counts_variables_and_rows() {
    let mut perm = Permutation::new();
    assert_eq!(perm.variables(), 0);
    assert_eq!(perm.gate_count(), 0);
    perm.track(Variable(0));
    perm.track(Variable(1));
    assert_eq!(perm.variables(), 2);
    perm.add_variables_to_map(Variable(0), Variable(1), Variable(0), Variable(1), 0);
    assert_eq!(perm.gate_count(), 1);
    assert_eq!(perm.variables(), 2);
}

#[test]
fn sigma_sends_each_occurrence_to_the_next() {
    let mut perm = Permutation::new();
    for v in 0..3 {
        perm.track(Variable(v));
    }
    let (a, b, c) = (Variable(0), Variable(1), Variable(2));
    perm.add_variables_to_map(a, b, c, a, 0);
    perm.add_variables_to_map(b, a, b, b, 1);
    let sigmas = perm.compute_sigma_permutations(2);
    // a: Left(0), Fourth(0), Right(1)
    assert_eq!(sigmas.left[0], WireData::Fourth(0));
    assert_eq!(sigmas.fourth[0], WireData::Right(1));
    assert_eq!(sigmas.right[1], WireData::Left(0));
    // b: Right(0), Left(1), Output(1), Fourth(1)
    assert_eq!(sigmas.right[0], WireData::Left(1));
    assert_eq!(sigmas.left[1], WireData::Output(1));
    assert_eq!(sigmas.out[1], WireData::Fourth(1));
    assert_eq!(sigmas.fourth[1], WireData::Right(0));
    // c: Output(0) alone
    assert_eq!(sigmas.out[0], WireData::Output(0));
}

#[test]
fn rows_that_were_not_registered_stay_where_they_are() {
    let mut perm = Permutation::new();
    perm.track(Variable(0));
    perm.add_variables_to_map(Variable(0), Variable(0), Variable(0), Variable(0), 0);
    let sigmas = perm.compute_sigma_permutations(4);
    assert_eq!(sigmas.left.len(), 4);
    assert_eq!(sigmas.right.len(), 4);
    assert_eq!(sigmas.out.len(), 4);
    assert_eq!(sigmas.fourth.len(), 4);
    for i in 1..4 {
        assert_eq!(sigmas.left[i], WireData::Left(i));
        assert_eq!(sigmas.right[i], WireData::Right(i));
        assert_eq!(sigmas.out[i], WireData::Output(i));
        assert_eq!(sigmas.fourth[i], WireData::Fourth(i));
    }
    assert_eq!(cycle_of(&sigmas, WireData::Left(0)).len(), 4);
}

#[test]
fn sigma_of_a_tracker_without_rows_is_the_identity() {
    let perm = Permutation::new();
    let sigmas = perm.compute_sigma_permutations(2);
    for slot in all_slots(2) {
        assert_eq!(sigma_at(&sigmas, slot), slot);
    }
    assert_eq!(perm.compute_sigma_permutations(0).left.len(), 0);
}

#[test]
fn cycles_of_a_circuit_are_its_variables() {
    let mut composer = PlookupComposer::new();
    let a = composer.add_input(Scalar::from_u64(3));
    let b = composer.add_input(Scalar::from_u64(3));
    let unused = composer.add_input(Scalar::from_u64(4));
    composer.poly_gate(
        a,
        b,
        a,
        Scalar::zero(),
        Scalar::zero(),
        Scalar::zero(),
        Scalar::zero(),
        Scalar::zero(),
        Scalar::zero(),
    );
    composer.assert_equal(a, b);
    composer.plookup_gate(b, b, a, Some(a), Scalar::zero());
    assert!(composer.is_known(unused));
    let composer = composer.freeze();
    let n = composer.circuit_size();
    let variable_at = |slot: WireData| match slot {
        WireData::Left(i) => composer.w_l()[i],
        WireData::Right(i) => composer.w_r()[i],
        WireData::Output(i) => composer.w_o()[i],
        WireData::Fourth(i) => composer.w_4()[i],
    };
    let variables: Vec<Variable> = all_slots(n).into_iter().map(variable_at).collect();

    let perm = composer.into_permutation();
    assert_eq!(perm.gate_count(), n);
    let sigmas = perm.compute_sigma_permutations(n);
    let slots = all_slots(n);

    // a permutation: every slot is the image of exactly one slot
    for target in slots.iter() {
        let sources = slots.iter().filter(|s| sigma_at(&sigmas, **s) == *target).count();
        assert_eq!(sources, 1);
    }
    // two slots are on one cycle exactly when they carry one variable
    for (i, first) in slots.iter().enumerate() {
        let cycle = cycle_of(&sigmas, *first);
        for (j, second) in slots.iter().enumerate() {
            assert_eq!(cycle.contains(second), variables[i] == variables[j]);
        }
    }
    // the second padding row keeps the permutation from being the identity
    assert!(slots.iter().any(|s| sigma_at(&sigmas, *s) != *s));
}

#[test]
fn sigma_values_sit_on_the_coset_of_their_role() {
    let perm = Permutation::new();
    let roots = vec![Scalar::from_u64(1), Scalar::from_u64(100), Scalar::from_u64(10000)];
    let mapping = vec![
        WireData::Left(1),
        WireData::Right(2),
        WireData::Output(0),
        WireData::Fourth(1),
        WireData::Left(0),
    ];
    let values = perm.compute_permutation_lagrange(&mapping, &roots);
    assert_eq!(
        values,
        vec![
            Scalar::from_u64(100),
            Scalar::from_u64(70000),
            Scalar::from_u64(13),
            Scalar::from_u64(1700),
            Scalar::from_u64(1),
        ]
    );
    assert_eq!(perm.compute_permutation_lagrange(&Vec::new(), &roots), Vec::new());
}

#[test]
fn wire_data_knows_its_row() {
    assert_eq!(WireData::Left(3).index(), 3);
    assert_eq!(WireData::Right(4).index(), 4);
    assert_eq!(WireData::Output(5).index(), 5);
    assert_eq!(WireData::Fourth(6).index(), 6);
}
