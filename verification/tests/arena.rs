use plonk_core::arena::Arena;
use plonk_core::cs_errors::UnknownVariable;
use plonk_core::field::Scalar;
use plonk_core::variable::Variable;

#[test]
fn new_variables_are_fresh_and_unbound() {
    let mut arena = Arena::new();
    assert_eq!(arena.len(), 0);
    let a = arena.new_variable();
    let b = arena.new_variable();
    let c = arena.new_variable();
    assert_eq!((a, b, c), (Variable(0), Variable(1), Variable(2)));
    assert!(a != b && b != c && a != c);
    assert!(a < b && b < c);
    assert_eq!(arena.len(), 3);
    assert_eq!(arena.resolve(a), Err(UnknownVariable { variable: a }));
}

#[test]
fn resolve_gives_what_was_bound() {
    let mut arena = Arena::with_capacity(4);
    let a = arena.new_variable();
    let b = arena.new_variable();
    arena.bind(b, Scalar::from(9u64));
    assert_eq!(arena.resolve(b), Ok(Scalar::from_u64(9)));
    assert_eq!(arena.resolve(a), Err(UnknownVariable { variable: a }));
    arena.bind(a, Scalar::from_u64(9).neg());
    assert_eq!(arena.resolve(a), Ok(Scalar::from_u64(9).neg()));
    // binding the same value again changes nothing
    arena.bind(b, Scalar::from_u64(9));
    assert_eq!(arena.resolve(b), Ok(Scalar::from_u64(9)));
    assert_eq!(arena.len(), 2);
}

#[test]
fn resolve_of_a_variable_that_was_never_issued_fails() {
    let mut arena = Arena::new();
    arena.new_variable();
    assert_eq!(
        arena.resolve(Variable(1)),
        Err(UnknownVariable { variable: Variable(1) })
    );
    assert_eq!(
        arena.resolve(Variable(usize::MAX)),
        Err(UnknownVariable { variable: Variable(usize::MAX) })
    );
}
