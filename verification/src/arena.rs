//! The owner of the witness values.

use crate::cs_errors::UnknownVariable;
use crate::field::Scalar;
use crate::variable::Variable;
use vstd::prelude::*;

verus! {

/// Issues the identifiers of witness values and holds the value bound to each.
#[derive(Debug)]
pub struct Arena {
    values: Vec<Option<Scalar>>,
}

impl View for Arena {
    type V = Seq<Option<Scalar>>;

    /// For each identifier issued so far, in the order of issue, the value
    /// bound to it, if any.
    closed spec fn view(&self) -> Seq<Option<Scalar>> {
        self.values@
    }
}

/// Whether `bindings` has issued `var`.
pub open spec fn issued_in(bindings: Seq<Option<Scalar>>, var: Variable) -> bool {
    var.0 < bindings.len()
}

/// Whether `bindings` holds a value for `var`.
pub open spec fn bound_in(bindings: Seq<Option<Scalar>>, var: Variable) -> bool {
    var.0 < bindings.len() && bindings[var.0 as int] is Some
}

impl Arena {
    /// Whether `var` was issued by this arena.
    pub open spec fn issued(&self, var: Variable) -> bool {
        issued_in(self@, var)
    }

    /// Whether a value is bound to `var`.
    pub open spec fn bound(&self, var: Variable) -> bool {
        bound_in(self@, var)
    }

    /// An arena that has issued nothing.
    pub fn new() -> (r: Arena)
        ensures
            r@ == Seq::<Option<Scalar>>::empty(),
    {
        Arena { values: Vec::new() }
    }

    /// An arena that has issued nothing, with room for `capacity`
    /// identifiers.
    pub fn with_capacity(capacity: usize) -> (r: Arena)
        ensures
            r@ == Seq::<Option<Scalar>>::empty(),
    {
        Arena { values: Vec::with_capacity(capacity) }
    }

    /// The number of identifiers issued so far.
    pub fn len(&self) -> (r: usize)
        ensures
            r == self@.len(),
    {
        self.values.len()
    }

    /// Issues an identifier that was never issued before. Nothing is bound
    /// to it yet.
    pub fn new_variable(&mut self) -> (var: Variable)
        ensures
            !old(self).issued(var),
            var.0 == old(self)@.len(),
            final(self)@ == old(self)@.push(None),
            final(self)@.len() <= usize::MAX,
    {
        self.values.push(None);
        Variable(self.values.len() - 1)
    }

    /// Binds `value` to `var`. Binding the value that is already bound
    /// changes nothing; another value may not be bound to the same
    /// identifier.
    pub fn bind(&mut self, var: Variable, value: Scalar)
        requires
            old(self).issued(var),
            old(self).bound(var) ==> old(self)@[var.0 as int] == Some(value),
        ensures
            final(self)@ == old(self)@.update(var.0 as int, Some(value)),
    {
        self.values[var.0] = Some(value);
    }

    /// The value bound to `var`.
    pub fn resolve(&self, var: Variable) -> (r: Result<Scalar, UnknownVariable>)
        ensures
            self.bound(var) ==> r == Ok::<Scalar, UnknownVariable>(self@[var.0 as int].unwrap()),
            !self.bound(var) ==> r == Err::<Scalar, UnknownVariable>(
                UnknownVariable { variable: var },
            ),
    {
        if var.0 < self.values.len() {
            match self.values[var.0] {
                Some(value) => Ok(value),
                None => Err(UnknownVariable { variable: var }),
            }
        } else {
            Err(UnknownVariable { variable: var })
        }
    }
}

} // verus!
