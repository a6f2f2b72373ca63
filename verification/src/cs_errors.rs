//! Failures of circuit construction.

use crate::variable::Variable;
use vstd::prelude::*;

verus! {

/// An identifier was resolved that has no value bound to it.
#[derive(Clone, Copy, Debug, PartialEq, Eq, Structural)]
pub struct UnknownVariable {
    /// The identifier that could not be resolved.
    pub variable: Variable,
}

/// A gate of the lookup family was asked for while its structural
/// precondition did not hold.
#[derive(Clone, Copy, Debug, PartialEq, Eq, Structural)]
pub enum PreProcessingError {
    /// A wire names a variable that the circuit does not know.
    UnknownVariable(UnknownVariable),
}

/// Failures of the lookup argument's preparation.
#[derive(Clone, Copy, Debug, PartialEq, Eq, Structural)]
pub enum PlookupErrors {
    /// A queried value is not a value of the table.
    ElementNotIndexed,
}

} // verus!
