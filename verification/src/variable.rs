//! Identifiers of witness values, and the wire slots in which they occur.

use vstd::prelude::*;

verus! {

/// An identifier of a witness value. It carries no value: the arena that
/// issued it resolves it.
#[derive(Clone, Copy, Debug, PartialEq, Eq, Structural, Hash, PartialOrd, Ord)]
pub struct Variable(pub usize);

/// A wire slot: the role of a wire and the row it belongs to.
#[derive(Clone, Copy, Debug, PartialEq, Eq, Structural, Hash)]
pub enum WireData {
    /// The left wire of a row.
    Left(usize),
    /// The right wire of a row.
    Right(usize),
    /// The output wire of a row.
    Output(usize),
    /// The fourth wire of a row.
    Fourth(usize),
}

impl WireData {
    /// The row of the slot.
    pub open spec fn row(self) -> usize {
        match self {
            WireData::Left(i) => i,
            WireData::Right(i) => i,
            WireData::Output(i) => i,
            WireData::Fourth(i) => i,
        }
    }

    /// The row of the slot.
    pub fn index(&self) -> (r: usize)
        ensures
            r == self.row(),
    {
        match self {
            WireData::Left(i) => *i,
            WireData::Right(i) => *i,
            WireData::Output(i) => *i,
            WireData::Fourth(i) => *i,
        }
    }
}

} // verus!
