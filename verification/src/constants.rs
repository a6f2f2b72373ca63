//! The constants of the permutation argument.
//!
//! The wires of each role sit on a coset of the evaluation domain of their
//! own: the left wires on the domain itself, the others on the domain
//! times one of these three non-residues.

use vstd::prelude::*;

verus! {

/// The shift that places the right wires on a coset of their own.
pub const K1: u64 = 7;

/// The shift that places the output wires on a coset of their own.
pub const K2: u64 = 13;

/// The shift that places the fourth wires on a coset of their own.
pub const K3: u64 = 17;

} // verus!
