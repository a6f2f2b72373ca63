//! Arithmetisation core of a PLONK-style proof system with a lookup argument:
//! the circuit builder, the copy-constraint permutation tracker, the lookup
//! table, and the permutation/lookup prover key.

pub mod arena;
pub mod circuit;
pub mod composer;
pub mod constants;
pub mod cs_errors;
pub mod domain;
pub mod field;
pub mod multiset;
pub mod permutation;
pub mod polynomial;
pub mod proverkey;
pub mod table;
pub mod variable;
