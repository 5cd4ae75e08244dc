//! A verified cellular-automaton grid engine: a bounded two-dimensional
//! boolean lattice evolved by the classic birth/survival rule, with a
//! double-buffered sweep so that every cell of a generation is computed
//! from the same frozen predecessor.

pub mod cell;
pub mod engine;
pub mod field;
pub mod point;
