//! Per-cell value types for hosts that track every cell individually.
//!
//! The engine itself needs only coordinate-indexed boolean state; these
//! pairings exist for collaborators that give each cell its own identity,
//! such as a renderer or a seeding pass.

use vstd::prelude::*;
use crate::point::Point;

verus! {

/// The liveness of a single cell.
#[derive(Copy, Clone, PartialEq, Eq, Structural, Debug)]
pub struct CellState {
    pub alive: bool,
}

/// A cell's liveness together with the coordinate it occupies.
#[derive(Copy, Clone, PartialEq, Eq, Structural, Debug)]
pub struct CellBundle {
    pub cell: CellState,
    pub point: Point,
}

} // verus!
