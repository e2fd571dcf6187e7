//! Renderable cell instances: one record per visible cell, carrying its
//! field coordinates and its flat index into the liveness buffer.

use vstd::prelude::*;

verus! {

/// One renderable cell: its field position and the flat buffer index at
/// which the renderer looks up its liveness.
#[derive(Clone, Copy, Debug, PartialEq, Eq, Structural)]
pub struct CellPos {
    pub x: u32,
    pub y: u32,
    pub idx: u32,
}

/// The transient collection of visible cells produced by one culling pass.
/// It is rebuilt, never mutated in place, whenever the view box changes.
pub struct CellPosInstances {
    positions: Vec<CellPos>,
}

impl View for CellPosInstances {
    type V = Seq<CellPos>;

    closed spec fn view(&self) -> Seq<CellPos> {
        self.positions@
    }
}

impl CellPosInstances {
    pub fn new(positions: Vec<CellPos>) -> (r: CellPosInstances)
        ensures
            r@ == positions@,
    {
        CellPosInstances { positions }
    }

    pub fn len(&self) -> (r: usize)
        ensures
            r == self@.len(),
    {
        self.positions.len()
    }

    /// The instances, in the order the culling pass emitted them.
    pub fn positions(&self) -> (r: &Vec<CellPos>)
        ensures
            r@ == self@,
    {
        &self.positions
    }
}

} // verus!
