use vstd::prelude::*;

verus! {

/// A position in the tile grid: `x` grows to the right and `y` grows upwards.
#[derive(Debug, Clone, Copy, PartialEq, Eq, Structural, Hash)]
pub struct TilePosition {
    pub x: u32,
    pub y: u32,
}

} // verus!
