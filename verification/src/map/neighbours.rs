use vstd::prelude::*;

use crate::constants::TOTAL_MAP_WIDTH;
use crate::map::{spec_index_to_tile_pos, spec_pos_to_index, WorldMap, WorldMapView};
use crate::map_tile::{MapTile, MapTileView};
use crate::position::TilePosition;

verus! {

/// A tile next to a position, with its own position.
#[derive(Debug, Clone)]
pub struct NeighbourTile<'world> {
    pub pos: TilePosition,
    pub tile: &'world MapTile,
}

/// The four tiles that a unit-sized body centred anywhere on the map can overlap.
#[derive(Debug, Clone)]
pub struct NeighbourTiles<'world> {
    pub top_left: NeighbourTile<'world>,
    pub top_right: NeighbourTile<'world>,
    pub bottom_left: NeighbourTile<'world>,
    pub bottom_right: NeighbourTile<'world>,
}

impl<'world> NeighbourTiles<'world> {
    /// The four tiles in the order top left, top right, bottom left, bottom right.
    pub fn iter(&'world self) -> (r: Vec<&'world NeighbourTile<'world>>)
        ensures
            r@ == seq![&self.top_left, &self.top_right, &self.bottom_left, &self.bottom_right],
    {
        let mut r: Vec<&'world NeighbourTile<'world>> = Vec::new();
        r.push(&self.top_left);
        r.push(&self.top_right);
        r.push(&self.bottom_left);
        r.push(&self.bottom_right);
        assert(r@ =~= seq![&self.top_left, &self.top_right, &self.bottom_left, &self.bottom_right]);
        r
    }
}

/// The index offsets of the tiles to the left, to the right, below and above a tile.
pub open spec fn neighbour_increment(k: int) -> int {
    if k == 0 {
        -1
    } else if k == 1 {
        1
    } else if k == 2 {
        -(TOTAL_MAP_WIDTH as int)
    } else {
        TOTAL_MAP_WIDTH as int
    }
}

/// The neighbours among the first `n` directions (left, right, below, above) of the tile with
/// index `base`: the index offset is applied with the wrapping of `usize`, and a neighbour is
/// kept when its position lies on the map.
pub open spec fn tile_neighbours_upto(m: WorldMapView, base: int, n: int) -> Seq<(TilePosition, MapTileView)>
    decreases n,
{
    if n <= 0 {
        Seq::empty()
    } else {
        let prev = tile_neighbours_upto(m, base, n - 1);
        let i = (base + neighbour_increment(n - 1)) as usize;
        let pos = spec_index_to_tile_pos(i as int);
        match m.tile_at(pos) {
            Some(t) => prev.push((pos, t)),
            None => prev,
        }
    }
}

impl WorldMap {
    /// The four tiles that a unit-sized body overlaps, given the positions of the tiles under
    /// its four corners; none when a corner lies off the map.
    pub fn world_position_neighbours<'world>(
        &'world self,
        top_left: TilePosition,
        top_right: TilePosition,
        bottom_left: TilePosition,
        bottom_right: TilePosition,
    ) -> (r: Option<NeighbourTiles<'world>>)
        ensures
            r is Some <==> (spec_pos_to_index(top_left) is Some && spec_pos_to_index(top_right) is Some
                && spec_pos_to_index(bottom_left) is Some && spec_pos_to_index(bottom_right) is Some),
            r matches Some(n) ==> {
                &&& n.top_left.pos == top_left && self@.tile_at(top_left) == Some(n.top_left.tile@)
                &&& n.top_right.pos == top_right && self@.tile_at(top_right) == Some(n.top_right.tile@)
                &&& n.bottom_left.pos == bottom_left && self@.tile_at(bottom_left) == Some(n.bottom_left.tile@)
                &&& n.bottom_right.pos == bottom_right && self@.tile_at(bottom_right) == Some(n.bottom_right.tile@)
            },
    {
        proof {
            use_type_invariant(self);
        }
        let tl = match self.get_tile(top_left) {
            Some(t) => t,
            None => return None,
        };
        let tr = match self.get_tile(top_right) {
            Some(t) => t,
            None => return None,
        };
        let bl = match self.get_tile(bottom_left) {
            Some(t) => t,
            None => return None,
        };
        let br = match self.get_tile(bottom_right) {
            Some(t) => t,
            None => return None,
        };
        Some(NeighbourTiles {
            top_left: NeighbourTile { pos: top_left, tile: tl },
            top_right: NeighbourTile { pos: top_right, tile: tr },
            bottom_left: NeighbourTile { pos: bottom_left, tile: bl },
            bottom_right: NeighbourTile { pos: bottom_right, tile: br },
        })
    }
}

impl WorldMap {
    /// The tiles left of, right of, below and above `pos` that lie on the map, in that order.
    /// A position off the map has no neighbours.
    pub fn tile_neighbours(&self, pos: TilePosition) -> (r: Vec<(TilePosition, &MapTile)>)
        ensures
            ({
                let expected = match spec_pos_to_index(pos) {
                    Some(base) => tile_neighbours_upto(self@, base as int, 4),
                    None => Seq::empty(),
                };
                &&& r@.len() == expected.len()
                &&& forall|i: int|
                    0 <= i < r@.len() ==> (#[trigger] r@[i]).0 == expected[i].0 && r@[i].1@
                        == expected[i].1
            }),
    {
        proof {
            use_type_invariant(self);
        }
        let mut r: Vec<(TilePosition, &MapTile)> = Vec::new();
        let base_index = match WorldMap::pos_to_index(pos) {
            Some(b) => b,
            None => return r,
        };
        let increments: [isize; 4] = [-1, 1, -(TOTAL_MAP_WIDTH as isize), TOTAL_MAP_WIDTH as isize];
        let mut k: usize = 0;
        while k < 4
            invariant
                self@.well_formed(),
                spec_pos_to_index(pos) == Some(base_index as nat),
                base_index < 285,
                increments@ == seq![-1isize, 1isize, -19isize, 19isize],
                k <= 4,
                ({
                    let expected = tile_neighbours_upto(self@, base_index as int, k as int);
                    &&& r@.len() == expected.len()
                    &&& forall|i: int|
                        0 <= i < r@.len() ==> (#[trigger] r@[i]).0 == expected[i].0 && r@[i].1@
                            == expected[i].1
                }),
            decreases 4 - k,
        {
            let i = (base_index as isize + increments[k]) as usize;
            proof {
                assert(increments@[k as int] == neighbour_increment(k as int));
            }
            let pos = WorldMap::index_to_tile_pos(i);
            if let Some(tile) = self.get_tile(pos) {
                r.push((pos, tile));
            }
            k = k + 1;
        }
        r
    }
}

} // verus!
