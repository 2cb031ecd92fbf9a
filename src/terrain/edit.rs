use vstd::prelude::*;

use crate::layer::{
    in_grid,
    lemma_same_occupancy_same_mask,
    mask_of,
    near,
    occupied,
    same_occupancy,
    Layer,
};
use crate::surrounds::offset_of_mask;
use crate::terrain::node::PathTile;
use crate::terrain::{walkable_at, Terrain, BACK, FRONT, MIDDLE, TOTAL_LAYERS};
use crate::tile::{Tile, TileId};

verus! {

/// The cell `(i, j)` of `l` once `(x, y)` holds `t`.
pub open spec fn placed(l: Layer<Tile>, x: int, y: int, t: Tile, i: int, j: int) -> Tile {
    if i == x && j == y {
        t
    } else {
        l.cell(i, j)
    }
}

/// `b` is `a` with `t` written at `(x, y)`; when `retexture` holds, the
/// occupied cells of the 3 × 3 block around it then carry the offsets their
/// masks in `b` select. No other cell differs.
pub open spec fn edited(a: Layer<Tile>, b: Layer<Tile>, x: int, y: int, t: Tile, retexture: bool) -> bool {
    &&& b.wf()
    &&& b.width == a.width
    &&& b.height == a.height
    &&& forall|i: int, j: int|
        in_grid(a.width, a.height, i, j) ==> #[trigger] b.cell(i, j) == if retexture && near(x, y, i, j)
            && placed(a, x, y, t, i, j).id != TileId::Empty {
            Tile {
                id: placed(a, x, y, t, i, j).id,
                texture_offset: Some(offset_of_mask(mask_of(b, i, j))),
            }
        } else {
            placed(a, x, y, t, i, j)
        }
}

/// Everything but the layer with index `layer` and the walkability grid is unchanged.
pub open spec fn same_but_layer(a: Terrain, b: Terrain, layer: usize) -> bool {
    &&& a.width == b.width
    &&& a.height == b.height
    &&& a.seed == b.seed
    &&& a.settings == b.settings
    &&& a.value_seed == b.value_seed
    &&& a.surface_seed == b.surface_seed
    &&& layer != FRONT ==> a.front == b.front
    &&& layer != MIDDLE ==> a.middle == b.middle
    &&& layer != BACK ==> a.back == b.back
}

impl Terrain {
    /// Recomputes the walkability of the cells of column `x` whose headroom
    /// reaches `(x, y)`; the grid must already be right everywhere else.
    fn refresh_walkability(&mut self, x: u32, y: u32)
        requires
            old(self).wf(),
            x < old(self).width,
            y < old(self).height,
            forall|i: int, j: int|
                in_grid(old(self).width, old(self).height, i, j) && !(i == x && y - 3 <= j <= y)
                    ==> ((#[trigger] old(self).nodes.cell(i, j)) == PathTile::Walkable <==> walkable_at(
                    old(self).front,
                    i,
                    j,
                )),
        ensures
            final(self).wf(),
            final(self).walkability_consistent(),
            final(self).front == old(self).front,
            final(self).middle == old(self).middle,
            final(self).back == old(self).back,
            final(self).width == old(self).width,
            final(self).height == old(self).height,
            final(self).seed == old(self).seed,
            final(self).settings == old(self).settings,
            final(self).value_seed == old(self).value_seed,
            final(self).surface_seed == old(self).surface_seed,
    {
        let mut j: u32 = if y >= 3 {
            y - 3
        } else {
            0
        };
        while j <= y
            invariant
                self.wf(),
                self.front == old(self).front,
                self.middle == old(self).middle,
                self.back == old(self).back,
                self.width == old(self).width,
                self.height == old(self).height,
                self.seed == old(self).seed,
                self.settings == old(self).settings,
                self.value_seed == old(self).value_seed,
                self.surface_seed == old(self).surface_seed,
                x < self.width,
                y < self.height,
                y - 3 <= j <= y + 1,
                forall|a: int, b: int|
                    in_grid(self.width, self.height, a, b) && !(a == x && j <= b <= y)
                        ==> ((#[trigger] self.nodes.cell(a, b)) == PathTile::Walkable <==> walkable_at(
                        self.front,
                        a,
                        b,
                    )),
            decreases y + 1 - j,
        {
            if self.is_walkable_floor(x, j) {
                self.nodes.set(x, j, PathTile::Walkable);
            } else {
                self.nodes.set(x, j, PathTile::NonWalkable);
            }
            j = j + 1;
        }
    }

    /// Writes `tile` at `(x, y)` of layer `layer` and repairs what depends on
    /// it: the textures of the 3 × 3 block in the front and background layers,
    /// and the walkability below the cell.
    fn apply_edit(&mut self, layer: usize, x: u32, y: u32, tile: Tile)
        requires
            old(self).wf(),
            old(self).walkability_consistent(),
            layer < TOTAL_LAYERS,
            x < old(self).width,
            y < old(self).height,
        ensures
            final(self).wf(),
            final(self).walkability_consistent(),
            same_but_layer(*old(self), *final(self), layer),
            edited(
                old(self).layer_view(layer),
                final(self).layer_view(layer),
                x as int,
                y as int,
                tile,
                layer != MIDDLE,
            ),
    {
        if layer == MIDDLE {
            self.middle.set(x, y, tile);
            return;
        }
        let ghost l0 = self.layer_view(layer);
        if layer == FRONT {
            self.front.set(x, y, tile);
        } else {
            self.back.set(x, y, tile);
        }
        let ghost l1 = self.layer_view(layer);
        if layer == FRONT {
            self.front.update_surrounds(x, y);
        } else {
            self.back.update_surrounds(x, y);
        }
        let ghost l2 = self.layer_view(layer);
        assert forall|i: int, j: int| in_grid(l0.width, l0.height, i, j) implies #[trigger] l2.cell(i, j)
            == if near(x as int, y as int, i, j) && placed(l0, x as int, y as int, tile, i, j).id
            != TileId::Empty {
            Tile {
                id: placed(l0, x as int, y as int, tile, i, j).id,
                texture_offset: Some(offset_of_mask(mask_of(l2, i, j))),
            }
        } else {
            placed(l0, x as int, y as int, tile, i, j)
        } by {
            assert(l1.cell(i, j) == placed(l0, x as int, y as int, tile, i, j));
            lemma_same_occupancy_same_mask(l2, l1, i, j);
        }
        if layer == FRONT {
            let ghost front0 = old(self).front;
            assert forall|i: int, k: int| !(i == x && k == y) implies occupied(self.front, i, k)
                == occupied(front0, i, k) by {
                if in_grid(self.width, self.height, i, k) {
                    assert(l1.cell(i, k) == front0.cell(i, k));
                    assert(self.front.cell(i, k).id == l1.cell(i, k).id);
                }
            }
            assert forall|i: int, j: int|
                in_grid(self.width, self.height, i, j) && !(i == x && y - 3 <= j <= y) implies ((
            #[trigger] self.nodes.cell(i, j)) == PathTile::Walkable <==> walkable_at(
                self.front,
                i,
                j,
            )) by {
                assert(occupied(self.front, i, j) == occupied(front0, i, j));
                assert(occupied(self.front, i, j + 1) == occupied(front0, i, j + 1));
                assert(occupied(self.front, i, j + 2) == occupied(front0, i, j + 2));
                assert(occupied(self.front, i, j + 3) == occupied(front0, i, j + 3));
            }
            self.refresh_walkability(x, y);
        }
    }

    /// Places `tile` at `(x, y)` of layer `layer`. Refused, with nothing
    /// changed, when the cell is off the grid or already occupied.
    pub fn insert_tile(&mut self, layer: usize, x: u32, y: u32, tile: Tile) -> (r: bool)
        requires
            old(self).wf(),
            old(self).walkability_consistent(),
            layer < TOTAL_LAYERS,
        ensures
            final(self).wf(),
            final(self).walkability_consistent(),
            r == (x < old(self).width && y < old(self).height && old(self).layer_view(layer).cell(
                x as int,
                y as int,
            ).id == TileId::Empty),
            !r ==> *final(self) == *old(self),
            r ==> same_but_layer(*old(self), *final(self), layer),
            r ==> edited(
                old(self).layer_view(layer),
                final(self).layer_view(layer),
                x as int,
                y as int,
                tile,
                layer != MIDDLE,
            ),
    {
        if x >= self.width || y >= self.height {
            return false;
        }
        if self.layer(layer).at(x, y).id != TileId::Empty {
            return false;
        }
        self.apply_edit(layer, x, y, tile);
        true
    }

    /// Empties `(x, y)` of layer `layer`. Reports `false`, with nothing
    /// changed, when there was nothing to remove.
    pub fn remove_tile(&mut self, layer: usize, x: u32, y: u32) -> (r: bool)
        requires
            old(self).wf(),
            old(self).walkability_consistent(),
            layer < TOTAL_LAYERS,
        ensures
            final(self).wf(),
            final(self).walkability_consistent(),
            r == (x < old(self).width && y < old(self).height && old(self).layer_view(layer).cell(
                x as int,
                y as int,
            ).id != TileId::Empty),
            !r ==> *final(self) == *old(self),
            r ==> same_but_layer(*old(self), *final(self), layer),
            r ==> edited(
                old(self).layer_view(layer),
                final(self).layer_view(layer),
                x as int,
                y as int,
                Tile { id: TileId::Empty, texture_offset: None },
                layer != MIDDLE,
            ),
    {
        if x >= self.width || y >= self.height {
            return false;
        }
        if self.layer(layer).at(x, y).id == TileId::Empty {
            return false;
        }
        self.apply_edit(layer, x, y, Tile::empty());
        true
    }
}

} // verus!
