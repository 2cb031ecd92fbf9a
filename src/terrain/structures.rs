use vstd::prelude::*;

use crate::layer::{in_grid, no_null, Layer};
use crate::terrain::random::gen_range;
use crate::terrain::settings::{settings_valid, GenerationSettings};
use crate::terrain::Terrain;
use crate::tile::{descriptor_of, Tile, TileDescriptor, TileId, Tree};

verus! {

/// Footprint (width, height) of a multi-cell structure.
pub open spec fn footprint(id: TileId) -> (u32, u32) {
    descriptor_of(id).dimensions.unwrap()
}

/// `id` names a structure with a footprint of at least one cell.
pub open spec fn is_structure(id: TileId) -> bool {
    &&& descriptor_of(id).dimensions.is_some()
    &&& footprint(id).0 > 0
    &&& footprint(id).1 > 0
}

/// Every cell of the `w` × `h` rectangle whose lower left corner is `(x, y)`
/// lies on the grid and is empty in both the front and the middle layer.
pub open spec fn footprint_free(t: Terrain, x: int, y: int, w: int, h: int) -> bool {
    &&& x + w <= t.width
    &&& y + h <= t.height
    &&& forall|i: int, j: int|
        x <= i < x + w && y <= j < y + h ==> #[trigger] t.front.cell(i, j).id == TileId::Empty
            && t.middle.cell(i, j).id == TileId::Empty
}

/// The cell `(i, j)` of a structure placed at `(x, y)`: its offset is counted
/// from the structure's top left corner.
pub open spec fn structure_tile(id: TileId, h: int, x: int, y: int, i: int, j: int) -> Tile {
    Tile { id, texture_offset: Some(((i - x) as u32, (h - 1 - (j - y)) as u32)) }
}

/// If `(x, y)` of `m` holds part of a multi-cell structure, it carries an
/// offset, and the whole footprint of that structure is there, each cell
/// with its own offset.
pub open spec fn footprint_whole(m: Layer<Tile>, x: int, y: int) -> bool {
    let c = m.cell(x, y);
    match descriptor_of(c.id).dimensions {
        Some((w, h)) => match c.texture_offset {
            Some((i, j)) => {
                let (x0, y0) = (x - i, y - (h - 1 - j));
                &&& i < w
                &&& j < h
                &&& forall|a: int, b: int|
                    0 <= a < w && 0 <= b < h ==> in_grid(m.width, m.height, x0 + a, y0 + b) && #[trigger] m.cell(
                        x0 + a,
                        y0 + b,
                    ) == structure_tile(c.id, h as int, x0, y0, x0 + a, y0 + b)
            },
            None => false,
        },
        None => true,
    }
}

/// Only whole structures stand in `m`.
pub open spec fn whole_footprints(m: Layer<Tile>) -> bool {
    forall|x: int, y: int| in_grid(m.width, m.height, x, y) ==> #[trigger] footprint_whole(m, x, y)
}

/// Filling empty cells, each of which then lies in a whole structure (or
/// in none), keeps only whole structures standing.
pub proof fn lemma_whole_preserved(m1: Layer<Tile>, m2: Layer<Tile>)
    requires
        whole_footprints(m1),
        m2.width == m1.width,
        m2.height == m1.height,
        forall|x: int, y: int|
            in_grid(m1.width, m1.height, x, y) ==> #[trigger] m2.cell(x, y) == m1.cell(x, y) || (m1.cell(x, y).id
                == TileId::Empty && footprint_whole(m2, x, y)),
    ensures
        whole_footprints(m2),
{
    assert forall|x: int, y: int| in_grid(m2.width, m2.height, x, y) implies #[trigger] footprint_whole(m2, x, y) by {
        if m2.cell(x, y) == m1.cell(x, y) {
            assert(footprint_whole(m1, x, y));
            let c = m1.cell(x, y);
            match descriptor_of(c.id).dimensions {
                Some((w, h)) => match c.texture_offset {
                    Some((i, j)) => {
                        let (x0, y0) = (x - i, y - (h - 1 - j));
                        assert forall|a: int, b: int| 0 <= a < w && 0 <= b < h implies in_grid(
                            m2.width,
                            m2.height,
                            x0 + a,
                            y0 + b,
                        ) && #[trigger] m2.cell(x0 + a, y0 + b) == structure_tile(c.id, h as int, x0, y0, x0 + a, y0 + b) by {
                            assert(m1.cell(x0 + a, y0 + b) == structure_tile(c.id, h as int, x0, y0, x0 + a, y0 + b));
                            assert(c.id != TileId::Empty);
                        }
                    },
                    None => {},
                },
                None => {},
            }
        }
    }
}

/// The grids, extents, seeds and settings agree; the middle layer and the
/// generator's state may differ.
pub open spec fn same_but_middle(a: Terrain, b: Terrain) -> bool {
    &&& a.width == b.width
    &&& a.height == b.height
    &&& a.seed == b.seed
    &&& a.value_seed == b.value_seed
    &&& a.surface_seed == b.surface_seed
    &&& a.settings == b.settings
    &&& a.front == b.front
    &&& a.back == b.back
    &&& a.nodes == b.nodes
}

/// `b` is `a` with some cells overwritten by parts of trees.
pub open spec fn trees_added(a: Layer<Tile>, b: Layer<Tile>) -> bool {
    &&& b.width == a.width
    &&& b.height == a.height
    &&& forall|x: int, y: int|
        in_grid(a.width, a.height, x, y) ==> #[trigger] b.cell(x, y) == a.cell(x, y) || b.cell(
            x,
            y,
        ).id is Tree
}

/// `b` is `a` with some empty cells filled by surface decorations.
pub open spec fn decor_added(a: Layer<Tile>, b: Layer<Tile>) -> bool {
    &&& b.width == a.width
    &&& b.height == a.height
    &&& forall|x: int, y: int|
        in_grid(a.width, a.height, x, y) ==> #[trigger] b.cell(x, y) == a.cell(x, y) || (a.cell(
            x,
            y,
        ).id == TileId::Empty && b.cell(x, y).id is SurfaceDecor)
}

impl Terrain {
    /// Places structure `id` with its lower left corner at `(x, y)` in the
    /// middle layer, if its whole footprint is free; otherwise changes nothing.
    pub fn place_structure(&mut self, id: TileId, x: u32, y: u32) -> (r: bool)
        requires
            old(self).wf(),
            is_structure(id),
        ensures
            r == footprint_free(*old(self), x as int, y as int, footprint(id).0 as int, footprint(id).1 as int),
            !r ==> *final(self) == *old(self),
            final(self).wf(),
            same_but_middle(*final(self), *old(self)),
            final(self).rng == old(self).rng,
            no_null(old(self).middle) ==> no_null(final(self).middle),
            r ==> forall|i: int, j: int|
                in_grid(old(self).width, old(self).height, i, j) ==> #[trigger] final(self).middle.cell(i, j) == if x <= i < x + footprint(id).0 && y <= j < y + footprint(id).1 {
                    structure_tile(id, footprint(id).1 as int, x as int, y as int, i, j)
                } else {
                    old(self).middle.cell(i, j)
                },
    {
        let (w, h) = match TileDescriptor::from_id(id).dimensions {
            Some(size) => size,
            None => (0, 0),
        };
        if x as u64 + w as u64 > self.width as u64 || y as u64 + h as u64 > self.height as u64 {
            return false;
        }
        let mut i: u32 = 0;
        while i < w
            invariant
                self.wf(),
                (w, h) == footprint(id),
                x + w <= self.width,
                y + h <= self.height,
                i <= w,
                forall|a: int, b: int|
                    x <= a < x + i && y <= b < y + h ==> #[trigger] self.front.cell(a, b).id
                        == TileId::Empty && self.middle.cell(a, b).id == TileId::Empty,
            decreases w - i,
        {
            let mut j: u32 = 0;
            while j < h
                invariant
                    self.wf(),
                    (w, h) == footprint(id),
                    x + w <= self.width,
                    y + h <= self.height,
                    i < w,
                    j <= h,
                    forall|a: int, b: int|
                        (x <= a < x + i && y <= b < y + h) || (a == x + i && y <= b < y + j)
                            ==> #[trigger] self.front.cell(a, b).id == TileId::Empty
                            && self.middle.cell(a, b).id == TileId::Empty,
                decreases h - j,
            {
                if self.front.at(x + i, y + j).id != TileId::Empty || self.middle.at(
                    x + i,
                    y + j,
                ).id != TileId::Empty {
                    assert(!footprint_free(*self, x as int, y as int, w as int, h as int)) by {
                        let (a, b) = ((x + i) as int, (y + j) as int);
                        assert(self.front.cell(a, b).id != TileId::Empty || self.middle.cell(
                            a,
                            b,
                        ).id != TileId::Empty);
                    }
                    return false;
                }
                j = j + 1;
            }
            i = i + 1;
        }
        let ghost before = *self;
        let mut i: u32 = 0;
        while i < w
            invariant
                self.wf(),
                (w, h) == footprint(id),
                x + w <= self.width,
                y + h <= self.height,
                i <= w,
                same_but_middle(*self, before),
                self.rng == before.rng,
                before.wf(),
                forall|a: int, b: int|
                    in_grid(before.width, before.height, a, b) ==> #[trigger] self.middle.cell(a, b)
                        == if x <= a < x + i && y <= b < y + h {
                        structure_tile(id, h as int, x as int, y as int, a, b)
                    } else {
                        before.middle.cell(a, b)
                    },
            decreases w - i,
        {
            let mut j: u32 = 0;
            while j < h
                invariant
                    self.wf(),
                    (w, h) == footprint(id),
                    x + w <= self.width,
                    y + h <= self.height,
                    i < w,
                    j <= h,
                    same_but_middle(*self, before),
                    self.rng == before.rng,
                    before.wf(),
                    forall|a: int, b: int|
                        in_grid(before.width, before.height, a, b) ==> #[trigger] self.middle.cell(
                            a,
                            b,
                        ) == if (x <= a < x + i && y <= b < y + h) || (a == x + i && y <= b < y
                            + j) {
                            structure_tile(id, h as int, x as int, y as int, a, b)
                        } else {
                            before.middle.cell(a, b)
                        },
                decreases h - j,
            {
                self.middle.set(x + i, y + j, Tile::new(id, Some((i, h - j - 1))));
                j = j + 1;
            }
            i = i + 1;
        }
        assert(id != TileId::Null);
        true
    }

    /// Grows a tree whose trunk stands on `(x, y)`: `trunk` cells of wood,
    /// the `h`-th with texture variant `variants[h]`, crowned by foliage
    /// centred above the trunk. When the foliage does not fit, nothing changes.
    pub fn grow_tree(&mut self, x: u32, y: u32, variants: &Vec<u32>) -> (r: bool)
        requires
            old(self).wf(),
            x >= 2,
        ensures
            r == (y + variants@.len() <= u32::MAX && footprint_free(
                *old(self),
                x - 2,
                y + variants@.len(),
                5,
                6,
            )),
            !r ==> *final(self) == *old(self),
            final(self).wf(),
            same_but_middle(*final(self), *old(self)),
            final(self).rng == old(self).rng,
            r ==> forall|i: int, j: int|
                in_grid(old(self).width, old(self).height, i, j) ==> #[trigger] final(self).middle.cell(i, j)
                    == tree_cell(old(self).middle, x as int, y as int, variants@, i, j),
    {
        let trunk = variants.len();
        if trunk > u32::MAX as usize || y as u64 + trunk as u64 > u32::MAX as u64 {
            return false;
        }
        let trunk = trunk as u32;
        let foliage = TileId::Tree(Tree::Foliage);
        assert(footprint(foliage) == (5u32, 6u32));
        if !self.place_structure(foliage, x - 2, y + trunk) {
            return false;
        }
        let ghost crowned = self.middle;
        let ghost placed = *self;
        let mut h: u32 = 0;
        while h < trunk
            invariant
                self.wf(),
                placed.wf(),
                same_but_middle(*self, placed),
                self.rng == placed.rng,
                x + 3 <= self.width,
                y + trunk < self.height,
                trunk == variants@.len(),
                h <= trunk,
                forall|i: int, j: int|
                    in_grid(placed.width, placed.height, i, j) ==> #[trigger] self.middle.cell(i, j)
                        == if i == x && y <= j < y + h {
                        Tile { id: TileId::Tree(Tree::Wood), texture_offset: Some((variants@[j - y], 0u32)) }
                    } else {
                        crowned.cell(i, j)
                    },
            decreases trunk - h,
        {
            self.middle.set(x, y + h, Tile::new(TileId::Tree(Tree::Wood), Some((variants[h as usize], 0))));
            h = h + 1;
        }
        true
    }

    /// Draws a trunk: its height from the configured range, then one
    /// texture variant per trunk cell.
    pub fn draw_trunk(&mut self) -> (r: Vec<u32>)
        requires
            old(self).wf(),
            settings_valid(old(self).settings),
        ensures
            final(self).wf(),
            same_but_middle(*final(self), *old(self)),
            final(self).middle == old(self).middle,
            trunk_drawn(old(self).settings, r@),
    {
        let trees = self.settings.trees;
        let trunk_height = gen_range(&mut self.rng, trees.trunk_height_start, trees.trunk_height_end);
        let mut variants: Vec<u32> = Vec::new();
        let mut h: u32 = 0;
        while h < trunk_height
            invariant
                self.wf(),
                same_but_middle(*self, *old(self)),
                self.middle == old(self).middle,
                self.settings.trees == trees,
                settings_valid(self.settings),
                h <= trunk_height,
                variants@.len() == h,
                forall|k: int| 0 <= k < h ==> #[trigger] variants@[k] < trees.trunk_variants - 1,
            decreases trunk_height - h,
        {
            variants.push(gen_range(&mut self.rng, 0, trees.trunk_variants - 1));
            h = h + 1;
        }
        variants
    }

    /// Grows a tree on `(x, y)` with a trunk height and texture variants
    /// drawn from the generator. When the foliage does not fit, nothing is
    /// placed.
    pub fn generate_tree(&mut self, x: u32, y: u32) -> (r: bool)
        requires
            old(self).wf(),
            settings_valid(old(self).settings),
            x >= 2,
        ensures
            final(self).wf(),
            same_but_middle(*final(self), *old(self)),
            !r ==> final(self).middle == old(self).middle,
            no_null(old(self).middle) ==> no_null(final(self).middle),
            trees_added(old(self).middle, final(self).middle),
            exists|v: Seq<u32>|
                #[trigger] trunk_drawn(old(self).settings, v) && r == (y + v.len() <= u32::MAX
                    && footprint_free(*old(self), x - 2, y + v.len(), 5, 6)) && (r ==> forall|i: int, j: int|
                    in_grid(old(self).width, old(self).height, i, j) ==> #[trigger] final(self).middle.cell(i, j)
                        == tree_cell(old(self).middle, x as int, y as int, v, i, j)),
    {
        let variants = self.draw_trunk();
        let ghost before = *self;
        let grown = self.grow_tree(x, y, &variants);
        assert forall|i: int, j: int|
            in_grid(before.width, before.height, i, j) implies #[trigger] self.middle.cell(i, j)
                == before.middle.cell(i, j) || self.middle.cell(i, j).id is Tree by {
            if grown {
                assert(self.middle.cell(i, j) == tree_cell(before.middle, x as int, y as int, variants@, i, j));
            }
        }
        assert(trunk_drawn(old(self).settings, variants@));
        grown
    }
}

/// `v` is a trunk the settings allow: its height lies in the trunk range and
/// each variant below the last one.
pub open spec fn trunk_drawn(s: GenerationSettings, v: Seq<u32>) -> bool {
    &&& s.trees.trunk_height_start <= v.len() < s.trees.trunk_height_end
    &&& forall|k: int| 0 <= k < v.len() ==> #[trigger] v[k] < s.trees.trunk_variants - 1
}

/// The middle cell `(i, j)` once a tree with the given trunk variants has
/// grown on `(x, y)` of `l`.
pub open spec fn tree_cell(l: Layer<Tile>, x: int, y: int, variants: Seq<u32>, i: int, j: int) -> Tile {
    let top = y + variants.len();
    if x - 2 <= i < x + 3 && top <= j < top + 6 {
        structure_tile(TileId::Tree(Tree::Foliage), 6, x - 2, top, i, j)
    } else if i == x && y <= j < top {
        Tile { id: TileId::Tree(Tree::Wood), texture_offset: Some((variants[j - y], 0u32)) }
    } else {
        l.cell(i, j)
    }
}

} // verus!
