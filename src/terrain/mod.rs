pub mod edit;
pub mod generate;
pub mod node;
pub mod random;
pub mod settings;
pub mod structures;

use rand_seeder::SipRng;
use vstd::prelude::*;

use crate::layer::{flag, in_grid, mask_of, occupied, Layer};
use crate::surrounds::{bit_count, lemma_count_at_most_eight, Surrounds};
use crate::terrain::node::PathTile;
use crate::terrain::random::{next_u32, seeded_rng};
use crate::terrain::settings::GenerationSettings;
use crate::tile::{Ground, Tile, TileId};

verus! {

// Layer indices
pub const FRONT: usize = 0;
pub const MIDDLE: usize = 1;
pub const BACK: usize = 2;
pub const TOTAL_LAYERS: usize = 3;

/// A layered tile world, with the walkability grid derived from its front layer.
pub struct Terrain {
    pub width: u32,
    pub height: u32,
    pub seed: String,
    pub rng: SipRng,
    /// Seeds of the cave and surface noise fields, the first two draws of `rng`.
    pub value_seed: u32,
    pub surface_seed: u32,
    pub settings: GenerationSettings,
    pub front: Layer<Tile>,
    pub middle: Layer<Tile>,
    pub back: Layer<Tile>,
    pub nodes: Layer<PathTile>,
}

/// `(x, y)` is a floor: occupied, with the three cells above it empty or off the grid.
pub open spec fn walkable_at(front: Layer<Tile>, x: int, y: int) -> bool {
    &&& occupied(front, x, y)
    &&& !occupied(front, x, y + 1)
    &&& !occupied(front, x, y + 2)
    &&& !occupied(front, x, y + 3)
}

/// What a smoothing pass makes of the cell at `(x, y)`.
pub open spec fn smoothed_id(l: Layer<Tile>, convert_min: u32, x: int, y: int) -> TileId {
    if bit_count(mask_of(l, x, y) as nat) >= convert_min {
        TileId::Ground(Ground::Stone)
    } else {
        TileId::Empty
    }
}

/// `g` marks `(x, y)` solid; cells off the `w` × `h` grid are not.
pub open spec fn solid_in(g: Seq<Seq<bool>>, w: u32, h: u32, x: int, y: int) -> bool {
    in_grid(w, h, x, y) && g[x][y]
}

/// Number of solid cells among the eight around `(x, y)`.
pub open spec fn solid_neighbours(g: Seq<Seq<bool>>, w: u32, h: u32, x: int, y: int) -> int {
    flag(solid_in(g, w, h, x - 1, y + 1), 1) + flag(solid_in(g, w, h, x, y + 1), 1) + flag(
        solid_in(g, w, h, x + 1, y + 1),
        1,
    ) + flag(solid_in(g, w, h, x - 1, y), 1) + flag(solid_in(g, w, h, x + 1, y), 1) + flag(
        solid_in(g, w, h, x - 1, y - 1),
        1,
    ) + flag(solid_in(g, w, h, x, y - 1), 1) + flag(solid_in(g, w, h, x + 1, y - 1), 1)
}

/// One smoothing pass over a grid of solid flags.
pub open spec fn smooth_pass(g: Seq<Seq<bool>>, w: u32, h: u32, convert_min: u32) -> Seq<Seq<bool>> {
    Seq::new(w as nat, |x: int| Seq::new(h as nat, |y: int| solid_neighbours(g, w, h, x, y) >= convert_min))
}

/// The solid flags after `n` smoothing passes over `g`.
pub open spec fn caves(g: Seq<Seq<bool>>, w: u32, h: u32, convert_min: u32, n: nat) -> Seq<Seq<bool>>
    decreases n,
{
    if n == 0 {
        g
    } else {
        smooth_pass(caves(g, w, h, convert_min, (n - 1) as nat), w, h, convert_min)
    }
}

/// The solid flags laid down before smoothing: dense cells at or below each
/// column's surface height.
pub open spec fn base_solids(max_heights: Seq<u32>, dense: Seq<Vec<bool>>, w: u32, h: u32) -> Seq<Seq<bool>> {
    Seq::new(w as nat, |x: int| Seq::new(h as nat, |y: int| y <= max_heights[x] && dense[x]@[y]))
}

/// A smoothing pass never makes more cells solid when more neighbours are
/// required.
pub proof fn lemma_smooth_monotone(l: Layer<Tile>, c1: u32, c2: u32, x: int, y: int)
    requires
        c1 <= c2,
    ensures
        smoothed_id(l, c2, x, y) == TileId::Ground(Ground::Stone) ==> smoothed_id(l, c1, x, y)
            == TileId::Ground(Ground::Stone),
{
}

pub open spec fn smoothed_tile(l: Layer<Tile>, convert_min: u32, x: int, y: int) -> Tile {
    Tile { id: smoothed_id(l, convert_min, x, y), texture_offset: None }
}

/// A smoothing pass makes every cell solid when no neighbour is needed, and
/// every cell empty when more neighbours are needed than a cell has.
pub proof fn lemma_smooth_extremes(l: Layer<Tile>, x: int, y: int)
    ensures
        smoothed_id(l, 0, x, y) == TileId::Ground(Ground::Stone),
        smoothed_id(l, 9, x, y) == TileId::Empty,
{
    lemma_count_at_most_eight(mask_of(l, x, y));
}

impl Terrain {
    /// All grids are well formed and share the terrain's extents.
    pub open spec fn wf(&self) -> bool {
        &&& self.front.wf() && self.front.width == self.width && self.front.height == self.height
        &&& self.middle.wf() && self.middle.width == self.width && self.middle.height
            == self.height
        &&& self.back.wf() && self.back.width == self.width && self.back.height == self.height
        &&& self.nodes.wf() && self.nodes.width == self.width && self.nodes.height == self.height
    }

    /// The walkability grid agrees with the front layer everywhere.
    pub open spec fn walkability_consistent(&self) -> bool {
        forall|x: int, y: int|
            in_grid(self.width, self.height, x, y) ==> ((#[trigger] self.nodes.cell(x, y))
                == PathTile::Walkable <==> walkable_at(self.front, x, y))
    }

    /// The layer with index `i`.
    pub open spec fn layer_view(&self, i: usize) -> Layer<Tile> {
        if i == FRONT {
            self.front
        } else if i == MIDDLE {
            self.middle
        } else {
            self.back
        }
    }

    /// A terrain of the given extents, every cell `Null` and not walkable,
    /// with its generator seeded from `seed` (or from "7").
    pub fn new(seed: Option<String>, settings: GenerationSettings, width: u32, height: u32) -> (r:
        Terrain)
        ensures
            r.wf(),
            r.width == width,
            r.height == height,
            r.settings == settings,
            seed.is_some() ==> r.seed == seed.unwrap(),
            seed.is_none() ==> r.seed@ == "7"@,
            forall|x: int, y: int|
                in_grid(width, height, x, y) ==> {
                    &&& r.front.cell(x, y).id == TileId::Null
                    &&& r.middle.cell(x, y).id == TileId::Null
                    &&& r.back.cell(x, y).id == TileId::Null
                    &&& r.nodes.cell(x, y) == PathTile::NonWalkable
                },
    {
        let seed = match seed {
            Some(s) => s,
            None => "7".to_owned(),
        };
        let mut rng = seeded_rng(&seed);
        let value_seed = next_u32(&mut rng);
        let surface_seed = next_u32(&mut rng);
        Terrain {
            width,
            height,
            seed,
            rng,
            value_seed,
            surface_seed,
            settings,
            front: Layer::new(width, height, Tile::null()),
            middle: Layer::new(width, height, Tile::null()),
            back: Layer::new(width, height, Tile::null()),
            nodes: Layer::new(width, height, PathTile::NonWalkable),
        }
    }

    /// The layer with index `i`.
    pub fn layer(&self, i: usize) -> (r: &Layer<Tile>)
        requires
            i < TOTAL_LAYERS,
        ensures
            *r == self.layer_view(i),
    {
        if i == FRONT {
            &self.front
        } else if i == MIDDLE {
            &self.middle
        } else {
            &self.back
        }
    }

    /// The neighbour mask of `(x, y)` in layer `layer`.
    pub fn get_surrounds(&self, layer: usize, x: u32, y: u32) -> (r: Surrounds)
        requires
            self.wf(),
            layer < TOTAL_LAYERS,
        ensures
            r.bits == mask_of(self.layer_view(layer), x as int, y as int),
    {
        self.layer(layer).get_surrounds(x, y)
    }

    /// Whether `(x, y)` is a floor of the front layer.
    pub fn is_walkable_floor(&self, x: u32, y: u32) -> (r: bool)
        requires
            self.wf(),
        ensures
            r == walkable_at(self.front, x as int, y as int),
    {
        let (x, y) = (x as i64, y as i64);
        self.front.is_occupied(x, y) && !self.front.is_occupied(x, y + 1)
            && !self.front.is_occupied(x, y + 2) && !self.front.is_occupied(x, y + 3)
    }

    /// One cellular-automaton pass over the front layer, read from the
    /// current grid and written to a fresh one.
    pub fn smooth(&self) -> (r: Layer<Tile>)
        requires
            self.wf(),
        ensures
            r.wf(),
            r.width == self.width,
            r.height == self.height,
            forall|x: int, y: int|
                in_grid(self.width, self.height, x, y) ==> (#[trigger] r.cell(x, y)) == smoothed_tile(self.front, self.settings.caves.convert_min, x, y),
    {
        let convert_min = self.settings.caves.convert_min;
        let mut output = Layer::new(self.width, self.height, Tile::empty());
        let mut x: u32 = 0;
        while x < self.width
            invariant
                self.wf(),
                x <= self.width,
                output.wf(),
                output.width == self.width,
                output.height == self.height,
                forall|i: int, j: int|
                    0 <= i < x && 0 <= j < self.height ==> (#[trigger] output.cell(i, j)) == smoothed_tile(self.front, convert_min, i, j),
            decreases self.width - x,
        {
            let mut y: u32 = 0;
            while y < self.height
                invariant
                    self.wf(),
                    x < self.width,
                    y <= self.height,
                    output.wf(),
                    output.width == self.width,
                    output.height == self.height,
                    forall|i: int, j: int|
                        (0 <= i < x && 0 <= j < self.height) || (i == x && 0 <= j < y)
                            ==> (#[trigger] output.cell(i, j)) == smoothed_tile(self.front, convert_min, i, j),
                decreases self.height - y,
            {
                let count = self.get_surrounds(FRONT, x, y).count();
                if count >= convert_min {
                    output.set(x, y, Tile::new(TileId::Ground(Ground::Stone), None));
                } else {
                    output.set(x, y, Tile::empty());
                }
                y = y + 1;
            }
            x = x + 1;
        }
        output
    }

    /// Derives the walkability grid from the front layer.
    pub fn generate_path_tiles(&mut self)
        requires
            old(self).wf(),
        ensures
            final(self).wf(),
            final(self).walkability_consistent(),
            final(self).front == old(self).front,
            final(self).middle == old(self).middle,
            final(self).back == old(self).back,
            final(self).width == old(self).width,
            final(self).height == old(self).height,
            final(self).settings == old(self).settings,
            final(self).seed == old(self).seed,
    {
        let mut nodes = Layer::new(self.width, self.height, PathTile::NonWalkable);
        let mut x: u32 = 0;
        while x < self.width
            invariant
                self.wf(),
                x <= self.width,
                nodes.wf(),
                nodes.width == self.width,
                nodes.height == self.height,
                forall|i: int, j: int|
                    0 <= i < x && 0 <= j < self.height ==> ((#[trigger] nodes.cell(i, j))
                        == PathTile::Walkable <==> walkable_at(self.front, i, j)),
            decreases self.width - x,
        {
            let mut y: u32 = 0;
            while y < self.height
                invariant
                    self.wf(),
                    x < self.width,
                    y <= self.height,
                    nodes.wf(),
                    nodes.width == self.width,
                    nodes.height == self.height,
                    forall|i: int, j: int|
                        (0 <= i < x && 0 <= j < self.height) || (i == x && 0 <= j < y)
                            ==> ((#[trigger] nodes.cell(i, j)) == PathTile::Walkable
                            <==> walkable_at(self.front, i, j)),
                decreases self.height - y,
            {
                if self.is_walkable_floor(x, y) {
                    nodes.set(x, y, PathTile::Walkable);
                } else {
                    nodes.set(x, y, PathTile::NonWalkable);
                }
                y = y + 1;
            }
            x = x + 1;
        }
        self.nodes = nodes;
    }
}

} // verus!
