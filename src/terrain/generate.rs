use vstd::prelude::*;

use crate::layer::{in_grid, no_null, occupied, same_occupancy, textures_resolved, Layer};
use crate::terrain::random::gen_range;
use crate::terrain::settings::settings_valid;
use crate::terrain::structures::{
    decor_added,
    footprint_free,
    footprint_whole,
    lemma_whole_preserved,
    trunk_drawn,
    whole_footprints,
    is_structure,
    same_but_middle,
    structure_tile,
    tree_cell,
    trees_added,
};
use crate::layer::{lemma_mask_count, lemma_same_occupancy_same_mask};
use crate::terrain::{base_solids, caves, solid_in, smoothed_tile, Terrain};
use crate::tile::{descriptor_of, Background, Ground, Ore, SurfaceDecor, Tile, TileDescriptor, TileId, Tree};

verus! {

/// `(x, y)` is the highest occupied cell of its column.
pub open spec fn is_column_top(l: Layer<Tile>, x: int, y: int) -> bool {
    &&& occupied(l, x, y)
    &&& forall|k: int| y < k < l.height ==> !#[trigger] occupied(l, x, k)
}

/// The front cell laid down before smoothing.
pub open spec fn base_front(max_height: u32, dense: bool, y: int) -> Tile {
    if y <= max_height && dense {
        Tile { id: TileId::Ground(Ground::Stone), texture_offset: None }
    } else {
        Tile { id: TileId::Empty, texture_offset: None }
    }
}

/// The background cell laid down before smoothing.
pub open spec fn base_back(max_height: u32, offset: u32, y: int) -> Tile {
    if y + offset <= max_height {
        Tile { id: TileId::Background(Background::Stone), texture_offset: None }
    } else {
        Tile { id: TileId::Empty, texture_offset: None }
    }
}

pub open spec fn dirt_tile() -> Tile {
    Tile { id: TileId::Ground(Ground::Dirt), texture_offset: None }
}

pub open spec fn back_dirt_tile() -> Tile {
    Tile { id: TileId::Background(Background::Dirt), texture_offset: None }
}

/// `(x, y)` can carry a tree: it tops its column and both side neighbours
/// are occupied.
pub open spec fn tree_site_at(l: Layer<Tile>, x: int, y: int) -> bool {
    is_column_top(l, x, y) && occupied(l, x - 1, y) && occupied(l, x + 1, y)
}

/// `(x, y)` can carry a decoration: it tops its column and its left
/// neighbour is occupied.
pub open spec fn decor_site_at(l: Layer<Tile>, x: int, y: int) -> bool {
    is_column_top(l, x, y) && occupied(l, x - 1, y)
}

/// `t` at `(i, j)` belongs to a tree grown on the tree site below `(x0, y0)`
/// over the middle layer `m`, in front of an empty cell.
pub open spec fn tree_origin(
    front: Layer<Tile>,
    m: Layer<Tile>,
    t: Tile,
    i: int,
    j: int,
    x0: int,
    y0: int,
    v: Seq<u32>,
) -> bool {
    tree_site_at(front, x0, y0 - 1) && t == tree_cell(m, x0, y0, v, i, j) && !occupied(front, i, j)
}

/// Every cell of `b` that differs from `a` belongs to a tree grown on a tree
/// site of `front`.
pub open spec fn trees_grown(front: Layer<Tile>, a: Layer<Tile>, b: Layer<Tile>) -> bool {
    forall|i: int, j: int|
        in_grid(a.width, a.height, i, j) && #[trigger] b.cell(i, j) != a.cell(i, j) ==> exists|
            x0: int,
            y0: int,
            v: Seq<u32>,
        | #[trigger] tree_origin(front, a, b.cell(i, j), i, j, x0, y0, v)
}

/// Columns a decoration spans.
pub open spec fn decor_span(id: TileId) -> int {
    match descriptor_of(id).dimensions {
        Some((w, _)) => w as int,
        None => 1,
    }
}

/// The middle cell `(i, j)` once decoration `id` stands on `(x0, y0)` of `m`.
pub open spec fn decor_cell(m: Layer<Tile>, x0: int, y0: int, id: TileId, i: int, j: int) -> Tile {
    match descriptor_of(id).dimensions {
        Some((w, h)) => if x0 <= i < x0 + w && y0 <= j < y0 + h {
            structure_tile(id, h as int, x0, y0, i, j)
        } else {
            m.cell(i, j)
        },
        None => if i == x0 && j == y0 {
            Tile { id, texture_offset: None }
        } else {
            m.cell(i, j)
        },
    }
}

/// Decoration `id` fits on the decoration site `(x, y)`: the cell above is
/// on the grid; a single cell needs an occupied right neighbour and a free
/// middle cell above, a wider one an occupied floor under all its columns and
/// a free footprint.
pub open spec fn decor_fits(t: Terrain, id: TileId, x: int, y: int) -> bool {
    &&& y + 1 < t.height
    &&& match descriptor_of(id).dimensions {
        Some((w, h)) => floor_ok(t.front, x, y, w as int) && footprint_free(t, x, y + 1, w as int, h as int),
        None => occupied(t.front, x + 1, y) && t.middle.cell(x, y + 1).id == TileId::Empty,
    }
}

/// The `w` cells from `(x, y)` rightwards lie on the grid and are occupied.
pub open spec fn floor_ok(l: Layer<Tile>, x: int, y: int, w: int) -> bool {
    x + w <= l.width && forall|k: int| 0 <= k < w ==> #[trigger] occupied(l, x + k, y)
}

/// Where decoration `id` lands on `(x0, y0)`, the middle cell of `t` was empty.
pub open spec fn before_empty(t: Terrain, id: TileId, x0: int, y0: int, i: int, j: int) -> bool {
    decor_cell(t.middle, x0, y0, id, i, j) != t.middle.cell(i, j) ==> t.middle.cell(i, j).id == TileId::Empty
}

/// `t` at `(i, j)` belongs to decoration number `k` placed on the decoration
/// site below `(x0, y0)` over the middle layer `m`, in front of an empty cell.
pub open spec fn decor_origin(
    front: Layer<Tile>,
    m: Layer<Tile>,
    t: Tile,
    i: int,
    j: int,
    x0: int,
    y0: int,
    k: u32,
) -> bool {
    k < 4 && decor_site_at(front, x0, y0 - 1) && t == decor_cell(m, x0, y0, decor_of(k), i, j) && !occupied(
        front,
        i,
        j,
    )
}

/// Every cell of `b` that differs from `a` belongs to a decoration placed on
/// a decoration site of `front`.
pub open spec fn decor_grown(front: Layer<Tile>, a: Layer<Tile>, b: Layer<Tile>) -> bool {
    forall|i: int, j: int|
        in_grid(a.width, a.height, i, j) && #[trigger] b.cell(i, j) != a.cell(i, j) ==> exists|
            x0: int,
            y0: int,
            k: u32,
        | #[trigger] decor_origin(front, a, b.cell(i, j), i, j, x0, y0, k)
}

pub open spec fn ore_tile(id: TileId) -> Tile {
    Tile { id, texture_offset: None }
}

/// A cell at squared distance `dist2` from a vein's centre takes the ore on
/// a draw out of `radius * 1000` that reaches a thousand times the distance.
pub open spec fn ore_takes(draw: u32, dist2: int) -> bool {
    draw as int * draw as int >= dist2 * 1000000
}

/// `(i, j)` lies in the square of side `2 * r` whose centre is `(cx, cy)`.
pub open spec fn in_vein(i: int, j: int, cx: int, cy: int, r: int) -> bool {
    cx - r <= i < cx + r && cy - r <= j < cy + r
}

/// `b` is `a` with some occupied cells of the vein around `(cx, cy)` turned
/// into ore `id`.
pub open spec fn vein_stamped(a: Layer<Tile>, b: Layer<Tile>, id: TileId, cx: int, cy: int, r: int) -> bool {
    &&& b.width == a.width
    &&& b.height == a.height
    &&& forall|i: int, j: int|
        in_grid(a.width, a.height, i, j) ==> (#[trigger] b.cell(i, j) == a.cell(i, j) || (b.cell(i, j)
            == ore_tile(id) && in_vein(i, j, cx, cy, r) && occupied(a, i, j)))
}

/// Ore `t` at `(i, j)` came from a vein centred on the occupied cell
/// `(cx, cy)` of the ore band, whose row allows that ore.
pub open spec fn ore_source(front: Layer<Tile>, ore_height: u32, t: Tile, i: int, j: int, cx: int, cy: int) -> bool {
    &&& t.id is Ore
    &&& t.texture_offset == None::<(u32, u32)>
    &&& occupied(front, cx, cy)
    &&& 0 <= cy < front.height as int * ore_height as int / 1000
    &&& ores_allowed(front.height, ore_height, cy as u32).contains(t.id)
    &&& in_vein(i, j, cx, cy, descriptor_of(t.id).ore.unwrap().radius as int)
}

/// Every cell of `b` that differs from `a` is ore from a vein of `a`.
pub open spec fn ores_traced(a: Layer<Tile>, b: Layer<Tile>, ore_height: u32) -> bool {
    forall|i: int, j: int|
        in_grid(a.width, a.height, i, j) && #[trigger] b.cell(i, j) != a.cell(i, j) ==> exists|cx: int, cy: int|
            #[trigger] ore_source(a, ore_height, b.cell(i, j), i, j, cx, cy)
}

/// A column has at most one top.
pub proof fn lemma_column_top_unique(l: Layer<Tile>, x: int, y: int, z: int)
    requires
        is_column_top(l, x, y),
        is_column_top(l, x, z),
    ensures
        y == z,
{
    if y < z {
        assert(occupied(l, x, z));
    } else if z < y {
        assert(occupied(l, x, y));
    }
}

/// Highest row at which `ore` appears in a world `height` rows high, whose
/// ore band reaches `ore_height` thousandths of it.
pub open spec fn ore_limit(ore: TileId, height: u32, ore_height: u32) -> int {
    descriptor_of(ore).ore.unwrap().max_height_percent as int * (height as int * ore_height as int)
        / 100000
}

/// The ores that may appear at row `y`, in catalogue order.
pub open spec fn ores_allowed(height: u32, ore_height: u32, y: u32) -> Seq<TileId> {
    let iron = TileId::Ore(Ore::Iron);
    let gold = TileId::Ore(Ore::Gold);
    (if ore_limit(iron, height, ore_height) >= y {
        seq![iron]
    } else {
        Seq::empty()
    }) + (if ore_limit(gold, height, ore_height) >= y {
        seq![gold]
    } else {
        Seq::empty()
    })
}

pub open spec fn grass_tile() -> Tile {
    Tile { id: TileId::Ground(Ground::Grass), texture_offset: None }
}

/// `b` is `a`, or an ore (without texture offset) that replaced the occupied cell `a`.
pub open spec fn ore_or_same(a: Tile, b: Tile) -> bool {
    b == a || (a.id != TileId::Empty && b.id is Ore && b.texture_offset == None::<(u32, u32)>)
}

/// `b` arises from `a` by turning some occupied cells into ore.
pub open spec fn ore_scattered(a: Layer<Tile>, b: Layer<Tile>) -> bool {
    &&& same_occupancy(b, a)
    &&& forall|x: int, y: int|
        in_grid(a.width, a.height, x, y) ==> ore_or_same(a.cell(x, y), #[trigger] b.cell(x, y))
}

/// The surface decoration with index `i`.
pub open spec fn decor_of(i: u32) -> TileId {
    if i == 0 {
        TileId::SurfaceDecor(SurfaceDecor::GrassSmall)
    } else if i == 1 {
        TileId::SurfaceDecor(SurfaceDecor::Rock)
    } else if i == 2 {
        TileId::SurfaceDecor(SurfaceDecor::GrassMedium)
    } else {
        TileId::SurfaceDecor(SurfaceDecor::RockPile)
    }
}

fn decor_id(i: u32) -> (r: TileId)
    requires
        i < 4,
    ensures
        r == decor_of(i),
        descriptor_of(r).dimensions.is_some() ==> is_structure(r),
{
    if i == 0 {
        TileId::SurfaceDecor(SurfaceDecor::GrassSmall)
    } else if i == 1 {
        TileId::SurfaceDecor(SurfaceDecor::Rock)
    } else if i == 2 {
        TileId::SurfaceDecor(SurfaceDecor::GrassMedium)
    } else {
        TileId::SurfaceDecor(SurfaceDecor::RockPile)
    }
}

/// An empty cell carries no texture offset.
pub open spec fn bare_if_empty(t: Tile) -> bool {
    t.id == TileId::Empty ==> t.texture_offset == None::<(u32, u32)>
}

pub open spec fn ground_kind(t: Tile) -> bool {
    bare_if_empty(t) && (t.id == TileId::Empty || t.id is Ground || t.id is Ore)
}

pub open spec fn background_kind(t: Tile) -> bool {
    bare_if_empty(t) && (t.id == TileId::Empty || t.id is Background)
}

/// Before stratification the front holds only stone and empty cells, the
/// background only background stone and empty cells.
pub open spec fn unlayered(front: Layer<Tile>, back: Layer<Tile>) -> bool {
    forall|x: int, y: int|
        in_grid(front.width, front.height, x, y) ==> {
            let (f, b) = (#[trigger] front.cell(x, y).id, back.cell(x, y).id);
            &&& f == TileId::Empty || f == TileId::Ground(Ground::Stone)
            &&& b == TileId::Empty || b == TileId::Background(Background::Stone)
        }
}

/// In each column `x`, dirt lies at or above row `d[x]` and stone below it,
/// in the front and the background alike.
pub open spec fn dirt_line(front: Layer<Tile>, back: Layer<Tile>, d: Seq<u32>) -> bool {
    &&& d.len() == front.width
    &&& forall|x: int, y: int|
        in_grid(front.width, front.height, x, y) ==> {
            let (f, b) = (#[trigger] front.cell(x, y).id, back.cell(x, y).id);
            &&& (f == TileId::Ground(Ground::Dirt) || b == TileId::Background(Background::Dirt))
                ==> y >= d[x]
            &&& (f == TileId::Ground(Ground::Stone) || b == TileId::Background(Background::Stone))
                ==> y < d[x]
        }
}

/// Each column's dirt line lies at its base line or above it, by less than
/// the jitter (by nothing when there is no jitter).
pub open spec fn dirt_within(d: Seq<u32>, bases: Seq<u32>, jitter: u32) -> bool {
    &&& d.len() == bases.len()
    &&& forall|x: int|
        0 <= x < d.len() ==> bases[x] <= #[trigger] d[x] < bases[x] + if jitter > 0 {
            jitter as int
        } else {
            1
        }
}

/// No front cell is grass.
pub open spec fn no_grass(l: Layer<Tile>) -> bool {
    forall|x: int, y: int|
        in_grid(l.width, l.height, x, y) ==> (#[trigger] l.cell(x, y)).id != TileId::Ground(Ground::Grass)
}

/// Exactly the highest occupied cell of each column is grass.
pub open spec fn grass_on_tops(l: Layer<Tile>) -> bool {
    forall|x: int, y: int|
        in_grid(l.width, l.height, x, y) ==> ((#[trigger] l.cell(x, y)).id == TileId::Ground(Ground::Grass)
            <==> is_column_top(l, x, y))
}

/// Trees and decorations stand only in front of empty cells.
pub open spec fn vegetation_over_air(front: Layer<Tile>, middle: Layer<Tile>) -> bool {
    forall|x: int, y: int|
        in_grid(front.width, front.height, x, y) && (#[trigger] middle.cell(x, y)).id != TileId::Empty
            ==> front.cell(x, y).id == TileId::Empty
}

/// The front layer holds nothing but ground and ore.
pub open spec fn only_ground(l: Layer<Tile>) -> bool {
    forall|x: int, y: int| in_grid(l.width, l.height, x, y) ==> ground_kind(#[trigger] l.cell(x, y))
}

/// The background layer holds nothing but background tiles.
pub open spec fn only_background(l: Layer<Tile>) -> bool {
    forall|x: int, y: int| in_grid(l.width, l.height, x, y) ==> background_kind(#[trigger] l.cell(x, y))
}

/// With no column skipped, a tree surely grows on column `x0` if the scan
/// reaches it: its floor `(x0, y)` is a tree site and the crown fits above
/// every trunk height the settings allow.
pub open spec fn tree_certain(t: Terrain, x0: int, y: int) -> bool {
    &&& t.settings.trees.spawn_rate == 0
    &&& 4 <= x0
    &&& x0 + 1 < t.width
    &&& tree_site_at(t.front, x0, y)
    &&& forall|n: int|
        t.settings.trees.trunk_height_start <= n < t.settings.trees.trunk_height_end ==> y + 1 + n
            <= u32::MAX && #[trigger] footprint_free(t, x0 - 2, y + 1 + n, 5, 6)
}

/// Some cell of `m` holds part of a tree.
pub open spec fn has_tree(m: Layer<Tile>) -> bool {
    exists|i: int, j: int| in_grid(m.width, m.height, i, j) && (#[trigger] m.cell(i, j)).id is Tree
}

/// With no column skipped, a decoration surely stands on column `x0` if the
/// scan reaches it: its floor `(x0, y)` is a decoration site and every
/// decoration the settings allow fits there.
pub open spec fn decor_certain(t: Terrain, x0: int, y: int) -> bool {
    &&& t.settings.decor.surface_rate == 0
    &&& 1 <= x0
    &&& x0 + 2 < t.width
    &&& decor_site_at(t.front, x0, y)
    &&& forall|k: u32|
        t.settings.decor.surface_start <= k < t.settings.decor.surface_end ==> #[trigger] decor_fits(
            t,
            decor_of(k),
            x0,
            y,
        )
}

/// Some cell of `m` holds a decoration.
pub open spec fn has_decor(m: Layer<Tile>) -> bool {
    exists|i: int, j: int| in_grid(m.width, m.height, i, j) && (#[trigger] m.cell(i, j)).id is SurfaceDecor
}

/// Every ore vein surely lands: there is a trial, the ore band has a row,
/// and every cell a vein can be centred on is occupied.
pub open spec fn ores_certain(t: Terrain) -> bool {
    &&& t.width >= 2
    &&& t.settings.ore_rate > 0
    &&& t.width / t.settings.ore_rate >= 1
    &&& t.height * t.settings.ore_height / 1000 >= 1
    &&& forall|x: int, y: int|
        0 <= x < t.width - 1 && 0 <= y < t.height * t.settings.ore_height / 1000 ==> #[trigger] occupied(
            t.front,
            x,
            y,
        )
}

/// Some cell of `l` holds ore.
pub open spec fn has_ore(l: Layer<Tile>) -> bool {
    exists|i: int, j: int| in_grid(l.width, l.height, i, j) && (#[trigger] l.cell(i, j)).id is Ore
}

/// Every cell of `l` is empty.
pub open spec fn all_empty(l: Layer<Tile>) -> bool {
    forall|x: int, y: int| in_grid(l.width, l.height, x, y) ==> (#[trigger] l.cell(x, y)).id == TileId::Empty
}

/// The middle layer holds nothing but trees and surface decorations.
pub open spec fn only_vegetation(l: Layer<Tile>) -> bool {
    forall|x: int, y: int|
        in_grid(l.width, l.height, x, y) ==> {
            let id = (#[trigger] l.cell(x, y)).id;
            id == TileId::Empty || id is Tree || id is SurfaceDecor
        }
}

/// A cell at or above the dirt line turns to dirt if it is occupied.
pub open spec fn stratified(t: Tile, dirt: Tile, dirt_height: u32, y: int) -> Tile {
    if y >= dirt_height && t.id != TileId::Empty {
        dirt
    } else {
        t
    }
}

impl Terrain {
    /// The highest occupied front cell of column `x`, if any.
    pub fn top_solid(&self, x: u32) -> (r: Option<u32>)
        requires
            self.wf(),
            x < self.width,
        ensures
            r.is_some() ==> is_column_top(self.front, x as int, r.unwrap() as int),
            r.is_none() ==> forall|k: int| 0 <= k < self.height ==> !#[trigger] occupied(self.front, x as int, k),
    {
        let mut y: u32 = self.height;
        while y > 0
            invariant
                self.wf(),
                x < self.width,
                y <= self.height,
                forall|k: int| y <= k < self.height ==> !#[trigger] occupied(self.front, x as int, k),
            decreases y,
        {
            y = y - 1;
            if self.front.at(x, y).id != TileId::Empty {
                return Some(y);
            }
        }
        None
    }

    /// The floor of column `x` on which a tree may grow, if any.
    pub fn tree_site(&self, x: u32) -> (r: Option<u32>)
        requires
            self.wf(),
            x < self.width,
        ensures
            r.is_some() ==> tree_site_at(self.front, x as int, r.unwrap() as int),
            r.is_none() ==> forall|y: int| !#[trigger] tree_site_at(self.front, x as int, y),
    {
        match self.top_solid(x) {
            None => None,
            Some(y) => {
                proof {
                    assert forall|z: int| #[trigger] tree_site_at(self.front, x as int, z) implies z == y by {
                        lemma_column_top_unique(self.front, x as int, y as int, z);
                    }
                }
                if self.front.is_occupied(x as i64 - 1, y as i64) && self.front.is_occupied(
                    x as i64 + 1,
                    y as i64,
                ) {
                    Some(y)
                } else {
                    None
                }
            },
        }
    }

    /// Whether the `w` cells from `(x, y)` rightwards all lie on the grid and
    /// are occupied.
    pub fn floor_under(&self, x: u32, y: u32, w: u32) -> (r: bool)
        requires
            self.wf(),
        ensures
            r == floor_ok(self.front, x as int, y as int, w as int),
    {
        if x as u64 + w as u64 > self.width as u64 {
            return false;
        }
        let mut k: u32 = 0;
        while k < w
            invariant
                self.wf(),
                x + w <= self.width,
                k <= w,
                forall|m: int| 0 <= m < k ==> #[trigger] occupied(self.front, x + m, y as int),
            decreases w - k,
        {
            if !self.front.is_occupied(x as i64 + k as i64, y as i64) {
                return false;
            }
            k = k + 1;
        }
        true
    }

    /// The floor of column `x` on which a decoration may stand, if any.
    pub fn decor_site(&self, x: u32) -> (r: Option<u32>)
        requires
            self.wf(),
            x < self.width,
        ensures
            r.is_some() ==> decor_site_at(self.front, x as int, r.unwrap() as int),
            r.is_none() ==> forall|y: int| !#[trigger] decor_site_at(self.front, x as int, y),
    {
        match self.top_solid(x) {
            None => None,
            Some(y) => {
                proof {
                    assert forall|z: int| #[trigger] decor_site_at(self.front, x as int, z) implies z == y by {
                        lemma_column_top_unique(self.front, x as int, y as int, z);
                    }
                }
                if self.front.is_occupied(x as i64 - 1, y as i64) {
                    Some(y)
                } else {
                    None
                }
            },
        }
    }

    /// The ores whose height limit reaches row `y`.
    pub fn ores_allowed_at(&self, y: u32) -> (r: Vec<TileId>)
        requires
            self.settings.ore_height <= 1000,
        ensures
            r@ == ores_allowed(self.height, self.settings.ore_height, y),
    {
        let (height, ore_height) = (self.height as u64, self.settings.ore_height as u64);
        assert(height * ore_height <= 4294967295 * 1000) by (nonlinear_arith)
            requires
                height <= 4294967295,
                ore_height <= 1000,
        ;
        let scaled = height * ore_height;
        let mut allowed: Vec<TileId> = Vec::new();
        let iron = TileId::Ore(Ore::Iron);
        if 100 * scaled / 100000 >= y as u64 {
            allowed.push(iron);
        }
        let gold = TileId::Ore(Ore::Gold);
        if 50 * scaled / 100000 >= y as u64 {
            allowed.push(gold);
        }
        assert(allowed@ =~= ores_allowed(self.height, self.settings.ore_height, y));
        allowed
    }

    /// Lays down stone below each column's surface line: a front cell is solid
    /// where `dense` marks it, a background cell wherever it lies
    /// `background_offset` or more below the line.
    pub fn fill_base(&mut self, max_heights: &Vec<u32>, dense: &Vec<Vec<bool>>)
        requires
            old(self).wf(),
            max_heights@.len() == old(self).width,
            dense@.len() == old(self).width,
            forall|x: int| 0 <= x < old(self).width ==> (#[trigger] dense@[x])@.len() == old(self).height,
        ensures
            final(self).wf(),
            final(self).width == old(self).width,
            final(self).height == old(self).height,
            final(self).settings == old(self).settings,
            final(self).seed == old(self).seed,
            final(self).middle == old(self).middle,
            forall|x: int, y: int|
                in_grid(old(self).width, old(self).height, x, y) ==> {
                    &&& #[trigger] final(self).front.cell(x, y) == base_front(max_heights@[x], dense@[x]@[y], y)
                    &&& final(self).back.cell(x, y) == base_back(max_heights@[x], old(self).settings.background_offset, y)
                },
    {
        let offset = self.settings.background_offset;
        let mut x: u32 = 0;
        while x < self.width
            invariant
                self.wf(),
                self.width == old(self).width,
                self.height == old(self).height,
                self.settings == old(self).settings,
                self.seed == old(self).seed,
                self.middle == old(self).middle,
                offset == self.settings.background_offset,
                x <= self.width,
                max_heights@.len() == self.width,
                dense@.len() == self.width,
                forall|i: int| 0 <= i < self.width ==> (#[trigger] dense@[i])@.len() == self.height,
                forall|i: int, j: int|
                    0 <= i < x && 0 <= j < self.height ==> {
                        &&& #[trigger] self.front.cell(i, j) == base_front(max_heights@[i], dense@[i]@[j], j)
                        &&& self.back.cell(i, j) == base_back(max_heights@[i], offset, j)
                    },
            decreases self.width - x,
        {
            let max_height = max_heights[x as usize];
            let mut y: u32 = 0;
            while y < self.height
                invariant
                    self.wf(),
                    self.width == old(self).width,
                    self.height == old(self).height,
                    self.settings == old(self).settings,
                    self.seed == old(self).seed,
                    self.middle == old(self).middle,
                    offset == self.settings.background_offset,
                    x < self.width,
                    y <= self.height,
                    max_height == max_heights@[x as int],
                    max_heights@.len() == self.width,
                    dense@.len() == self.width,
                    forall|i: int| 0 <= i < self.width ==> (#[trigger] dense@[i])@.len() == self.height,
                    forall|i: int, j: int|
                        (0 <= i < x && 0 <= j < self.height) || (i == x && 0 <= j < y) ==> {
                            &&& #[trigger] self.front.cell(i, j) == base_front(max_heights@[i], dense@[i]@[j], j)
                            &&& self.back.cell(i, j) == base_back(max_heights@[i], offset, j)
                        },
                decreases self.height - y,
            {
                if y <= max_height && dense[x as usize][y as usize] {
                    self.front.set(x, y, Tile::new(TileId::Ground(Ground::Stone), None));
                } else {
                    self.front.set(x, y, Tile::empty());
                }
                if y as u64 + offset as u64 <= max_height as u64 {
                    self.back.set(x, y, Tile::new(TileId::Background(Background::Stone), None));
                } else {
                    self.back.set(x, y, Tile::empty());
                }
                y = y + 1;
            }
            x = x + 1;
        }
    }

    /// Turns the occupied cells at or above each column's dirt line into dirt,
    /// in the front and the background layer alike.
    pub fn stratify(&mut self, dirt_heights: &Vec<u32>)
        requires
            old(self).wf(),
            dirt_heights@.len() == old(self).width,
        ensures
            final(self).wf(),
            final(self).width == old(self).width,
            final(self).height == old(self).height,
            final(self).settings == old(self).settings,
            final(self).seed == old(self).seed,
            final(self).middle == old(self).middle,
            forall|x: int, y: int|
                in_grid(old(self).width, old(self).height, x, y) ==> {
                    &&& #[trigger] final(self).front.cell(x, y) == stratified(
                        old(self).front.cell(x, y),
                        dirt_tile(),
                        dirt_heights@[x],
                        y,
                    )
                    &&& final(self).back.cell(x, y) == stratified(
                        old(self).back.cell(x, y),
                        back_dirt_tile(),
                        dirt_heights@[x],
                        y,
                    )
                },
    {
        let ghost front0 = self.front;
        let ghost back0 = self.back;
        let mut x: u32 = 0;
        while x < self.width
            invariant
                self.wf(),
                self.width == old(self).width,
                self.height == old(self).height,
                self.settings == old(self).settings,
                self.seed == old(self).seed,
                self.middle == old(self).middle,
                front0 == old(self).front,
                back0 == old(self).back,
                x <= self.width,
                dirt_heights@.len() == self.width,
                forall|i: int, j: int|
                    in_grid(self.width, self.height, i, j) ==> #[trigger] self.front.cell(i, j)
                        == if i < x {
                        stratified(front0.cell(i, j), dirt_tile(), dirt_heights@[i], j)
                    } else {
                        front0.cell(i, j)
                    },
                forall|i: int, j: int|
                    in_grid(self.width, self.height, i, j) ==> #[trigger] self.back.cell(i, j)
                        == if i < x {
                        stratified(back0.cell(i, j), back_dirt_tile(), dirt_heights@[i], j)
                    } else {
                        back0.cell(i, j)
                    },
            decreases self.width - x,
        {
            let dirt_height = dirt_heights[x as usize];
            let mut y: u32 = dirt_height;
            while y < self.height
                invariant
                    self.wf(),
                    self.width == old(self).width,
                    self.height == old(self).height,
                    self.settings == old(self).settings,
                    self.seed == old(self).seed,
                    self.middle == old(self).middle,
                    front0 == old(self).front,
                    back0 == old(self).back,
                    x < self.width,
                    dirt_height <= y,
                    dirt_height == dirt_heights@[x as int],
                    dirt_heights@.len() == self.width,
                    forall|i: int, j: int|
                        in_grid(self.width, self.height, i, j) ==> #[trigger] self.front.cell(i, j)
                            == if i < x || (i == x && j < y) {
                            stratified(front0.cell(i, j), dirt_tile(), dirt_heights@[i], j)
                        } else {
                            front0.cell(i, j)
                        },
                    forall|i: int, j: int|
                        in_grid(self.width, self.height, i, j) ==> #[trigger] self.back.cell(i, j)
                            == if i < x || (i == x && j < y) {
                            stratified(back0.cell(i, j), back_dirt_tile(), dirt_heights@[i], j)
                        } else {
                            back0.cell(i, j)
                        },
                decreases self.height - y,
            {
                if self.front.at(x, y).id != TileId::Empty {
                    let t = Tile::new(TileId::Ground(Ground::Dirt), None);
                    assert(t == dirt_tile());
                    self.front.set(x, y, t);
                }
                if self.back.at(x, y).id != TileId::Empty {
                    let t = Tile::new(TileId::Background(Background::Dirt), None);
                    assert(t == back_dirt_tile());
                    self.back.set(x, y, t);
                }
                y = y + 1;
            }
            x = x + 1;
        }
    }

    /// Turns the highest occupied front cell of every column into grass.
    pub fn place_grass(&mut self)
        requires
            old(self).wf(),
        ensures
            final(self).wf(),
            final(self).width == old(self).width,
            final(self).height == old(self).height,
            final(self).settings == old(self).settings,
            final(self).seed == old(self).seed,
            final(self).middle == old(self).middle,
            final(self).back == old(self).back,
            forall|x: int, y: int|
                in_grid(old(self).width, old(self).height, x, y) ==> #[trigger] final(self).front.cell(x, y)
                    == if is_column_top(old(self).front, x, y) {
                    grass_tile()
                } else {
                    old(self).front.cell(x, y)
                },
    {
        let ghost front0 = self.front;
        let mut x: u32 = 0;
        while x < self.width
            invariant
                self.wf(),
                front0.wf(),
                self.width == old(self).width,
                self.height == old(self).height,
                self.settings == old(self).settings,
                self.seed == old(self).seed,
                self.middle == old(self).middle,
                self.back == old(self).back,
                front0 == old(self).front,
                front0.width == self.width,
                front0.height == self.height,
                x <= self.width,
                forall|i: int, j: int|
                    in_grid(self.width, self.height, i, j) ==> #[trigger] self.front.cell(i, j) == if i
                        < x && is_column_top(front0, i, j) {
                        grass_tile()
                    } else {
                        front0.cell(i, j)
                    },
            decreases self.width - x,
        {
            let top = self.top_solid(x);
            assert forall|j: int| 0 <= j < self.height implies occupied(self.front, x as int, j)
                == occupied(front0, x as int, j) by {
                assert(self.front.cell(x as int, j) == front0.cell(x as int, j));
            }
            match top {
                Some(y) => {
                    assert forall|j: int| 0 <= j < self.height && j != y implies !is_column_top(
                        front0,
                        x as int,
                        j,
                    ) by {
                        if j < y {
                            assert(occupied(front0, x as int, y as int));
                        }
                    }
                    self.front.set(x, y, Tile::new(TileId::Ground(Ground::Grass), None));
                    assert(self.front.cell(x as int, y as int) == grass_tile());
                },
                None => {},
            }
            x = x + 1;
        }
    }

    /// Tries `width / ore_rate` veins: each picks a random cell of the ore band
    /// and, if that cell is occupied, an ore allowed at its row, and scatters
    /// that ore into the occupied cells around it.
    pub fn scatter_ores(&mut self)
        requires
            old(self).wf(),
            settings_valid(old(self).settings),
        ensures
            final(self).wf(),
            final(self).width == old(self).width,
            final(self).height == old(self).height,
            final(self).settings == old(self).settings,
            final(self).seed == old(self).seed,
            final(self).middle == old(self).middle,
            final(self).back == old(self).back,
            ore_scattered(old(self).front, final(self).front),
            ores_traced(old(self).front, final(self).front, old(self).settings.ore_height),
            ores_certain(*old(self)) ==> has_ore(final(self).front),
    {
        let trials = self.width / self.settings.ore_rate;
        let (height, ore_height) = (self.height as u64, self.settings.ore_height as u64);
        assert(height * ore_height <= height * 1000) by (nonlinear_arith)
            requires
                ore_height <= 1000,
        ;
        let scaled = height * ore_height;
        let band = (scaled / 1000) as u32;
        let mut n: u32 = 0;
        while n < trials
            invariant
                self.wf(),
                self.width == old(self).width,
                self.height == old(self).height,
                self.settings == old(self).settings,
                self.seed == old(self).seed,
                self.middle == old(self).middle,
                self.back == old(self).back,
                settings_valid(self.settings),
                band <= self.height,
                scaled <= self.height * 1000,
                ore_scattered(old(self).front, self.front),
                ores_traced(old(self).front, self.front, self.settings.ore_height),
                old(self).front.wf(),
                scaled == self.height * self.settings.ore_height,
                band == scaled / 1000,
                n <= trials,
                trials == self.width / self.settings.ore_rate,
                ores_certain(*old(self)) && n >= 1 ==> has_ore(self.front),
            decreases trials - n,
        {
            n = n + 1;
            if self.width < 2 || band == 0 {
                assert(!ores_certain(*old(self)));
                continue;
            }
            let x = gen_range(&mut self.rng, 0, self.width - 1);
            let y = gen_range(&mut self.rng, 0, band);
            if self.front.at(x, y).id == TileId::Empty {
                proof {
                    if ores_certain(*old(self)) {
                        assert(occupied(old(self).front, x as int, y as int));
                        assert(self.front.cell(x as int, y as int).id == TileId::Empty <==> old(self).front.cell(
                            x as int,
                            y as int,
                        ).id == TileId::Empty);
                    }
                }
                continue;
            }
            let eligible = self.ores_allowed_at(y);
            proof {
                assert((100 * scaled) / 100000 == scaled / 1000) by (nonlinear_arith);
                assert(ore_limit(TileId::Ore(Ore::Iron), self.height, self.settings.ore_height) >= y);
                assert(eligible@[0] == TileId::Ore(Ore::Iron));
            }
            if eligible.len() == 0 {
                continue;
            }
            let pick = gen_range(&mut self.rng, 0, eligible.len() as u32);
            let id = eligible[pick as usize];
            let radius = match TileDescriptor::from_id(id).ore {
                Some(o) => o.radius,
                None => 0,
            };
            let ghost before = self.front;
            assert(eligible@.contains(id));
            assert(id == TileId::Ore(Ore::Iron) || id == TileId::Ore(Ore::Gold));
            self.stamp_ore(id, x, y, radius);
            proof {
                assert(self.front.cell(x as int, y as int).id is Ore);
                assert(in_grid(self.front.width, self.front.height, x as int, y as int));
                assert(has_ore(self.front));
                if has_ore(before) {
                    let (i, j) = choose|i: int, j: int|
                        in_grid(before.width, before.height, i, j) && (#[trigger] before.cell(i, j)).id is Ore;
                    assert(self.front.cell(i, j) == before.cell(i, j) || self.front.cell(i, j) == ore_tile(id));
                }
                let f0 = old(self).front;
                assert(occupied(before, x as int, y as int));
                assert(same_occupancy(before, f0));
                assert(occupied(f0, x as int, y as int));
                assert forall|i: int, j: int|
                    in_grid(f0.width, f0.height, i, j) && #[trigger] self.front.cell(i, j) != f0.cell(i, j) implies exists|
                    cx: int,
                    cy: int,
                | #[trigger] ore_source(f0, self.settings.ore_height, self.front.cell(i, j), i, j, cx, cy) by {
                    if self.front.cell(i, j) != before.cell(i, j) {
                        assert(ore_source(f0, self.settings.ore_height, self.front.cell(i, j), i, j, x as int, y as int));
                    }
                }
                assert forall|i: int, j: int|
                    in_grid(f0.width, f0.height, i, j) implies ore_or_same(f0.cell(i, j), #[trigger] self.front.cell(i, j)) by {
                    assert(ore_or_same(f0.cell(i, j), before.cell(i, j)));
                    assert(before.cell(i, j) == f0.cell(i, j) || occupied(before, i, j));
                }
                assert forall|i: int, j: int|
                    in_grid(f0.width, f0.height, i, j) implies (#[trigger] self.front.cell(i, j).id == TileId::Empty
                    <==> f0.cell(i, j).id == TileId::Empty) by {
                    assert(ore_or_same(f0.cell(i, j), before.cell(i, j)));
                    assert(self.front.cell(i, j) == before.cell(i, j) || occupied(before, i, j));
                }
            }
        }
    }

    /// Decides one cell of an ore vein centred on `(cx, cy)`: the cell
    /// `(w, h)` takes ore `id` when it is occupied and the draw, out of
    /// `radius * 1000`, reaches a thousand times its distance from the centre.
    pub fn ore_hit(&mut self, id: TileId, cx: i64, cy: i64, w: i64, h: i64, draw: u32)
        requires
            old(self).wf(),
            -1000 <= cx - w <= 1000,
            -1000 <= cy - h <= 1000,
            draw < 1000000,
        ensures
            final(self).wf(),
            final(self).width == old(self).width,
            final(self).height == old(self).height,
            final(self).settings == old(self).settings,
            final(self).seed == old(self).seed,
            final(self).middle == old(self).middle,
            final(self).back == old(self).back,
            final(self).rng == old(self).rng,
            forall|i: int, j: int|
                in_grid(old(self).width, old(self).height, i, j) ==> #[trigger] final(self).front.cell(i, j)
                    == if i == w && j == h && occupied(old(self).front, i, j) && ore_takes(
                    draw,
                    (cx - w) * (cx - w) + (cy - h) * (cy - h),
                ) {
                    ore_tile(id)
                } else {
                    old(self).front.cell(i, j)
                },
    {
        if !self.front.is_occupied(w, h) {
            return;
        }
        let dx: u64 = if cx >= w {
            (cx - w) as u64
        } else {
            (w - cx) as u64
        };
        let dy: u64 = if cy >= h {
            (cy - h) as u64
        } else {
            (h - cy) as u64
        };
        assert(dx * dx <= 1000000 && dy * dy <= 1000000) by (nonlinear_arith)
            requires
                dx <= 1000,
                dy <= 1000,
        ;
        assert(dx * dx + dy * dy == (cx - w) * (cx - w) + (cy - h) * (cy - h)) by (nonlinear_arith)
            requires
                dx == if cx >= w {
                    cx - w
                } else {
                    w - cx
                },
                dy == if cy >= h {
                    cy - h
                } else {
                    h - cy
                },
        ;
        let dist2 = dx * dx + dy * dy;
        let d = draw as u64;
        assert(d * d <= 1000000000000) by (nonlinear_arith)
            requires
                d < 1000000,
        ;
        if d * d >= dist2 * 1000000 {
            self.front.set(w as u32, h as u32, Tile::new(id, None));
        }
    }

    /// Turns occupied front cells of the square of side `2 * radius` around
    /// `(x, y)` into `id`, each with a chance that falls linearly from one at
    /// the centre to nothing at distance `radius`.
    fn stamp_ore(&mut self, id: TileId, x: u32, y: u32, radius: u32)
        requires
            old(self).wf(),
            id is Ore,
            radius <= 1000,
            x < old(self).width,
            y < old(self).height,
        ensures
            final(self).wf(),
            final(self).width == old(self).width,
            final(self).height == old(self).height,
            final(self).settings == old(self).settings,
            final(self).seed == old(self).seed,
            final(self).middle == old(self).middle,
            final(self).back == old(self).back,
            vein_stamped(old(self).front, final(self).front, id, x as int, y as int, radius as int),
            0 < radius && occupied(old(self).front, x as int, y as int) ==> final(self).front.cell(x as int, y as int).id is Ore,
    {
        let ghost front0 = self.front;
        let r = radius as i64;
        let (cx, cy) = (x as i64, y as i64);
        let mut w: i64 = cx - r;
        while w < cx + r
            invariant
                self.wf(),
                self.width == old(self).width,
                self.height == old(self).height,
                self.settings == old(self).settings,
                self.seed == old(self).seed,
                self.middle == old(self).middle,
                self.back == old(self).back,
                front0 == old(self).front,
                front0.wf(),
                0 <= r <= 1000,
                r == radius,
                cx == x,
                cy == y,
                cx - r <= w <= cx + r,
                vein_stamped(front0, self.front, id, cx as int, cy as int, r as int),
                occupied(front0, cx as int, cy as int) && cx < w ==> self.front.cell(cx as int, cy as int).id is Ore,
                id is Ore,
                cx < self.width,
                cy < self.height,
            decreases cx + r - w,
        {
            let mut h: i64 = cy - r;
            while h < cy + r
                invariant
                    self.wf(),
                    self.width == old(self).width,
                    self.height == old(self).height,
                    self.settings == old(self).settings,
                    self.seed == old(self).seed,
                    self.middle == old(self).middle,
                    self.back == old(self).back,
                    front0 == old(self).front,
                    front0.wf(),
                    0 < r <= 1000,
                    r == radius,
                    cx == x,
                    cy == y,
                    cx - r <= w < cx + r,
                    cy - r <= h <= cy + r,
                    vein_stamped(front0, self.front, id, cx as int, cy as int, r as int),
                    occupied(front0, cx as int, cy as int) && (cx < w || (cx == w && cy < h)) ==> self.front.cell(
                        cx as int,
                        cy as int,
                    ).id is Ore,
                    id is Ore,
                    cx < self.width,
                    cy < self.height,
                decreases cy + r - h,
            {
                proof {
                    if occupied(front0, cx as int, cy as int) {
                        assert(self.front.cell(cx as int, cy as int) == front0.cell(cx as int, cy as int)
                            || occupied(front0, cx as int, cy as int));
                    }
                }
                if self.front.is_occupied(w, h) {
                    let draw = gen_range(&mut self.rng, 0, radius * 1000);
                    let ghost before = self.front;
                    self.ore_hit(id, cx, cy, w, h, draw);
                    assert(self.front.cell(cx as int, cy as int) == if cx == w && cy == h && occupied(
                        before,
                        cx as int,
                        cy as int,
                    ) && ore_takes(draw, (cx - w) * (cx - w) + (cy - h) * (cy - h)) {
                        ore_tile(id)
                    } else {
                        before.cell(cx as int, cy as int)
                    });
                    assert forall|i: int, j: int| in_grid(front0.width, front0.height, i, j) implies (#[trigger] self.front.cell(i, j)
                        == front0.cell(i, j) || (self.front.cell(i, j) == ore_tile(id) && in_vein(i, j, cx as int, cy as int, r as int)
                        && occupied(front0, i, j))) by {
                        assert(before.cell(i, j) == front0.cell(i, j) || (before.cell(i, j) == ore_tile(id)
                            && occupied(front0, i, j)));
                    }
                }
                h = h + 1;
            }
            w = w + 1;
        }
    }

    /// One column of the tree scan at column `x`, given the skip draw and
    /// the trunk variants: a draw below the spawn rate skips the column;
    /// otherwise a tree grows on the column's tree site if its foliage fits.
    /// Returns the next column to scan: five further after a tree, else one.
    pub fn tree_step(&mut self, x: u64, skip_draw: u32, variants: &Vec<u32>) -> (next: u64)
        requires
            old(self).wf(),
            4 <= x,
            x + 1 < old(self).width,
        ensures
            final(self).wf(),
            same_but_middle(*final(self), *old(self)),
            final(self).rng == old(self).rng,
            skip_draw < old(self).settings.trees.spawn_rate ==> next == x + 1 && final(self).middle
                == old(self).middle,
            (forall|y: int| !#[trigger] tree_site_at(old(self).front, x as int, y)) ==> next == x + 1
                && final(self).middle == old(self).middle,
            forall|y: int|
                #[trigger] tree_site_at(old(self).front, x as int, y) && skip_draw
                    >= old(self).settings.trees.spawn_rate ==> {
                    let grows = y + 1 < old(self).height && y + 1 + variants@.len() <= u32::MAX
                        && footprint_free(*old(self), x - 2, y + 1 + variants@.len(), 5, 6);
                    &&& next == if grows {
                        x + 5
                    } else {
                        x + 1
                    }
                    &&& !grows ==> final(self).middle == old(self).middle
                    &&& grows ==> forall|i: int, j: int|
                        in_grid(old(self).width, old(self).height, i, j) ==> #[trigger] final(self).middle.cell(i, j)
                            == tree_cell(old(self).middle, x as int, y + 1, variants@, i, j)
                },
    {
        if skip_draw < self.settings.trees.spawn_rate {
            return x + 1;
        }
        let column = x as u32;
        match self.tree_site(column) {
            None => x + 1,
            Some(y) => {
                proof {
                    assert forall|z: int| #[trigger] tree_site_at(self.front, x as int, z) implies z == y by {
                        lemma_column_top_unique(self.front, x as int, y as int, z);
                    }
                }
                if y + 1 < self.height && self.grow_tree(column, y + 1, variants) {
                    x + 5
                } else {
                    x + 1
                }
            },
        }
    }

    /// Scans the columns left to right and grows trees on inner floor cells,
    /// skipping a column by chance, and past a grown tree.
    pub fn place_trees(&mut self)
        requires
            old(self).wf(),
            settings_valid(old(self).settings),
        ensures
            final(self).wf(),
            same_but_middle(*final(self), *old(self)),
            trees_added(old(self).middle, final(self).middle),
            trees_grown(old(self).front, old(self).middle, final(self).middle),
            all_empty(old(self).middle) ==> whole_footprints(final(self).middle),
            (exists|x0: int, y: int| #[trigger] tree_certain(*old(self), x0, y)) ==> has_tree(final(self).middle),
    {
        proof {
            if all_empty(old(self).middle) {
                assert forall|i: int, j: int| in_grid(self.width, self.height, i, j) implies #[trigger] footprint_whole(
                    self.middle,
                    i,
                    j,
                ) by {
                    assert(self.middle.cell(i, j).id == TileId::Empty);
                }
            }
        }
        let mut x: u64 = 4;
        while x + 1 < self.width as u64
            invariant
                self.wf(),
                same_but_middle(*self, *old(self)),
                old(self).middle.wf(),
                trees_added(old(self).middle, self.middle),
                trees_grown(old(self).front, old(self).middle, self.middle),
                settings_valid(self.settings),
                4 <= x <= self.width + 5,
                forall|i: int, j: int|
                    in_grid(old(self).width, old(self).height, i, j) && #[trigger] self.middle.cell(i, j)
                        != old(self).middle.cell(i, j) ==> i < x - 2,
                all_empty(old(self).middle) ==> whole_footprints(self.middle),
                forall|x0: int, y: int|
                    #[trigger] tree_certain(*old(self), x0, y) ==> x <= x0 || has_tree(self.middle),
            decreases self.width + 5 - x,
        {
            let skip = gen_range(&mut self.rng, 0, 1000);
            let column = x as u32;
            let variants = if skip >= self.settings.trees.spawn_rate && self.tree_site(column).is_some() {
                self.draw_trunk()
            } else {
                Vec::new()
            };
            let ghost before = *self;
            x = self.tree_step(x, skip, &variants);
            proof {
                if x == column + 5 {
                    let z = choose|z: int| #[trigger] tree_site_at(before.front, column as int, z);
                    let top = z + 1 + variants@.len();
                    assert(footprint_free(before, column - 2, top, 5, 6));
                    assert(self.middle.cell(column - 2, top) == tree_cell(
                        before.middle,
                        column as int,
                        z + 1,
                        variants@,
                        column - 2,
                        top,
                    ));
                    assert(has_tree(self.middle));
                }
                if has_tree(before.middle) {
                    let (i, j) = choose|i: int, j: int|
                        in_grid(before.middle.width, before.middle.height, i, j) && (#[trigger] before.middle.cell(
                            i,
                            j,
                        )).id is Tree;
                    if self.middle != before.middle {
                        let z = choose|z: int| #[trigger] tree_site_at(before.front, column as int, z);
                        assert(self.middle.cell(i, j) == tree_cell(before.middle, column as int, z + 1, variants@, i, j));
                    }
                    assert(has_tree(self.middle));
                }
                assert forall|x0: int, y: int| #[trigger] tree_certain(*old(self), x0, y) implies x <= x0 || has_tree(
                    self.middle,
                ) by {
                    if x > x0 && !has_tree(self.middle) {
                        assert(column <= x0);
                        if column == x0 {
                            let n = variants@.len() as int;
                            assert(footprint_free(*old(self), x0 - 2, y + 1 + n, 5, 6));
                            assert forall|i: int, j: int|
                                x0 - 2 <= i < x0 + 3 && y + 1 + n <= j < y + 1 + n + 6 implies #[trigger] before.front.cell(
                                i,
                                j,
                            ).id == TileId::Empty && before.middle.cell(i, j).id == TileId::Empty by {
                                assert(old(self).front.cell(i, j).id == TileId::Empty);
                                assert(before.middle.cell(i, j) == old(self).middle.cell(i, j));
                            }
                            assert(footprint_free(before, x0 - 2, y + 1 + n, 5, 6));
                            assert(tree_site_at(before.front, x0, y));
                        }
                    }
                }
                if self.middle != before.middle {
                    let y = choose|y: int| #[trigger] tree_site_at(before.front, column as int, y);
                    assert forall|i: int, j: int|
                        in_grid(old(self).width, old(self).height, i, j) && #[trigger] self.middle.cell(i, j)
                            != old(self).middle.cell(i, j) implies exists|x0: int, y0: int, v: Seq<u32>|
                        #[trigger] tree_origin(old(self).front, old(self).middle, self.middle.cell(i, j), i, j, x0, y0, v) by {
                        if self.middle.cell(i, j) != before.middle.cell(i, j) {
                            assert(self.middle.cell(i, j) == tree_cell(before.middle, column as int, y + 1, variants@, i, j));
                            let top = y + 1 + variants@.len();
                            if column - 2 <= i < column + 3 && top <= j < top + 6 {
                                assert(footprint_free(before, column - 2, top, 5, 6));
                                assert(before.front.cell(i, j).id == TileId::Empty);
                            } else {
                                assert(y < j < before.front.height);
                                assert(!occupied(before.front, i, j));
                            }
                            assert(tree_origin(old(self).front, old(self).middle, self.middle.cell(i, j), i, j, column as int, y + 1, variants@));
                        } else {
                            assert(before.middle.cell(i, j) != old(self).middle.cell(i, j));
                        }
                    }
                    let top = y + 1 + variants@.len();
                    assert(footprint_free(before, column - 2, top, 5, 6));
                    assert forall|i: int, j: int|
                        in_grid(old(self).width, old(self).height, i, j) && #[trigger] self.middle.cell(i, j)
                            != old(self).middle.cell(i, j) implies i < x - 2 by {
                        if self.middle.cell(i, j) != before.middle.cell(i, j) {
                            assert(self.middle.cell(i, j) == tree_cell(before.middle, column as int, y + 1, variants@, i, j));
                        }
                    }
                    if all_empty(old(self).middle) {
                        assert forall|i: int, j: int|
                            in_grid(before.width, before.height, i, j) implies #[trigger] self.middle.cell(i, j)
                                == before.middle.cell(i, j) || (before.middle.cell(i, j).id == TileId::Empty
                                && footprint_whole(self.middle, i, j)) by {
                            if self.middle.cell(i, j) != before.middle.cell(i, j) {
                                assert(self.middle.cell(i, j) == tree_cell(before.middle, column as int, y + 1, variants@, i, j));
                                assert(before.middle.cell(i, j) == old(self).middle.cell(i, j));
                                assert(old(self).middle.cell(i, j).id == TileId::Empty);
                                if column - 2 <= i < column + 3 && top <= j < top + 6 {
                                    let (x0, y0) = (column - 2, top);
                                    assert forall|a: int, b: int| 0 <= a < 5 && 0 <= b < 6 implies in_grid(
                                        self.middle.width,
                                        self.middle.height,
                                        x0 + a,
                                        y0 + b,
                                    ) && #[trigger] self.middle.cell(x0 + a, y0 + b) == structure_tile(
                                        TileId::Tree(Tree::Foliage),
                                        6,
                                        x0,
                                        y0,
                                        x0 + a,
                                        y0 + b,
                                    ) by {
                                        assert(self.middle.cell(x0 + a, y0 + b) == tree_cell(
                                            before.middle,
                                            column as int,
                                            y + 1,
                                            variants@,
                                            x0 + a,
                                            y0 + b,
                                        ));
                                    }
                                }
                            }
                        }
                        lemma_whole_preserved(before.middle, self.middle);
                    }
                    assert forall|i: int, j: int|
                        in_grid(old(self).width, old(self).height, i, j) implies #[trigger] self.middle.cell(i, j)
                            == old(self).middle.cell(i, j) || self.middle.cell(i, j).id is Tree by {
                        if self.middle.cell(i, j) != before.middle.cell(i, j) {
                            assert(self.middle.cell(i, j) == tree_cell(before.middle, column as int, y + 1, variants@, i, j));
                        } else {
                            assert(before.middle.cell(i, j) == old(self).middle.cell(i, j) || before.middle.cell(i, j).id is Tree);
                        }
                    }
                }
            }
        }
    }

    /// One column of the decoration scan at column `x`, given the skip draw
    /// and the index of the decoration: a draw below the surface rate skips
    /// the column; otherwise the decoration is placed above the column's
    /// decoration site if it fits. Returns the next column to scan: past the
    /// decoration when one was placed, else the next one.
    pub fn decor_step(&mut self, x: u64, skip_draw: u32, index: u32) -> (next: u64)
        requires
            old(self).wf(),
            1 <= x,
            x + 2 < old(self).width,
            index < 4,
        ensures
            final(self).wf(),
            same_but_middle(*final(self), *old(self)),
            final(self).rng == old(self).rng,
            skip_draw < old(self).settings.decor.surface_rate ==> next == x + 1 && final(self).middle
                == old(self).middle,
            (forall|y: int| !#[trigger] decor_site_at(old(self).front, x as int, y)) ==> next == x + 1
                && final(self).middle == old(self).middle,
            forall|y: int|
                #[trigger] decor_site_at(old(self).front, x as int, y) && skip_draw
                    >= old(self).settings.decor.surface_rate ==> {
                    let placed = decor_fits(*old(self), decor_of(index), x as int, y);
                    &&& next == if placed {
                        x + decor_span(decor_of(index))
                    } else {
                        x + 1
                    }
                    &&& !placed ==> final(self).middle == old(self).middle
                    &&& placed ==> forall|i: int, j: int|
                        in_grid(old(self).width, old(self).height, i, j) ==> #[trigger] final(self).middle.cell(i, j)
                            == decor_cell(old(self).middle, x as int, y + 1, decor_of(index), i, j)
                },
    {
        if skip_draw < self.settings.decor.surface_rate {
            return x + 1;
        }
        let column = x as u32;
        let y = match self.decor_site(column) {
            None => {
                return x + 1;
            },
            Some(y) => y,
        };
        proof {
            assert forall|z: int| #[trigger] decor_site_at(self.front, x as int, z) implies z == y by {
                lemma_column_top_unique(self.front, x as int, y as int, z);
            }
        }
        if y + 1 >= self.height {
            return x + 1;
        }
        let id = decor_id(index);
        match TileDescriptor::from_id(id).dimensions {
            None => {
                if self.front.is_occupied(x as i64 + 1, y as i64) && self.middle.at(column, y + 1).id
                    == TileId::Empty {
                    self.middle.set(column, y + 1, Tile::new(id, None));
                }
                x + 1
            },
            Some((w, _)) => {
                if self.floor_under(column, y, w) && self.place_structure(id, column, y + 1) {
                    x + w as u64
                } else {
                    x + 1
                }
            },
        }
    }

    /// Scans the columns left to right and decorates floors: single-cell
    /// decorations need an occupied right neighbour and a free cell above,
    /// wider ones need every covered floor cell occupied and a free footprint.
    pub fn place_decor(&mut self)
        requires
            old(self).wf(),
            settings_valid(old(self).settings),
        ensures
            final(self).wf(),
            same_but_middle(*final(self), *old(self)),
            decor_added(old(self).middle, final(self).middle),
            decor_grown(old(self).front, old(self).middle, final(self).middle),
            whole_footprints(old(self).middle) ==> whole_footprints(final(self).middle),
            (exists|x0: int, y: int| #[trigger] decor_certain(*old(self), x0, y)) ==> has_decor(final(self).middle),
    {
        let mut x: u64 = 1;
        while x + 2 < self.width as u64
            invariant
                self.wf(),
                same_but_middle(*self, *old(self)),
                old(self).middle.wf(),
                decor_added(old(self).middle, self.middle),
                decor_grown(old(self).front, old(self).middle, self.middle),
                settings_valid(self.settings),
                1 <= x <= self.width + 5,
                whole_footprints(old(self).middle) ==> whole_footprints(self.middle),
                forall|i: int, j: int|
                    in_grid(old(self).width, old(self).height, i, j) && #[trigger] self.middle.cell(i, j)
                        != old(self).middle.cell(i, j) ==> i < x,
                forall|x0: int, y: int|
                    #[trigger] decor_certain(*old(self), x0, y) ==> x <= x0 || has_decor(self.middle),
            decreases self.width + 5 - x,
        {
            let skip = gen_range(&mut self.rng, 0, 1000);
            let decor = self.settings.decor;
            let index = gen_range(&mut self.rng, decor.surface_start, decor.surface_end);
            let column = x as u32;
            let ghost before = *self;
            x = self.decor_step(x, skip, index);
            proof {
                if self.middle != before.middle {
                    let z = choose|z: int| #[trigger] decor_site_at(before.front, column as int, z);
                    assert(decor_fits(before, decor_of(index), column as int, z));
                    assert(self.middle.cell(column as int, z + 1) == decor_cell(
                        before.middle,
                        column as int,
                        z + 1,
                        decor_of(index),
                        column as int,
                        z + 1,
                    ));
                    assert(has_decor(self.middle));
                    assert forall|i: int, j: int|
                        in_grid(old(self).width, old(self).height, i, j) && #[trigger] self.middle.cell(i, j)
                            != old(self).middle.cell(i, j) implies i < x by {
                        if self.middle.cell(i, j) != before.middle.cell(i, j) {
                            assert(self.middle.cell(i, j) == decor_cell(before.middle, column as int, z + 1, decor_of(index), i, j));
                        }
                    }
                }
                if has_decor(before.middle) {
                    let (i, j) = choose|i: int, j: int|
                        in_grid(before.middle.width, before.middle.height, i, j) && (#[trigger] before.middle.cell(
                            i,
                            j,
                        )).id is SurfaceDecor;
                    if self.middle != before.middle {
                        let z = choose|z: int| #[trigger] decor_site_at(before.front, column as int, z);
                        assert(decor_fits(before, decor_of(index), column as int, z));
                        assert(self.middle.cell(i, j) == decor_cell(before.middle, column as int, z + 1, decor_of(index), i, j));
                        match descriptor_of(decor_of(index)).dimensions {
                            Some((w, h)) => {
                                if column <= i < column + w && z + 1 <= j < z + 1 + h {
                                    assert(footprint_free(before, column as int, z + 1, w as int, h as int));
                                    assert(before.front.cell(i, j).id == TileId::Empty);
                                }
                            },
                            None => {},
                        }
                    }
                    assert(has_decor(self.middle));
                }
                assert forall|x0: int, y: int| #[trigger] decor_certain(*old(self), x0, y) implies x <= x0 || has_decor(
                    self.middle,
                ) by {
                    if x > x0 && !has_decor(self.middle) {
                        assert(column <= x0);
                        assert(decor_fits(*old(self), decor_of(index), x0, y));
                        if column == x0 {
                            assert(decor_site_at(before.front, x0, y));
                            match descriptor_of(decor_of(index)).dimensions {
                                Some((w, h)) => {
                                    assert(footprint_free(*old(self), x0, y + 1, w as int, h as int));
                                    assert forall|i: int, j: int|
                                        x0 <= i < x0 + w && y + 1 <= j < y + 1 + h implies #[trigger] before.front.cell(
                                        i,
                                        j,
                                    ).id == TileId::Empty && before.middle.cell(i, j).id == TileId::Empty by {
                                        assert(old(self).front.cell(i, j).id == TileId::Empty);
                                        assert(before.middle.cell(i, j) == old(self).middle.cell(i, j));
                                    }
                                    assert(footprint_free(before, x0, y + 1, w as int, h as int));
                                },
                                None => {
                                    assert(before.middle.cell(x0, y + 1) == old(self).middle.cell(x0, y + 1));
                                },
                            }
                            assert(decor_fits(before, decor_of(index), x0, y));
                        }
                    }
                }
                if self.middle != before.middle {
                    let y = choose|y: int| #[trigger] decor_site_at(before.front, column as int, y);
                    let id = decor_of(index);
                    assert forall|i: int, j: int|
                        in_grid(old(self).width, old(self).height, i, j) && #[trigger] self.middle.cell(i, j)
                            != old(self).middle.cell(i, j) implies exists|x0: int, y0: int, k: u32|
                        #[trigger] decor_origin(old(self).front, old(self).middle, self.middle.cell(i, j), i, j, x0, y0, k) by {
                        if self.middle.cell(i, j) != before.middle.cell(i, j) {
                            assert(self.middle.cell(i, j) == decor_cell(before.middle, column as int, y + 1, id, i, j));
                            assert(decor_fits(before, id, column as int, y));
                            match descriptor_of(id).dimensions {
                                Some((w, h)) => {
                                    assert(footprint_free(before, column as int, y + 1, w as int, h as int));
                                    assert(before.front.cell(i, j).id == TileId::Empty);
                                },
                                None => {
                                    assert(y < j < before.front.height);
                                },
                            }
                            assert(decor_origin(old(self).front, old(self).middle, self.middle.cell(i, j), i, j, column as int, y + 1, index));
                        } else {
                            assert(before.middle.cell(i, j) != old(self).middle.cell(i, j));
                        }
                    }
                    assert(decor_fits(before, id, column as int, y));
                    if whole_footprints(old(self).middle) {
                        assert forall|i: int, j: int|
                            in_grid(before.width, before.height, i, j) implies #[trigger] self.middle.cell(i, j)
                                == before.middle.cell(i, j) || (before.middle.cell(i, j).id == TileId::Empty
                                && footprint_whole(self.middle, i, j)) by {
                            if self.middle.cell(i, j) != before.middle.cell(i, j) {
                                assert(self.middle.cell(i, j) == decor_cell(before.middle, column as int, y + 1, id, i, j));
                                match descriptor_of(id).dimensions {
                                    Some((w, h)) => {
                                        assert(footprint_free(before, column as int, y + 1, w as int, h as int));
                                        assert(before.front.cell(i, j).id == TileId::Empty && before.middle.cell(i, j).id
                                            == TileId::Empty);
                                        let (x0, y0) = (column as int, y + 1);
                                        assert forall|a: int, b: int| 0 <= a < w && 0 <= b < h implies in_grid(
                                            self.middle.width,
                                            self.middle.height,
                                            x0 + a,
                                            y0 + b,
                                        ) && #[trigger] self.middle.cell(x0 + a, y0 + b) == structure_tile(
                                            id,
                                            h as int,
                                            x0,
                                            y0,
                                            x0 + a,
                                            y0 + b,
                                        ) by {
                                            assert(self.middle.cell(x0 + a, y0 + b) == decor_cell(
                                                before.middle,
                                                column as int,
                                                y + 1,
                                                id,
                                                x0 + a,
                                                y0 + b,
                                            ));
                                        }
                                    },
                                    None => {},
                                }
                            }
                        }
                        lemma_whole_preserved(before.middle, self.middle);
                    }
                    assert forall|i: int, j: int|
                        in_grid(old(self).width, old(self).height, i, j) implies #[trigger] self.middle.cell(i, j)
                            == old(self).middle.cell(i, j) || (old(self).middle.cell(i, j).id == TileId::Empty
                            && self.middle.cell(i, j).id is SurfaceDecor) by {
                        if self.middle.cell(i, j) != before.middle.cell(i, j) {
                            assert(self.middle.cell(i, j) == decor_cell(before.middle, column as int, y + 1, id, i, j));
                            assert(decor_fits(before, id, column as int, y));
                            match descriptor_of(id).dimensions {
                                Some((w, h)) => {
                                    if column <= i < column + w && y + 1 <= j < y + 1 + h {
                                        assert(footprint_free(before, column as int, y + 1, w as int, h as int));
                                        assert(before.front.cell(i, j).id == TileId::Empty && before.middle.cell(i, j).id
                                            == TileId::Empty);
                                    }
                                },
                                None => {},
                            }
                            assert(before_empty(before, id, column as int, y + 1, i, j));
                            assert(before.middle.cell(i, j) == old(self).middle.cell(i, j) || before.middle.cell(i, j).id is SurfaceDecor);
                        } else {
                            assert(before.middle.cell(i, j) == old(self).middle.cell(i, j) || (old(self).middle.cell(i, j).id
                                == TileId::Empty && before.middle.cell(i, j).id is SurfaceDecor));
                        }
                    }
                }
            }
        }
    }

    /// Fills the world from the noise-derived inputs: each column's surface
    /// height, which cells under it are dense enough to be solid, and each
    /// column's dirt line before jitter. Runs every stage in order: base fill,
    /// smoothing, dirt, ores, grass, a cleared middle layer, trees, decor,
    /// textures and walkability.
    pub fn generate(&mut self, max_heights: &Vec<u32>, dense: &Vec<Vec<bool>>, dirt_bases: &Vec<u32>)
        requires
            old(self).wf(),
            settings_valid(old(self).settings),
            max_heights@.len() == old(self).width,
            dirt_bases@.len() == old(self).width,
            dense@.len() == old(self).width,
            forall|x: int| 0 <= x < old(self).width ==> (#[trigger] dense@[x])@.len() == old(self).height,
        ensures
            final(self).wf(),
            final(self).width == old(self).width,
            final(self).height == old(self).height,
            final(self).settings == old(self).settings,
            final(self).seed == old(self).seed,
            final(self).walkability_consistent(),
            textures_resolved(final(self).front),
            textures_resolved(final(self).back),
            only_ground(final(self).front),
            only_vegetation(final(self).middle),
            only_background(final(self).back),
            grass_on_tops(final(self).front),
            exists|d: Seq<u32>|
                #[trigger] dirt_line(final(self).front, final(self).back, d) && dirt_within(
                    d,
                    dirt_bases@,
                    old(self).settings.stone_jitter,
                ),
            forall|x: int, y: int|
                in_grid(old(self).width, old(self).height, x, y) ==> #[trigger] occupied(final(self).back, x, y)
                    == (y + old(self).settings.background_offset <= max_heights@[x]),
            vegetation_over_air(final(self).front, final(self).middle),
            whole_footprints(final(self).middle),
            forall|x: int, y: int|
                in_grid(old(self).width, old(self).height, x, y) ==> #[trigger] occupied(final(self).front, x, y)
                    == caves(
                    base_solids(max_heights@, dense@, old(self).width, old(self).height),
                    old(self).width,
                    old(self).height,
                    old(self).settings.caves.convert_min,
                    old(self).settings.caves.smooth_iters as nat,
                )[x][y],
    {
        self.fill_base(max_heights, dense);
        assert forall|x: int, y: int| in_grid(self.width, self.height, x, y) implies ground_kind(
            #[trigger] self.front.cell(x, y),
        ) by {
            assert(self.front.cell(x, y) == base_front(max_heights@[x], dense@[x]@[y], y));
        }
        assert forall|x: int, y: int| in_grid(self.width, self.height, x, y) implies background_kind(
            #[trigger] self.back.cell(x, y),
        ) by {
            assert(self.front.cell(x, y) == base_front(max_heights@[x], dense@[x]@[y], y));
            assert(self.back.cell(x, y) == base_back(
                max_heights@[x],
                old(self).settings.background_offset,
                y,
            ));
        }
        assert(unlayered(self.front, self.back));
        let ghost back_base = self.back;
        assert forall|x: int, y: int| in_grid(self.width, self.height, x, y) implies #[trigger] occupied(self.back, x, y)
            == (y + old(self).settings.background_offset <= max_heights@[x]) by {
            assert(self.front.cell(x, y) == base_front(max_heights@[x], dense@[x]@[y], y));
            assert(self.back.cell(x, y) == base_back(max_heights@[x], old(self).settings.background_offset, y));
        }
        let ghost base = base_solids(max_heights@, dense@, self.width, self.height);
        let ghost (w, h, cm) = (self.width, self.height, self.settings.caves.convert_min);
        assert forall|x: int, y: int| in_grid(w, h, x, y) implies #[trigger] occupied(self.front, x, y)
            == caves(base, w, h, cm, 0)[x][y] by {
            assert(self.front.cell(x, y) == base_front(max_heights@[x], dense@[x]@[y], y));
        }
        let iters = self.settings.caves.smooth_iters;
        let mut i: u32 = 0;
        while i < iters
            invariant
                self.wf(),
                self.width == old(self).width,
                self.height == old(self).height,
                self.settings == old(self).settings,
                self.seed == old(self).seed,
                only_ground(self.front),
                only_background(self.back),
                unlayered(self.front, self.back),
                i <= iters,
                self.back == back_base,
                base == base_solids(max_heights@, dense@, self.width, self.height),
                w == self.width && h == self.height && cm == self.settings.caves.convert_min,
                forall|x: int, y: int|
                    in_grid(w, h, x, y) ==> #[trigger] occupied(self.front, x, y) == caves(base, w, h, cm, i as nat)[x][y],
            decreases iters - i,
        {
            let ghost prev = self.front;
            self.front = self.smooth();
            i = i + 1;
            assert forall|x: int, y: int| in_grid(self.width, self.height, x, y) implies {
                let (f, b) = (#[trigger] self.front.cell(x, y).id, self.back.cell(x, y).id);
                &&& f == TileId::Empty || f == TileId::Ground(Ground::Stone)
                &&& b == TileId::Empty || b == TileId::Background(Background::Stone)
            } by {
                assert(self.front.cell(x, y) == smoothed_tile(prev, self.settings.caves.convert_min, x, y));
                assert(prev.cell(x, y).id == TileId::Empty || prev.cell(x, y).id == TileId::Ground(Ground::Stone));
            }
            assert forall|x: int, y: int| in_grid(w, h, x, y) implies #[trigger] occupied(self.front, x, y)
                == caves(base, w, h, cm, i as nat)[x][y] by {
                let g = caves(base, w, h, cm, (i - 1) as nat);
                assert(self.front.cell(x, y) == smoothed_tile(prev, cm, x, y));
                lemma_mask_count(prev, x, y);
                assert(occupied(prev, x - 1, y + 1) == solid_in(g, w, h, x - 1, y + 1));
                assert(occupied(prev, x, y + 1) == solid_in(g, w, h, x, y + 1));
                assert(occupied(prev, x + 1, y + 1) == solid_in(g, w, h, x + 1, y + 1));
                assert(occupied(prev, x - 1, y) == solid_in(g, w, h, x - 1, y));
                assert(occupied(prev, x + 1, y) == solid_in(g, w, h, x + 1, y));
                assert(occupied(prev, x - 1, y - 1) == solid_in(g, w, h, x - 1, y - 1));
                assert(occupied(prev, x, y - 1) == solid_in(g, w, h, x, y - 1));
                assert(occupied(prev, x + 1, y - 1) == solid_in(g, w, h, x + 1, y - 1));
            }
        }
        let ghost cave_front = self.front;
        let ghost back0 = self.back;
        let jitter = self.settings.stone_jitter;
        let mut dirt_heights: Vec<u32> = Vec::new();
        let mut x: u32 = 0;
        while x < self.width
            invariant
                self.wf(),
                self.width == old(self).width,
                self.height == old(self).height,
                self.settings == old(self).settings,
                self.seed == old(self).seed,
                dirt_bases@.len() == self.width,
                dirt_heights@.len() == x,
                x <= self.width,
                only_ground(self.front),
                only_background(self.back),
                unlayered(self.front, self.back),
                self.front == cave_front,
                self.back == back0,
                jitter == self.settings.stone_jitter,
                forall|k: int|
                    0 <= k < x ==> dirt_bases@[k] <= #[trigger] dirt_heights@[k] < dirt_bases@[k] + if jitter > 0 {
                        jitter as int
                    } else {
                        1
                    },
            decreases self.width - x,
        {
            let base = dirt_bases[x as usize];
            let lift = if jitter > 0 {
                gen_range(&mut self.rng, 0, jitter)
            } else {
                0
            };
            if base as u64 + lift as u64 > u32::MAX as u64 {
                dirt_heights.push(u32::MAX);
            } else {
                dirt_heights.push(base + lift);
            }
            x = x + 1;
        }
        let ghost before_dirt = *self;
        self.stratify(&dirt_heights);
        assert forall|x: int, y: int| in_grid(self.width, self.height, x, y) implies ground_kind(
            #[trigger] self.front.cell(x, y),
        ) && self.front.cell(x, y).id != TileId::Ground(Ground::Grass) by {
            assert(ground_kind(before_dirt.front.cell(x, y)));
            assert(before_dirt.front.cell(x, y).id == TileId::Empty || before_dirt.front.cell(x, y).id
                == TileId::Ground(Ground::Stone));
        }
        assert forall|x: int, y: int| in_grid(self.width, self.height, x, y) implies background_kind(
            #[trigger] self.back.cell(x, y),
        ) by {
            assert(self.front.cell(x, y) == stratified(
                before_dirt.front.cell(x, y),
                dirt_tile(),
                dirt_heights@[x],
                y,
            ));
            assert(background_kind(before_dirt.back.cell(x, y)));
        }
        assert forall|x: int, y: int| in_grid(self.width, self.height, x, y) implies {
            let (f, b) = (#[trigger] self.front.cell(x, y).id, self.back.cell(x, y).id);
            &&& (f == TileId::Ground(Ground::Dirt) || b == TileId::Background(Background::Dirt))
                ==> y >= dirt_heights@[x]
            &&& (f == TileId::Ground(Ground::Stone) || b == TileId::Background(Background::Stone))
                ==> y < dirt_heights@[x]
        } by {
            assert(before_dirt.front.cell(x, y).id == TileId::Empty || before_dirt.front.cell(x, y).id
                == TileId::Ground(Ground::Stone));
            assert(before_dirt.back.cell(x, y).id == TileId::Empty || before_dirt.back.cell(x, y).id
                == TileId::Background(Background::Stone));
        }
        assert(dirt_line(self.front, self.back, dirt_heights@));
        assert forall|x: int, y: int| in_grid(self.width, self.height, x, y) implies #[trigger] occupied(self.front, x, y)
            == occupied(cave_front, x, y) by {
            assert(self.front.cell(x, y) == stratified(
                before_dirt.front.cell(x, y),
                dirt_tile(),
                dirt_heights@[x],
                y,
            ));
        }
        assert forall|x: int, y: int| in_grid(self.width, self.height, x, y) implies #[trigger] occupied(self.back, x, y)
            == occupied(back_base, x, y) by {
            assert(self.front.cell(x, y) == stratified(
                before_dirt.front.cell(x, y),
                dirt_tile(),
                dirt_heights@[x],
                y,
            ));
        }
        let ghost strata_back = self.back;
        let ghost before_ores = self.front;
        self.scatter_ores();
        assert forall|x: int, y: int| in_grid(self.width, self.height, x, y) implies ground_kind(
            #[trigger] self.front.cell(x, y),
        ) && self.front.cell(x, y).id != TileId::Ground(Ground::Grass) && (self.front.cell(x, y)
            == before_ores.cell(x, y) || self.front.cell(x, y).id is Ore) by {
            assert(ore_or_same(before_ores.cell(x, y), self.front.cell(x, y)));
            assert(ground_kind(before_ores.cell(x, y)));
            assert(before_ores.cell(x, y).id != TileId::Ground(Ground::Grass));
        }
        assert(dirt_line(self.front, self.back, dirt_heights@));
        assert forall|x: int, y: int| in_grid(self.width, self.height, x, y) implies #[trigger] occupied(self.front, x, y)
            == occupied(cave_front, x, y) by {
            assert(occupied(before_ores, x, y) == occupied(cave_front, x, y));
            assert(ore_or_same(before_ores.cell(x, y), self.front.cell(x, y)));
        }
        let ghost before_grass = self.front;
        self.place_grass();
        assert forall|x: int, y: int| in_grid(self.width, self.height, x, y) implies ground_kind(
            #[trigger] self.front.cell(x, y),
        ) && ((self.front.cell(x, y).id == TileId::Ground(Ground::Grass)) == is_column_top(
            self.front,
            x,
            y,
        )) && (self.front.cell(x, y) == before_grass.cell(x, y) || self.front.cell(x, y).id
            == TileId::Ground(Ground::Grass)) by {
            assert(ground_kind(before_grass.cell(x, y)));
            assert(before_grass.cell(x, y).id != TileId::Ground(Ground::Grass));
            assert forall|k: int| 0 <= k < self.height implies occupied(self.front, x, k) == occupied(
                before_grass,
                x,
                k,
            ) by {
                assert(self.front.cell(x, k) == if is_column_top(before_grass, x, k) {
                    grass_tile()
                } else {
                    before_grass.cell(x, k)
                });
            }
            assert(is_column_top(self.front, x, y) == is_column_top(before_grass, x, y));
        }
        assert(dirt_line(self.front, self.back, dirt_heights@));
        assert forall|x: int, y: int| in_grid(self.width, self.height, x, y) implies #[trigger] occupied(self.front, x, y)
            == occupied(cave_front, x, y) by {
            assert(occupied(before_grass, x, y) == occupied(cave_front, x, y));
            assert(self.front.cell(x, y) == if is_column_top(before_grass, x, y) {
                grass_tile()
            } else {
                before_grass.cell(x, y)
            });
        }
        self.middle = Layer::new(self.width, self.height, Tile::empty());
        let ghost cleared = self.middle;
        assert(all_empty(cleared));
        let ghost grassed = self.front;
        self.place_trees();
        let ghost wooded = self.middle;
        self.place_decor();
        assert forall|x: int, y: int| in_grid(self.width, self.height, x, y) implies {
            let id = (#[trigger] self.middle.cell(x, y)).id;
            &&& id == TileId::Empty || id is Tree || id is SurfaceDecor
            &&& id != TileId::Empty ==> self.front.cell(x, y).id == TileId::Empty
        } by {
            assert(wooded.cell(x, y) == cleared.cell(x, y) || wooded.cell(x, y).id is Tree);
            if self.middle.cell(x, y).id != TileId::Empty {
                if self.middle.cell(x, y) != wooded.cell(x, y) {
                    let (x0, y0, k) = choose|x0: int, y0: int, k: u32|
                        #[trigger] decor_origin(grassed, wooded, self.middle.cell(x, y), x, y, x0, y0, k);
                } else {
                    let (x0, y0, v) = choose|x0: int, y0: int, v: Seq<u32>|
                        #[trigger] tree_origin(grassed, cleared, wooded.cell(x, y), x, y, x0, y0, v);
                }
            }
        }
        let ghost (front_tiles, back_tiles) = (self.front, self.back);
        self.front.resolve_textures();
        self.back.resolve_textures();
        assert forall|x: int, y: int| in_grid(self.width, self.height, x, y) implies ground_kind(
            #[trigger] self.front.cell(x, y),
        ) && self.front.cell(x, y).id == front_tiles.cell(x, y).id && (self.middle.cell(x, y).id
            != TileId::Empty ==> self.front.cell(x, y).id == TileId::Empty) by {
            assert(ground_kind(front_tiles.cell(x, y)));
        }
        assert forall|x: int, y: int| in_grid(self.width, self.height, x, y) implies background_kind(
            #[trigger] self.back.cell(x, y),
        ) && self.back.cell(x, y).id == back_tiles.cell(x, y).id by {
            assert(background_kind(back_tiles.cell(x, y)));
        }
        assert forall|x: int, y: int| in_grid(self.width, self.height, x, y) implies ((
        #[trigger] self.front.cell(x, y)).id == TileId::Ground(Ground::Grass) <==> is_column_top(
            self.front,
            x,
            y,
        )) by {
            assert forall|k: int| 0 <= k < self.height implies occupied(self.front, x, k) == occupied(
                front_tiles,
                x,
                k,
            ) by {
                assert(self.front.cell(x, k).id == front_tiles.cell(x, k).id);
            }
            assert(is_column_top(self.front, x, y) == is_column_top(front_tiles, x, y));
            assert(front_tiles.cell(x, y).id == TileId::Ground(Ground::Grass) <==> is_column_top(
                front_tiles,
                x,
                y,
            ));
        }
        assert forall|x: int, y: int| in_grid(self.width, self.height, x, y) implies {
            let (f, b) = (#[trigger] self.front.cell(x, y).id, self.back.cell(x, y).id);
            &&& (f == TileId::Ground(Ground::Dirt) || b == TileId::Background(Background::Dirt))
                ==> y >= dirt_heights@[x]
            &&& (f == TileId::Ground(Ground::Stone) || b == TileId::Background(Background::Stone))
                ==> y < dirt_heights@[x]
        } by {
            assert(self.back.cell(x, y).id == back_tiles.cell(x, y).id);
            assert(self.front.cell(x, y).id == front_tiles.cell(x, y).id);
        }
        assert(dirt_line(self.front, self.back, dirt_heights@));
        assert forall|x: int, y: int| in_grid(self.width, self.height, x, y) implies #[trigger] occupied(self.front, x, y)
            == occupied(cave_front, x, y) by {
            assert(occupied(front_tiles, x, y) == occupied(cave_front, x, y));
            assert(self.front.cell(x, y).id == front_tiles.cell(x, y).id);
        }
        assert(back_tiles == strata_back);
        assert forall|x: int, y: int| in_grid(self.width, self.height, x, y) implies #[trigger] occupied(self.back, x, y)
            == occupied(back_base, x, y) by {
            assert(occupied(strata_back, x, y) == occupied(back_base, x, y));
            assert(self.back.cell(x, y).id == back_tiles.cell(x, y).id);
        }
        self.generate_path_tiles();
    }
}

} // verus!
