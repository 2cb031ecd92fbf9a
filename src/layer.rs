use vstd::prelude::*;

use crate::surrounds::{bit_count, offset_of_mask, Surrounds, BL, BM, BR, ML, MR, TL, TM, TR};
use crate::tile::{Tile, TileId};

verus! {

/// A `width` × `height` grid of cells, stored column by column.
pub struct Layer<T> {
    pub width: u32,
    pub height: u32,
    pub elements: Vec<Vec<T>>,
}

/// Whether `(x, y)` lies on a `width` × `height` grid.
pub open spec fn in_grid(width: u32, height: u32, x: int, y: int) -> bool {
    0 <= x < width && 0 <= y < height
}

impl<T> View for Layer<T> {
    type V = Seq<Seq<T>>;

    /// The cells, indexed by column and then by row.
    open spec fn view(&self) -> Seq<Seq<T>> {
        Seq::new(self.elements@.len(), |i: int| self.elements@[i]@)
    }
}

impl<T: Copy> Layer<T> {
    /// The grid holds exactly `width` columns of `height` cells.
    pub open spec fn wf(&self) -> bool {
        &&& self@.len() == self.width
        &&& forall|x: int| 0 <= x < self.width ==> (#[trigger] self@[x]).len() == self.height
    }

    /// The cell at `(x, y)`, which must lie on the grid.
    pub open spec fn cell(&self, x: int, y: int) -> T {
        self@[x][y]
    }

    /// A grid of the given extents with every cell set to `fill`.
    pub fn new(width: u32, height: u32, fill: T) -> (r: Layer<T>)
        ensures
            r.wf(),
            r.width == width,
            r.height == height,
            forall|x: int, y: int| in_grid(width, height, x, y) ==> r.cell(x, y) == fill,
    {
        let mut elements: Vec<Vec<T>> = Vec::with_capacity(width as usize);
        let mut x: u32 = 0;
        while x < width
            invariant
                x <= width,
                elements@.len() == x,
                forall|i: int| 0 <= i < x ==> (#[trigger] elements@[i])@.len() == height,
                forall|i: int, j: int|
                    0 <= i < x && 0 <= j < height ==> #[trigger] elements@[i]@[j] == fill,
            decreases width - x,
        {
            let mut column: Vec<T> = Vec::with_capacity(height as usize);
            let mut y: u32 = 0;
            while y < height
                invariant
                    y <= height,
                    column@.len() == y,
                    forall|j: int| 0 <= j < y ==> column@[j] == fill,
                decreases height - y,
            {
                column.push(fill);
                y = y + 1;
            }
            elements.push(column);
            x = x + 1;
        }
        Layer { width, height, elements }
    }

    /// The cell at `(x, y)`, or `None` off the grid.
    pub fn get(&self, x: i64, y: i64) -> (r: Option<&T>)
        requires
            self.wf(),
        ensures
            r.is_some() == in_grid(self.width, self.height, x as int, y as int),
            r.is_some() ==> *r.unwrap() == self.cell(x as int, y as int),
    {
        if x >= 0 && x < self.width as i64 && y >= 0 && y < self.height as i64 {
            assert(self@[x as int] == self.elements@[x as int]@);
            Some(&self.elements[x as usize][y as usize])
        } else {
            None
        }
    }

    /// The cell at `(x, y)`, which must lie on the grid.
    pub fn at(&self, x: u32, y: u32) -> (r: T)
        requires
            self.wf(),
            x < self.width,
            y < self.height,
        ensures
            r == self.cell(x as int, y as int),
    {
        assert(self@[x as int] == self.elements@[x as int]@);
        self.elements[x as usize][y as usize]
    }

    /// Overwrites the cell at `(x, y)`, which must lie on the grid.
    pub fn set(&mut self, x: u32, y: u32, value: T)
        requires
            old(self).wf(),
            x < old(self).width,
            y < old(self).height,
        ensures
            final(self).wf(),
            final(self).width == old(self).width,
            final(self).height == old(self).height,
            final(self)@ == old(self)@.update(x as int, old(self)@[x as int].update(y as int, value)),
            forall|i: int, j: int|
                in_grid(old(self).width, old(self).height, i, j) ==> #[trigger] final(self).cell(i, j)
                    == if i == x && j == y {
                    value
                } else {
                    old(self).cell(i, j)
                },
    {
        let mut column: Vec<T> = Vec::new();
        assert(old(self)@[x as int] == old(self).elements@[x as int]@);
        self.elements.set_and_swap(x as usize, &mut column);
        column.set(y as usize, value);
        self.elements.set_and_swap(x as usize, &mut column);
        assert(self@ =~= old(self)@.update(x as int, old(self)@[x as int].update(y as int, value)));
    }
}

/// `(x, y)` lies on the grid and holds something other than `Empty`.
pub open spec fn occupied(l: Layer<Tile>, x: int, y: int) -> bool {
    in_grid(l.width, l.height, x, y) && l.cell(x, y).id != TileId::Empty
}

pub open spec fn flag(b: bool, v: int) -> int {
    if b {
        v
    } else {
        0
    }
}

/// The neighbour mask of `(x, y)`: one bit for each occupied compass neighbour,
/// rows growing upwards; cells off the grid count as empty.
#[verifier::opaque]
pub open spec fn mask_of(l: Layer<Tile>, x: int, y: int) -> u8 {
    (flag(occupied(l, x - 1, y + 1), 1) + flag(occupied(l, x, y + 1), 2) + flag(
        occupied(l, x + 1, y + 1),
        4,
    ) + flag(occupied(l, x - 1, y), 8) + flag(occupied(l, x + 1, y), 16) + flag(
        occupied(l, x - 1, y - 1),
        32,
    ) + flag(occupied(l, x, y - 1), 64) + flag(occupied(l, x + 1, y - 1), 128)) as u8
}

/// No cell on the grid is `Null`.
pub open spec fn no_null(l: Layer<Tile>) -> bool {
    forall|x: int, y: int| in_grid(l.width, l.height, x, y) ==> (#[trigger] l.cell(x, y)).id != TileId::Null
}

/// Number of occupied cells among the eight around `(x, y)`.
pub open spec fn neighbour_count(l: Layer<Tile>, x: int, y: int) -> int {
    flag(occupied(l, x - 1, y + 1), 1) + flag(occupied(l, x, y + 1), 1) + flag(occupied(l, x + 1, y + 1), 1)
        + flag(occupied(l, x - 1, y), 1) + flag(occupied(l, x + 1, y), 1) + flag(occupied(l, x - 1, y - 1), 1)
        + flag(occupied(l, x, y - 1), 1) + flag(occupied(l, x + 1, y - 1), 1)
}

/// Adding a low bit `b` below `m` adds `b` set bits.
pub proof fn lemma_bit_count_step(m: nat, b: nat)
    requires
        b < 2,
    ensures
        bit_count(b + 2 * m) == b + bit_count(m),
{
    assert((b + 2 * m) % 2 == b && (b + 2 * m) / 2 == m) by (nonlinear_arith)
        requires
            b < 2,
    ;
    if b + 2 * m == 0 {
        assert(m == 0);
    }
}

/// A number built from eight bits has as many set bits as the bits sum to.
pub proof fn lemma_eight_bits(f0: nat, f1: nat, f2: nat, f3: nat, f4: nat, f5: nat, f6: nat, f7: nat)
    requires
        f0 < 2 && f1 < 2 && f2 < 2 && f3 < 2 && f4 < 2 && f5 < 2 && f6 < 2 && f7 < 2,
    ensures
        bit_count(f0 + 2 * f1 + 4 * f2 + 8 * f3 + 16 * f4 + 32 * f5 + 64 * f6 + 128 * f7)
            == f0 + f1 + f2 + f3 + f4 + f5 + f6 + f7,
{
    let m6 = f6 + 2 * f7;
    let m5 = f5 + 2 * m6;
    let m4 = f4 + 2 * m5;
    let m3 = f3 + 2 * m4;
    let m2 = f2 + 2 * m3;
    let m1 = f1 + 2 * m2;
    let m0 = f0 + 2 * m1;
    assert(m0 == f0 + 2 * f1 + 4 * f2 + 8 * f3 + 16 * f4 + 32 * f5 + 64 * f6 + 128 * f7);
    lemma_bit_count_step(0, f7);
    assert(bit_count(0) == 0);
    lemma_bit_count_step(f7, f6);
    lemma_bit_count_step(m6, f5);
    lemma_bit_count_step(m5, f4);
    lemma_bit_count_step(m4, f3);
    lemma_bit_count_step(m3, f2);
    lemma_bit_count_step(m2, f1);
    lemma_bit_count_step(m1, f0);
}

/// The set bits of a neighbour mask count the occupied neighbours.
pub proof fn lemma_mask_count(l: Layer<Tile>, x: int, y: int)
    ensures
        bit_count(mask_of(l, x, y) as nat) == neighbour_count(l, x, y),
{
    reveal(mask_of);
    let f0 = flag(occupied(l, x - 1, y + 1), 1) as nat;
    let f1 = flag(occupied(l, x, y + 1), 1) as nat;
    let f2 = flag(occupied(l, x + 1, y + 1), 1) as nat;
    let f3 = flag(occupied(l, x - 1, y), 1) as nat;
    let f4 = flag(occupied(l, x + 1, y), 1) as nat;
    let f5 = flag(occupied(l, x - 1, y - 1), 1) as nat;
    let f6 = flag(occupied(l, x, y - 1), 1) as nat;
    let f7 = flag(occupied(l, x + 1, y - 1), 1) as nat;
    assert(mask_of(l, x, y) as nat == f0 + 2 * f1 + 4 * f2 + 8 * f3 + 16 * f4 + 32 * f5 + 64 * f6 + 128 * f7);
    lemma_eight_bits(f0, f1, f2, f3, f4, f5, f6, f7);
}

/// Two grids of equal extents whose cells are occupied at the same places.
pub open spec fn same_occupancy(a: Layer<Tile>, b: Layer<Tile>) -> bool {
    &&& a.width == b.width
    &&& a.height == b.height
    &&& forall|x: int, y: int|
        in_grid(a.width, a.height, x, y) ==> (#[trigger] a.cell(x, y).id == TileId::Empty <==> b.cell(
            x,
            y,
        ).id == TileId::Empty)
}

/// Masks only depend on which cells are occupied.
pub proof fn lemma_same_occupancy_same_mask(a: Layer<Tile>, b: Layer<Tile>, x: int, y: int)
    requires
        same_occupancy(a, b),
    ensures
        mask_of(a, x, y) == mask_of(b, x, y),
{
    reveal(mask_of);
    assert(occupied(a, x - 1, y + 1) == occupied(b, x - 1, y + 1));
    assert(occupied(a, x, y + 1) == occupied(b, x, y + 1));
    assert(occupied(a, x + 1, y + 1) == occupied(b, x + 1, y + 1));
    assert(occupied(a, x - 1, y) == occupied(b, x - 1, y));
    assert(occupied(a, x + 1, y) == occupied(b, x + 1, y));
    assert(occupied(a, x - 1, y - 1) == occupied(b, x - 1, y - 1));
    assert(occupied(a, x, y - 1) == occupied(b, x, y - 1));
    assert(occupied(a, x + 1, y - 1) == occupied(b, x + 1, y - 1));
}

impl Layer<Tile> {
    /// Whether `(x, y)` lies on the grid and is occupied.
    pub fn is_occupied(&self, x: i64, y: i64) -> (r: bool)
        requires
            self.wf(),
        ensures
            r == occupied(*self, x as int, y as int),
    {
        match self.get(x, y) {
            Some(t) => t.id != TileId::Empty,
            None => false,
        }
    }

    /// The neighbour mask of `(x, y)`.
    pub fn get_surrounds(&self, x: u32, y: u32) -> (r: Surrounds)
        requires
            self.wf(),
        ensures
            r.bits == mask_of(*self, x as int, y as int),
    {
        let (x, y) = (x as i64, y as i64);
        let mut bits: u8 = 0;
        if self.is_occupied(x - 1, y + 1) {
            bits = bits + TL;
        }
        if self.is_occupied(x, y + 1) {
            bits = bits + TM;
        }
        if self.is_occupied(x + 1, y + 1) {
            bits = bits + TR;
        }
        if self.is_occupied(x - 1, y) {
            bits = bits + ML;
        }
        if self.is_occupied(x + 1, y) {
            bits = bits + MR;
        }
        if self.is_occupied(x - 1, y - 1) {
            bits = bits + BL;
        }
        if self.is_occupied(x, y - 1) {
            bits = bits + BM;
        }
        if self.is_occupied(x + 1, y - 1) {
            bits = bits + BR;
        }
        proof {
            reveal(mask_of);
        }
        Surrounds::from_bits(bits)
    }

    /// Stores in every occupied cell the texture offset that its neighbour
    /// mask selects; identities and empty cells stay as they are.
    pub fn resolve_textures(&mut self)
        requires
            old(self).wf(),
        ensures
            final(self).wf(),
            same_occupancy(*final(self), *old(self)),
            textures_resolved(*final(self)),
            forall|x: int, y: int|
                in_grid(old(self).width, old(self).height, x, y) ==> {
                    &&& (#[trigger] final(self).cell(x, y)).id == old(self).cell(x, y).id
                    &&& old(self).cell(x, y).id == TileId::Empty ==> final(self).cell(x, y)
                        == old(self).cell(x, y)
                },
    {
        let ghost l0 = *self;
        let mut x: u32 = 0;
        while x < self.width
            invariant
                self.wf(),
                l0.wf(),
                self.width == l0.width,
                self.height == l0.height,
                x <= self.width,
                forall|i: int, j: int|
                    in_grid(l0.width, l0.height, i, j) ==> #[trigger] self.cell(i, j) == if i < x {
                        resolved_tile(l0, i, j)
                    } else {
                        l0.cell(i, j)
                    },
            decreases self.width - x,
        {
            let mut y: u32 = 0;
            while y < self.height
                invariant
                    self.wf(),
                    l0.wf(),
                    self.width == l0.width,
                    self.height == l0.height,
                    x < self.width,
                    y <= self.height,
                    forall|i: int, j: int|
                        in_grid(l0.width, l0.height, i, j) ==> #[trigger] self.cell(i, j) == if i < x
                            || (i == x && j < y) {
                            resolved_tile(l0, i, j)
                        } else {
                            l0.cell(i, j)
                        },
                decreases self.height - y,
            {
                let t = self.at(x, y);
                if t.id != TileId::Empty {
                    assert(same_occupancy(*self, l0));
                    proof {
                        lemma_same_occupancy_same_mask(*self, l0, x as int, y as int);
                    }
                    let offset = self.get_surrounds(x, y).get_texture_offset();
                    self.set(x, y, Tile::new(t.id, Some(offset)));
                }
                y = y + 1;
            }
            x = x + 1;
        }
        assert forall|x: int, y: int|
            in_grid(self.width, self.height, x, y) && (#[trigger] self.cell(x, y)).id
                != TileId::Empty implies self.cell(x, y).texture_offset == Some(
            offset_of_mask(mask_of(*self, x, y)),
        ) by {
            assert(same_occupancy(*self, l0));
            lemma_same_occupancy_same_mask(*self, l0, x, y);
        }
    }

    /// Resolves the texture offsets of the occupied cells in the 3 × 3 block
    /// centred on `(x, y)`; every other cell stays as it is.
    pub fn update_surrounds(&mut self, x: u32, y: u32)
        requires
            old(self).wf(),
        ensures
            final(self).wf(),
            same_occupancy(*final(self), *old(self)),
            forall|i: int, j: int|
                in_grid(old(self).width, old(self).height, i, j) ==> #[trigger] final(self).cell(i, j)
                    == if near(x as int, y as int, i, j) {
                    resolved_tile(*old(self), i, j)
                } else {
                    old(self).cell(i, j)
                },
    {
        let ghost l0 = *self;
        let mut i: i64 = x as i64 - 1;
        while i <= x as i64 + 1
            invariant
                self.wf(),
                l0.wf(),
                self.width == l0.width,
                self.height == l0.height,
                x - 1 <= i <= x + 2,
                forall|a: int, b: int|
                    in_grid(l0.width, l0.height, a, b) ==> #[trigger] self.cell(a, b) == if near(
                        x as int,
                        y as int,
                        a,
                        b,
                    ) && a < i {
                        resolved_tile(l0, a, b)
                    } else {
                        l0.cell(a, b)
                    },
            decreases x + 2 - i,
        {
            let mut j: i64 = y as i64 - 1;
            while j <= y as i64 + 1
                invariant
                    self.wf(),
                    l0.wf(),
                    self.width == l0.width,
                    self.height == l0.height,
                    x - 1 <= i <= x + 1,
                    y - 1 <= j <= y + 2,
                    forall|a: int, b: int|
                        in_grid(l0.width, l0.height, a, b) ==> #[trigger] self.cell(a, b) == if near(
                            x as int,
                            y as int,
                            a,
                            b,
                        ) && (a < i || (a == i && b < j)) {
                            resolved_tile(l0, a, b)
                        } else {
                            l0.cell(a, b)
                        },
                decreases y + 2 - j,
            {
                if self.is_occupied(i, j) {
                    assert(same_occupancy(*self, l0));
                    proof {
                        lemma_same_occupancy_same_mask(*self, l0, i as int, j as int);
                    }
                    let t = self.at(i as u32, j as u32);
                    let offset = self.get_surrounds(i as u32, j as u32).get_texture_offset();
                    self.set(i as u32, j as u32, Tile::new(t.id, Some(offset)));
                }
                j = j + 1;
            }
            i = i + 1;
        }
    }
}

/// `(i, j)` lies in the 3 × 3 block centred on `(x, y)`.
pub open spec fn near(x: int, y: int, i: int, j: int) -> bool {
    x - 1 <= i <= x + 1 && y - 1 <= j <= y + 1
}

/// The cell `(x, y)` of `l` with its texture offset resolved.
pub open spec fn resolved_tile(l: Layer<Tile>, x: int, y: int) -> Tile {
    if l.cell(x, y).id == TileId::Empty {
        l.cell(x, y)
    } else {
        Tile { id: l.cell(x, y).id, texture_offset: Some(offset_of_mask(mask_of(l, x, y))) }
    }
}

/// Every occupied cell carries the offset that its neighbour mask selects.
pub open spec fn textures_resolved(l: Layer<Tile>) -> bool {
    forall|x: int, y: int|
        in_grid(l.width, l.height, x, y) && (#[trigger] l.cell(x, y)).id != TileId::Empty
            ==> l.cell(x, y).texture_offset == Some(offset_of_mask(mask_of(l, x, y)))
}

} // verus!
