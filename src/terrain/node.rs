use vstd::prelude::*;

use crate::layer::{in_grid, Layer};
use crate::terrain::Terrain;

verus! {

/// Whether a cell can be stood on.
#[derive(Clone, Copy, Debug, PartialEq, Eq, Structural)]
pub enum PathTile {
    NonWalkable,
    Walkable,
}

/// A grid coordinate visited by the path planner.
#[derive(Clone, Copy, Debug, Default, PartialEq, Eq, Hash, Structural)]
pub struct PathNode {
    pub x: u32,
    pub y: u32,
}

pub const STRAIGHT_COST: u32 = 10;
pub const DIAGONAL_COST: u32 = 14;

/// Largest number of cells on which a search is run: path costs then stay
/// well inside `u32`.
pub const MAX_SEARCH_CELLS: u64 = 268435456;

/// `n` lies on the grid and is walkable.
pub open spec fn is_walkable_node(nodes: Layer<PathTile>, n: PathNode) -> bool {
    in_grid(nodes.width, nodes.height, n.x as int, n.y as int) && nodes.cell(n.x as int, n.y as int)
        == PathTile::Walkable
}

/// `b` is one of the eight cells around `a`.
pub open spec fn adjacent(a: PathNode, b: PathNode) -> bool {
    &&& a != b
    &&& -1 <= b.x - a.x <= 1
    &&& -1 <= b.y - a.y <= 1
}

/// Cost of the move from `a` to the adjacent `b`.
pub open spec fn step_cost(a: PathNode, b: PathNode) -> u32 {
    if a.x == b.x || a.y == b.y {
        STRAIGHT_COST
    } else {
        DIAGONAL_COST
    }
}

/// A move from `a` to `b` is an edge of the walkability graph.
pub open spec fn is_step(nodes: Layer<PathTile>, a: PathNode, b: PathNode) -> bool {
    adjacent(a, b) && is_walkable_node(nodes, b)
}

/// `p` leads from `start` to `goal` through edges of the walkability graph.
pub open spec fn is_route(nodes: Layer<PathTile>, p: Seq<PathNode>, start: PathNode, goal: PathNode) -> bool {
    &&& p.len() > 0
    &&& p[0] == start
    &&& p.last() == goal
    &&& forall|i: int| 0 <= i < p.len() - 1 ==> #[trigger] is_step(nodes, p[i], p[i + 1])
}

/// Total cost of the moves along `p`.
pub open spec fn route_cost(p: Seq<PathNode>) -> int
    decreases p.len(),
{
    if p.len() < 2 {
        0
    } else {
        route_cost(p.drop_last()) + step_cost(p[p.len() - 2], p.last())
    }
}

/// No node occurs twice in `p`.
pub open spec fn distinct_nodes(p: Seq<PathNode>) -> bool {
    forall|i: int, j: int| 0 <= i < j < p.len() ==> p[i] != p[j]
}

/// `p` is a route from `start` to `goal` that no other route undercuts.
pub open spec fn is_shortest_route(nodes: Layer<PathTile>, p: Seq<PathNode>, start: PathNode, goal: PathNode) -> bool {
    &&& is_route(nodes, p, start, goal)
    &&& distinct_nodes(p)
    &&& forall|q: Seq<PathNode>| #[trigger] is_route(nodes, q, start, goal) ==> route_cost(p) <= route_cost(q)
}

/// Some route leads from `start` to `goal`.
pub open spec fn route_exists(nodes: Layer<PathTile>, start: PathNode, goal: PathNode) -> bool {
    exists|q: Seq<PathNode>| #[trigger] is_route(nodes, q, start, goal)
}

/// The walkability grid as flags, column by column.
pub open spec fn walk_flags(nodes: Layer<PathTile>) -> Seq<Seq<bool>> {
    Seq::new(nodes.width as nat, |x: int| Seq::new(nodes.height as nat, |y: int| nodes.cell(x, y) == PathTile::Walkable))
}

pub open spec fn coords(p: Seq<PathNode>) -> Seq<(u32, u32)> {
    p.map_values(|n: PathNode| (n.x, n.y))
}

/// The path that pathfinding's `astar` returns on a grid of walkability
/// flags between two cells, as coordinates.
pub uninterp spec fn astar_path(flags: Seq<Seq<bool>>, start: (u32, u32), goal: (u32, u32)) -> Option<Seq<(u32, u32)>>;

/// Whether `(x, y)` is walkable according to `flags`.
pub open spec fn flag_at(flags: Seq<Seq<bool>>, x: u32, y: u32) -> bool {
    x < flags.len() && y < flags[x as int].len() && flags[x as int][y as int]
}

/// The plan `find_path` makes: nothing when an end is not walkable, else
/// the search's path.
pub open spec fn planned_path(flags: Seq<Seq<bool>>, start: (u32, u32), goal: (u32, u32)) -> Option<Seq<(u32, u32)>> {
    if flag_at(flags, start.0, start.1) && flag_at(flags, goal.0, goal.1) {
        astar_path(flags, start, goal)
    } else {
        None
    }
}

/// Equal walkability grids and equal ends give equal plans.
pub proof fn lemma_plan_deterministic(a: Layer<PathTile>, b: Layer<PathTile>, start: (u32, u32), goal: (u32, u32))
    requires
        walk_flags(a) == walk_flags(b),
    ensures
        planned_path(walk_flags(a), start, goal) == planned_path(walk_flags(b), start, goal),
{
}

/// The move offset `(dx, dy)` from `a` to `b` comes before `(ex, ey)` when
/// offsets are taken column by column.
pub open spec fn delta_before(a: PathNode, b: PathNode, ex: int, ey: int) -> bool {
    (b.x - a.x) < ex || ((b.x - a.x) == ex && (b.y - a.y) < ey)
}

pub open spec fn walkable_neighbour_listed(
    nodes: Layer<PathTile>,
    root: PathNode,
    r: Seq<(PathNode, u32)>,
    ex: int,
    ey: int,
) -> bool {
    &&& forall|i: int|
        0 <= i < r.len() ==> is_step(nodes, root, (#[trigger] r[i]).0) && r[i].1 == step_cost(
            root,
            r[i].0,
        ) && delta_before(root, r[i].0, ex, ey)
    &&& forall|n: PathNode|
        is_step(nodes, root, n) && delta_before(root, n, ex, ey) ==> exists|i: int|
            0 <= i < r.len() && (#[trigger] r[i]).0 == n
    &&& forall|i: int, j: int| 0 <= i < j < r.len() ==> r[i].0 != r[j].0
}

impl PathNode {
    pub fn new(x: u32, y: u32) -> (r: PathNode)
        ensures
            r.x == x,
            r.y == y,
    {
        PathNode { x, y }
    }

    /// Whether both nodes name the same cell.
    pub fn same_cell(&self, other: &PathNode) -> (r: bool)
        ensures
            r == (*self == *other),
    {
        self.x == other.x && self.y == other.y
    }

    /// Euclidean distance to `other`, rounded down (saturating at `u32::MAX`).
    pub fn distance(&self, other: &PathNode) -> (r: u32)
        ensures
            ({
                let d2 = (self.x - other.x) * (self.x - other.x) + (self.y - other.y) * (self.y
                    - other.y);
                &&& r * r <= d2
                &&& r < u32::MAX ==> d2 < (r + 1) * (r + 1)
            }),
    {
        let dx: u128 = if self.x >= other.x {
            (self.x - other.x) as u128
        } else {
            (other.x - self.x) as u128
        };
        let dy: u128 = if self.y >= other.y {
            (self.y - other.y) as u128
        } else {
            (other.y - self.y) as u128
        };
        assert(dx * dx < 0x1_0000_0000_0000_0000 && dy * dy < 0x1_0000_0000_0000_0000) by (nonlinear_arith)
            requires
                dx < 0x1_0000_0000,
                dy < 0x1_0000_0000,
        ;
        let d2: u128 = dx * dx + dy * dy;
        let mut lo: u128 = 0;
        let mut hi: u128 = 0x2_0000_0000;
        assert(hi * hi > d2) by (nonlinear_arith)
            requires
                hi == 0x2_0000_0000,
                d2 < 0x2_0000_0000_0000_0000,
        ;
        while hi - lo > 1
            invariant
                lo < hi <= 0x2_0000_0000,
                lo * lo <= d2,
                d2 < hi * hi,
            decreases hi - lo,
        {
            let mid = lo + (hi - lo) / 2;
            assert(mid * mid <= 0x4_0000_0000_0000_0000) by (nonlinear_arith)
                requires
                    mid <= 0x2_0000_0000,
            ;
            if mid * mid <= d2 {
                lo = mid;
            } else {
                hi = mid;
            }
        }
        assert(d2 == (self.x - other.x) * (self.x - other.x) + (self.y - other.y) * (self.y
            - other.y)) by (nonlinear_arith)
            requires
                dx == if self.x >= other.x {
                    self.x - other.x
                } else {
                    other.x - self.x
                },
                dy == if self.y >= other.y {
                    self.y - other.y
                } else {
                    other.y - self.y
                },
                d2 == dx * dx + dy * dy,
        ;
        if lo > u32::MAX as u128 {
            assert(u32::MAX * u32::MAX <= lo * lo) by (nonlinear_arith)
                requires
                    lo > u32::MAX,
            ;
            u32::MAX
        } else {
            lo as u32
        }
    }
}

impl Terrain {
    /// The walkable cells around `root`, each with the cost of moving there.
    pub fn path_neighbours(&self, root: &PathNode) -> (r: Vec<(PathNode, u32)>)
        requires
            self.nodes.wf(),
        ensures
            forall|i: int|
                0 <= i < r@.len() ==> is_step(self.nodes, *root, (#[trigger] r@[i]).0) && r@[i].1
                    == step_cost(*root, r@[i].0),
            forall|n: PathNode|
                is_step(self.nodes, *root, n) ==> exists|i: int|
                    0 <= i < r@.len() && (#[trigger] r@[i]).0 == n,
            forall|i: int, j: int| 0 <= i < j < r@.len() ==> r@[i].0 != r@[j].0,
    {
        let mut neighbours: Vec<(PathNode, u32)> = Vec::new();
        let mut dx: i64 = -1;
        while dx <= 1
            invariant
                -1 <= dx <= 2,
                self.nodes.wf(),
                walkable_neighbour_listed(self.nodes, *root, neighbours@, dx as int, -1),
            decreases 2 - dx,
        {
            let mut dy: i64 = -1;
            while dy <= 1
                invariant
                    -1 <= dx <= 1,
                    -1 <= dy <= 2,
                    self.nodes.wf(),
                    walkable_neighbour_listed(self.nodes, *root, neighbours@, dx as int, dy as int),
                decreases 2 - dy,
            {
                let (x, y) = (root.x as i64 + dx, root.y as i64 + dy);
                let ghost before = neighbours@;
                if !(dx == 0 && dy == 0) {
                    if let Some(node) = self.nodes.get(x, y) {
                        if *node == PathTile::Walkable {
                            let n = PathNode::new(x as u32, y as u32);
                            let cost = if dx == 0 || dy == 0 {
                                STRAIGHT_COST
                            } else {
                                DIAGONAL_COST
                            };
                            neighbours.push((n, cost));
                            assert forall|m: PathNode|
                                is_step(self.nodes, *root, m) && delta_before(
                                    *root,
                                    m,
                                    dx as int,
                                    dy as int + 1,
                                ) implies exists|i: int|
                                0 <= i < neighbours@.len() && (#[trigger] neighbours@[i]).0 == m by {
                                if m == n {
                                    assert(neighbours@[before.len() as int].0 == m);
                                } else {
                                    let i = choose|i: int| 0 <= i < before.len() && (#[trigger] before[i]).0 == m;
                                    assert(neighbours@[i] == before[i]);
                                }
                            }
                        }
                    }
                }
                dy = dy + 1;
            }
            dx = dx + 1;
        }
        neighbours
    }

    /// Whether `n` lies on the grid and is walkable.
    pub fn is_walkable_node(&self, n: &PathNode) -> (r: bool)
        requires
            self.nodes.wf(),
        ensures
            r == is_walkable_node(self.nodes, *n),
    {
        match self.nodes.get(n.x as i64, n.y as i64) {
            Some(t) => *t == PathTile::Walkable,
            None => false,
        }
    }

    /// A* search from `start` to `goal` over the walkable cells: moves go to
    /// the eight neighbours, cost 10 straight and 14 diagonal, guided by the
    /// Euclidean distance to `goal`. `None` when an end is not walkable or no
    /// route was found.
    ///
    /// Ties are broken by one fixed rule: of two open cells with the same
    /// estimate, the one reached at the higher cost is expanded first, and
    /// neighbours are offered column by column, bottom to top. The same grid
    /// and ends therefore always give the same path.
    pub fn find_path(&self, start: &PathNode, goal: &PathNode) -> (r: Option<Vec<PathNode>>)
        requires
            self.wf(),
            self.width * self.height <= MAX_SEARCH_CELLS,
        ensures
            !is_walkable_node(self.nodes, *start) || !is_walkable_node(self.nodes, *goal) ==> r.is_none(),
            is_walkable_node(self.nodes, *start) && route_exists(self.nodes, *start, *goal) ==> r.is_some(),
            r.is_some() ==> is_shortest_route(self.nodes, r.unwrap()@, *start, *goal),
            r.is_some() == planned_path(walk_flags(self.nodes), (start.x, start.y), (goal.x, goal.y)).is_some(),
            r.is_some() ==> coords(r.unwrap()@) == planned_path(
                walk_flags(self.nodes),
                (start.x, start.y),
                (goal.x, goal.y),
            ).unwrap(),
    {
        proof {
            let flags = walk_flags(self.nodes);
            assert(flag_at(flags, start.x, start.y) == is_walkable_node(self.nodes, *start));
            assert(flag_at(flags, goal.x, goal.y) == is_walkable_node(self.nodes, *goal));
        }
        if !self.is_walkable_node(start) || !self.is_walkable_node(goal) {
            proof {
                if is_walkable_node(self.nodes, *start) && route_exists(self.nodes, *start, *goal) {
                    let q = choose|q: Seq<PathNode>| #[trigger] is_route(self.nodes, q, *start, *goal);
                    if q.len() >= 2 {
                        assert(is_step(self.nodes, q[q.len() - 2], q[q.len() - 2 + 1]));
                    }
                }
            }
            return None;
        }
        astar_route(self, start, goal)
    }
}

/// Relies on pathfinding's `astar`: it returns a shortest path without
/// repeated nodes, from `start` to a node that `success` accepts (here:
/// `goal`), each node one of the successors that `path_neighbours` listed for
/// the node before; and `None` only when no such path exists. The heuristic
/// never overestimates: a move costs at least 10 and covers at most √2 cells.
/// The search depends on the walkability grid and the two ends alone. The
/// goal lies on the grid, so the heuristic, and with it every estimate,
/// stays within the cost bound.
#[verifier::external_body]
fn astar_route(terrain: &Terrain, start: &PathNode, goal: &PathNode) -> (r: Option<Vec<PathNode>>)
    requires
        terrain.wf(),
        terrain.width * terrain.height <= MAX_SEARCH_CELLS,
        is_walkable_node(terrain.nodes, *goal),
    ensures
        r.is_some() ==> is_shortest_route(terrain.nodes, r.unwrap()@, *start, *goal),
        route_exists(terrain.nodes, *start, *goal) ==> r.is_some(),
        r.is_some() == astar_path(walk_flags(terrain.nodes), (start.x, start.y), (goal.x, goal.y)).is_some(),
        r.is_some() ==> coords(r.unwrap()@) == astar_path(
            walk_flags(terrain.nodes),
            (start.x, start.y),
            (goal.x, goal.y),
        ).unwrap(),
{
    pathfinding::prelude::astar(
        start,
        |p| terrain.path_neighbours(p),
        |p| p.distance(goal),
        |p| p.same_cell(goal),
    ).map(|found| found.0)
}

} // verus!
