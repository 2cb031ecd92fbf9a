use terragen::layer::Layer;
use terragen::surrounds::{Surrounds, ML, MR};
use terragen::terrain::node::{PathNode, PathTile};
use terragen::terrain::settings::GenerationSettings;
use terragen::terrain::{Terrain, BACK, FRONT, MIDDLE};
use terragen::tile::{Background, Ground, Ore, SurfaceDecor, Tile, TileId, Tree};

const W: u32 = 32;
const H: u32 = 24;

fn stone() -> Tile {
    Tile::new(TileId::Ground(Ground::Stone), None)
}

// Noise-free inputs: a gently rolling surface with a few caves.
fn inputs() -> (Vec<u32>, Vec<Vec<bool>>, Vec<u32>) {
    let heights: Vec<u32> = (0..W).map(|x| 14 + (x % 5)).collect();
    let dense: Vec<Vec<bool>> = (0..W)
        .map(|x| (0..H).map(|y| (x * 7 + y * 3) % 11 != 0).collect())
        .collect();
    let dirt: Vec<u32> = (0..W).map(|x| 10 + (x % 3)).collect();
    (heights, dense, dirt)
}

fn generated(seed: &str) -> Terrain {
    let (heights, dense, dirt) = inputs();
    let mut terrain = Terrain::new(Some(seed.to_string()), GenerationSettings::forest(), W, H);
    terrain.generate(&heights, &dense, &dirt);
    terrain
}

fn walkable_expected(t: &Terrain, x: u32, y: u32) -> bool {
    let occupied = |y: u32| y < t.height && t.front.at(x, y).id != TileId::Empty;
    occupied(y) && !occupied(y + 1) && !occupied(y + 2) && !occupied(y + 3)
}

fn assert_walkability(t: &Terrain) {
    for x in 0..t.width {
        for y in 0..t.height {
            let walkable = t.nodes.at(x, y) == PathTile::Walkable;
            assert_eq!(walkable, walkable_expected(t, x, y), "cell ({}, {})", x, y);
        }
    }
}

fn same_layer(a: &Layer<Tile>, b: &Layer<Tile>) -> bool {
    a.width == b.width
        && a.height == b.height
        && (0..a.width).all(|x| (0..a.height).all(|y| a.at(x, y) == b.at(x, y)))
}

fn flat_terrain(width: u32, height: u32, floor: u32) -> Terrain {
    let mut t = Terrain::new(None, GenerationSettings::forest(), width, height);
    for x in 0..width {
        for y in 0..height {
            let tile = if y <= floor { stone() } else { Tile::empty() };
            t.front.set(x, y, tile);
            t.middle.set(x, y, Tile::empty());
            t.back.set(x, y, Tile::empty());
        }
    }
    t.front.resolve_textures();
    t.generate_path_tiles();
    t
}

#[test]
fn new_terrain_is_null_and_seeded() {
    let t = Terrain::new(None, GenerationSettings::forest(), 4, 3);
    assert_eq!(t.seed, "7");
    assert_eq!((t.width, t.height), (4, 3));
    assert_eq!(t.front.at(3, 2).id, TileId::Null);
    assert_eq!(t.nodes.at(0, 0), PathTile::NonWalkable);
    let again = Terrain::new(Some("7".to_string()), GenerationSettings::forest(), 4, 3);
    assert_eq!((t.value_seed, t.surface_seed), (again.value_seed, again.surface_seed));
}

#[test]
fn generation_is_deterministic() {
    let a = generated("stripy zebra");
    let b = generated("stripy zebra");
    assert!(same_layer(&a.front, &b.front));
    assert!(same_layer(&a.middle, &b.middle));
    assert!(same_layer(&a.back, &b.back));
    for x in 0..W {
        for y in 0..H {
            assert_eq!(a.nodes.at(x, y), b.nodes.at(x, y));
        }
    }
}

#[test]
fn generation_leaves_no_null_cells_and_resolves_textures() {
    let t = generated("7");
    for x in 0..W {
        for y in 0..H {
            for layer in [FRONT, MIDDLE, BACK] {
                assert_ne!(t.layer(layer).at(x, y).id, TileId::Null);
            }
            for layer in [FRONT, BACK] {
                let tile = t.layer(layer).at(x, y);
                if tile.id != TileId::Empty {
                    let mask = t.get_surrounds(layer, x, y);
                    assert_eq!(tile.texture_offset, Some(mask.get_texture_offset()));
                }
            }
        }
    }
}

#[test]
fn walkability_matches_front_after_generate() {
    assert_walkability(&generated("7"));
    assert_walkability(&generated("another seed"));
}

#[test]
fn reads_outside_every_grid_are_absent() {
    let t = generated("7");
    for (x, y) in [(W as i64, 0), (0, H as i64), (-1, 3), (W as i64 + 5, H as i64 + 5)] {
        assert!(t.front.get(x, y).is_none());
        assert!(t.middle.get(x, y).is_none());
        assert!(t.back.get(x, y).is_none());
        assert!(t.nodes.get(x, y).is_none());
    }
}

#[test]
fn fill_base_marks_dense_cells_under_the_surface() {
    let mut t = Terrain::new(None, GenerationSettings::forest(), 2, 6);
    let heights = vec![3, 0];
    let dense = vec![vec![true, false, true, true, true, true], vec![true; 6]];
    t.fill_base(&heights, &dense);
    let front: Vec<bool> = (0..6).map(|y| t.front.at(0, y).id != TileId::Empty).collect();
    assert_eq!(front, vec![true, false, true, true, false, false]);
    assert_eq!(t.front.at(1, 0).id, TileId::Ground(Ground::Stone));
    assert_eq!(t.front.at(1, 1).id, TileId::Empty);
    // background stops two rows below the surface
    assert_eq!(t.back.at(0, 1).id, TileId::Background(Background::Stone));
    assert_eq!(t.back.at(0, 2).id, TileId::Empty);
    assert_eq!(t.back.at(1, 0).id, TileId::Empty);
}

#[test]
fn stratify_turns_cells_above_the_line_to_dirt() {
    let mut t = flat_terrain(2, 6, 4);
    for y in 0..6 {
        t.back.set(0, y, Tile::new(TileId::Background(Background::Stone), None));
    }
    t.stratify(&vec![2, 6]);
    assert_eq!(t.front.at(0, 1).id, TileId::Ground(Ground::Stone));
    assert_eq!(t.front.at(0, 2).id, TileId::Ground(Ground::Dirt));
    assert_eq!(t.front.at(0, 4).id, TileId::Ground(Ground::Dirt));
    assert_eq!(t.front.at(0, 5).id, TileId::Empty);
    assert_eq!(t.back.at(0, 5).id, TileId::Background(Background::Dirt));
    assert_eq!(t.back.at(0, 1).id, TileId::Background(Background::Stone));
    assert_eq!(t.front.at(1, 4).id, TileId::Ground(Ground::Stone));
}

#[test]
fn grass_tops_each_column() {
    let mut t = flat_terrain(3, 6, 2);
    t.front.set(1, 4, stone());
    t.front.set(2, 0, Tile::empty());
    t.front.set(2, 1, Tile::empty());
    t.front.set(2, 2, Tile::empty());
    t.place_grass();
    assert_eq!(t.front.at(0, 2).id, TileId::Ground(Ground::Grass));
    assert_eq!(t.front.at(0, 1).id, TileId::Ground(Ground::Stone));
    assert_eq!(t.front.at(1, 4).id, TileId::Ground(Ground::Grass));
    assert_eq!(t.front.at(1, 2).id, TileId::Ground(Ground::Stone));
    assert!((0..6).all(|y| t.front.at(2, y).id == TileId::Empty));
}

#[test]
fn smoothing_extremes() {
    let mut settings = GenerationSettings::forest();
    settings.caves.convert_min = 0;
    let mut t = Terrain::new(None, settings, 5, 4);
    let (heights, dense) = (vec![1; 5], vec![vec![false; 4]; 5]);
    t.fill_base(&heights, &dense);
    let all_solid = t.smooth();
    let mut settings = GenerationSettings::forest();
    settings.caves.convert_min = 9;
    let mut u = Terrain::new(None, settings, 5, 4);
    u.fill_base(&heights, &vec![vec![true; 4]; 5]);
    let all_empty = u.smooth();
    for x in 0..5 {
        for y in 0..4 {
            assert_eq!(all_solid.at(x, y), stone());
            assert_eq!(all_empty.at(x, y), Tile::empty());
        }
    }
}

#[test]
fn smoothing_reads_the_previous_grid() {
    let mut settings = GenerationSettings::forest();
    settings.caves.convert_min = 2;
    let mut t = Terrain::new(None, settings, 3, 1);
    t.fill_base(&vec![0, 0, 0], &vec![vec![true], vec![true], vec![false]]);
    let out = t.smooth();
    // the left cell has one neighbour; the middle one has one; the right one has one
    assert_eq!(out.at(0, 0), Tile::empty());
    assert_eq!(out.at(1, 0), Tile::empty());
    assert_eq!(out.at(2, 0), Tile::empty());
    settings.caves.convert_min = 1;
    t.settings = settings;
    let out = t.smooth();
    assert_eq!(out.at(2, 0), stone());
    assert_eq!(out.at(1, 0), stone());
}

#[test]
fn structure_placement_is_all_or_nothing() {
    let mut t = flat_terrain(8, 10, 1);
    let foliage = TileId::Tree(Tree::Foliage);
    t.middle.set(6, 7, Tile::new(TileId::Tree(Tree::Wood), Some((0, 0))));
    let before: Vec<Tile> = (0..8).flat_map(|x| (0..10).map(move |y| (x, y))).map(|(x, y)| t.middle.at(x, y)).collect();
    // obstructed in the middle layer
    assert!(!t.place_structure(foliage, 2, 3));
    // obstructed in the front layer
    assert!(!t.place_structure(foliage, 0, 1));
    // off the grid
    assert!(!t.place_structure(foliage, 5, 2));
    let after: Vec<Tile> = (0..8).flat_map(|x| (0..10).map(move |y| (x, y))).map(|(x, y)| t.middle.at(x, y)).collect();
    assert_eq!(before, after);
    // free footprint: offsets are counted from the top left corner
    assert!(t.place_structure(foliage, 0, 2));
    assert_eq!(t.middle.at(0, 7), Tile::new(foliage, Some((0, 0))));
    assert_eq!(t.middle.at(0, 2), Tile::new(foliage, Some((0, 5))));
    assert_eq!(t.middle.at(4, 2), Tile::new(foliage, Some((4, 5))));
    assert_eq!(t.middle.at(5, 2), Tile::empty());
    let pile = TileId::SurfaceDecor(SurfaceDecor::RockPile);
    assert!(t.place_structure(pile, 5, 2));
    assert_eq!(t.middle.at(6, 2), Tile::new(pile, Some((1, 0))));
}

#[test]
fn insert_updates_only_the_neighbourhood() {
    let mut t = flat_terrain(8, 8, 0);
    t.front.set(0, 0, Tile::empty());
    t.front.resolve_textures();
    t.generate_path_tiles();
    let before: Vec<Tile> = (0..8).flat_map(|x| (0..8).map(move |y| (x, y))).map(|(x, y)| t.front.at(x, y)).collect();
    assert!(t.insert_tile(FRONT, 3, 1, stone()));
    let after: Vec<Tile> = (0..8).flat_map(|x| (0..8).map(move |y| (x, y))).map(|(x, y)| t.front.at(x, y)).collect();
    for x in 0..8u32 {
        for y in 0..8u32 {
            let i = (x * 8 + y) as usize;
            let close = x.abs_diff(3) <= 1 && y.abs_diff(1) <= 1;
            if !close {
                assert_eq!(before[i], after[i], "cell ({}, {})", x, y);
            }
        }
    }
    // the cell below now has a neighbour on top
    let below = t.front.at(3, 0).texture_offset;
    assert_eq!(below, Some(t.get_surrounds(FRONT, 3, 0).get_texture_offset()));
    assert_ne!(below, before[3 * 8].texture_offset);
    assert_eq!(t.front.at(3, 1).texture_offset, Some(t.get_surrounds(FRONT, 3, 1).get_texture_offset()));
    assert_walkability(&t);
    assert_eq!(t.nodes.at(3, 1), PathTile::Walkable);
    assert_eq!(t.nodes.at(3, 0), PathTile::NonWalkable);
}

#[test]
fn insert_next_to_a_single_tile() {
    let mut t = flat_terrain(6, 6, 0);
    for x in 0..6 {
        t.front.set(x, 0, Tile::empty());
    }
    t.front.set(2, 2, stone());
    t.front.resolve_textures();
    t.generate_path_tiles();
    assert_eq!(t.front.at(2, 2).texture_offset, Some(Surrounds::empty().get_texture_offset()));
    assert!(t.insert_tile(FRONT, 3, 2, stone()));
    assert_eq!(t.front.at(2, 2).texture_offset, Some(Surrounds::from_bits(MR).get_texture_offset()));
    assert_eq!(t.front.at(3, 2).texture_offset, Some(Surrounds::from_bits(ML).get_texture_offset()));
    assert_walkability(&t);
}

#[test]
fn insert_on_occupied_or_outside_is_refused() {
    let mut t = flat_terrain(4, 6, 1);
    assert!(!t.insert_tile(FRONT, 1, 1, stone()));
    assert!(!t.insert_tile(FRONT, 4, 1, stone()));
    assert!(!t.insert_tile(BACK, 0, 6, stone()));
    assert_eq!(t.front.at(1, 1).id, TileId::Ground(Ground::Stone));
    assert!(t.insert_tile(MIDDLE, 1, 2, Tile::new(TileId::Tree(Tree::Wood), Some((1, 0)))));
    assert_eq!(t.middle.at(1, 2), Tile::new(TileId::Tree(Tree::Wood), Some((1, 0))));
    assert_walkability(&t);
}

#[test]
fn remove_reports_whether_anything_was_removed() {
    let mut t = flat_terrain(4, 8, 3);
    assert!(!t.remove_tile(FRONT, 0, 5));
    assert!(!t.remove_tile(FRONT, 9, 0));
    assert_eq!(t.nodes.at(1, 3), PathTile::Walkable);
    assert!(t.remove_tile(FRONT, 1, 3));
    assert_eq!(t.front.at(1, 3), Tile::empty());
    assert_eq!(t.nodes.at(1, 2), PathTile::Walkable);
    assert_walkability(&t);
    assert!(t.remove_tile(FRONT, 1, 2));
    assert!(t.insert_tile(FRONT, 1, 4, stone()));
    assert_walkability(&t);
    assert_eq!(t.nodes.at(1, 1), PathTile::NonWalkable);
}

#[test]
fn walkability_survives_a_series_of_edits() {
    let mut t = generated("edits");
    for (i, (x, y)) in [(3u32, 5u32), (3, 6), (10, 12), (11, 12), (0, 0), (31, 23)].iter().enumerate() {
        if i % 2 == 0 {
            t.remove_tile(FRONT, *x, *y);
        } else {
            t.insert_tile(FRONT, *x, *y, stone());
        }
        assert_walkability(&t);
    }
}

fn open_grid(size: u32) -> Terrain {
    let mut t = Terrain::new(None, GenerationSettings::forest(), size, size);
    for x in 0..size {
        for y in 0..size {
            t.nodes.set(x, y, PathTile::Walkable);
        }
    }
    t
}

#[test]
fn diagonal_path_on_open_grid() {
    let t = open_grid(5);
    let path = t.find_path(&PathNode::new(0, 0), &PathNode::new(4, 4)).unwrap();
    assert_eq!(path.len(), 5);
    let mut cost = 0;
    for pair in path.windows(2) {
        let (a, b) = (pair[0], pair[1]);
        assert!(a.x.abs_diff(b.x) <= 1 && a.y.abs_diff(b.y) <= 1);
        cost += if a.x == b.x || a.y == b.y { 10 } else { 14 };
    }
    assert_eq!(cost, 56);
    assert_eq!(path[0], PathNode::new(0, 0));
    assert_eq!(path[4], PathNode::new(4, 4));
}

#[test]
fn no_path_to_a_blocked_goal() {
    let mut t = open_grid(5);
    t.nodes.set(4, 4, PathTile::NonWalkable);
    assert!(t.find_path(&PathNode::new(0, 0), &PathNode::new(4, 4)).is_none());
    assert!(t.find_path(&PathNode::new(0, 0), &PathNode::new(7, 7)).is_none());
    t.nodes.set(0, 0, PathTile::NonWalkable);
    assert!(t.find_path(&PathNode::new(0, 0), &PathNode::new(2, 2)).is_none());
}

#[test]
fn no_path_across_a_wall() {
    let mut t = open_grid(5);
    for y in 0..5 {
        t.nodes.set(2, y, PathTile::NonWalkable);
    }
    assert!(t.find_path(&PathNode::new(0, 0), &PathNode::new(4, 0)).is_none());
    let same = t.find_path(&PathNode::new(1, 1), &PathNode::new(1, 1)).unwrap();
    assert_eq!(same, vec![PathNode::new(1, 1)]);
}

#[test]
fn neighbours_cost_ten_straight_and_fourteen_diagonal() {
    let t = open_grid(3);
    let mut n = t.path_neighbours(&PathNode::new(1, 1));
    n.sort_by_key(|(p, _)| (p.x, p.y));
    assert_eq!(n.len(), 8);
    for (p, c) in n {
        let straight = p.x == 1 || p.y == 1;
        assert_eq!(c, if straight { 10 } else { 14 });
    }
    let corner = t.path_neighbours(&PathNode::new(0, 0));
    assert_eq!(corner.len(), 3);
}

#[test]
fn distance_rounds_down() {
    assert_eq!(PathNode::new(0, 0).distance(&PathNode::new(3, 4)), 5);
    assert_eq!(PathNode::new(1, 1).distance(&PathNode::new(0, 0)), 1);
    assert_eq!(PathNode::new(0, 0).distance(&PathNode::new(4, 4)), 5);
    assert_eq!(PathNode::new(7, 7).distance(&PathNode::new(7, 7)), 0);
    assert_eq!(PathNode::new(0, 0).distance(&PathNode::new(u32::MAX, u32::MAX)), u32::MAX);
}

#[test]
fn forest_preset() {
    let s = GenerationSettings::forest();
    assert_eq!((s.caves.smooth_iters, s.caves.convert_min), (4, 4));
    assert_eq!((s.trees.trunk_height_start, s.trees.trunk_height_end), (3, 5));
    assert_eq!((s.ore_height, s.ore_rate, s.background_offset), (575, 3, 2));
}

#[test]
fn grow_tree_places_trunk_and_crown() {
    let mut t = flat_terrain(10, 14, 1);
    assert!(t.grow_tree(4, 2, &vec![0, 1, 2]));
    let wood = TileId::Tree(Tree::Wood);
    let foliage = TileId::Tree(Tree::Foliage);
    assert_eq!(t.middle.at(4, 2), Tile::new(wood, Some((0, 0))));
    assert_eq!(t.middle.at(4, 3), Tile::new(wood, Some((1, 0))));
    assert_eq!(t.middle.at(4, 4), Tile::new(wood, Some((2, 0))));
    assert_eq!(t.middle.at(2, 10), Tile::new(foliage, Some((0, 0))));
    assert_eq!(t.middle.at(6, 5), Tile::new(foliage, Some((4, 5))));
    assert_eq!(t.middle.at(7, 5), Tile::empty());
    assert_eq!(t.middle.at(4, 11), Tile::empty());

    let mut blocked = flat_terrain(10, 14, 1);
    blocked.front.set(3, 8, stone());
    assert!(!blocked.grow_tree(4, 2, &vec![0, 1, 2]));
    assert!((0..10).all(|x| (0..14).all(|y| blocked.middle.at(x, y) == Tile::empty())));
}

#[test]
fn tree_and_decor_sites_need_occupied_neighbours() {
    let mut t = flat_terrain(5, 6, 2);
    t.front.set(3, 3, stone());
    assert_eq!(t.tree_site(0), None);
    assert_eq!(t.tree_site(2), Some(2));
    assert_eq!(t.tree_site(3), None);
    assert_eq!(t.decor_site(3), None);
    assert_eq!(t.decor_site(4), Some(2));
    assert_eq!(t.decor_site(0), None);
}

#[test]
fn generated_layers_hold_their_own_kinds() {
    let t = generated("kinds");
    for x in 0..W {
        for y in 0..H {
            let front = t.front.at(x, y).id;
            assert!(matches!(front, TileId::Empty | TileId::Ground(_) | TileId::Ore(_)));
            let middle = t.middle.at(x, y).id;
            assert!(matches!(middle, TileId::Empty | TileId::Tree(_) | TileId::SurfaceDecor(_)));
            let back = t.back.at(x, y).id;
            assert!(matches!(back, TileId::Empty | TileId::Background(_)));
        }
    }
}

#[test]
fn ores_allowed_by_row() {
    let t = Terrain::new(None, GenerationSettings::forest(), 4, 100);
    let (iron, gold) = (TileId::Ore(Ore::Iron), TileId::Ore(Ore::Gold));
    assert_eq!(t.ores_allowed_at(10), vec![iron, gold]);
    assert_eq!(t.ores_allowed_at(28), vec![iron, gold]);
    assert_eq!(t.ores_allowed_at(29), vec![iron]);
    assert_eq!(t.ores_allowed_at(57), vec![iron]);
    assert_eq!(t.ores_allowed_at(58), vec![]);
}

#[test]
fn ores_only_replace_occupied_cells() {
    let mut t = flat_terrain(30, 20, 9);
    t.front.set(5, 5, Tile::empty());
    t.settings.ore_rate = 1;
    t.scatter_ores();
    for x in 0..30 {
        for y in 0..20 {
            let id = t.front.at(x, y).id;
            if y > 9 || (x, y) == (5, 5) {
                assert_eq!(id, TileId::Empty);
            } else {
                assert!(matches!(id, TileId::Ground(Ground::Stone) | TileId::Ore(_)));
            }
        }
    }
}

#[test]
fn tree_step_skips_or_grows() {
    let mut t = flat_terrain(12, 14, 1);
    assert_eq!(t.tree_step(5, 0, &vec![0, 1]), 6);
    assert!((0..12).all(|x| (0..14).all(|y| t.middle.at(x, y) == Tile::empty())));
    assert_eq!(t.tree_step(5, 999, &vec![0, 1]), 10);
    assert_eq!(t.middle.at(5, 2), Tile::new(TileId::Tree(Tree::Wood), Some((0, 0))));
    assert_eq!(t.middle.at(5, 3), Tile::new(TileId::Tree(Tree::Wood), Some((1, 0))));
    assert_eq!(t.middle.at(3, 9), Tile::new(TileId::Tree(Tree::Foliage), Some((0, 0))));
    // the crown of a second tree would overlap the first one
    assert_eq!(t.tree_step(6, 999, &vec![0, 1]), 7);
}

#[test]
fn decor_step_places_single_and_wide_decorations() {
    let mut t = flat_terrain(8, 6, 1);
    let rock = TileId::SurfaceDecor(SurfaceDecor::Rock);
    let pile = TileId::SurfaceDecor(SurfaceDecor::RockPile);
    assert_eq!(t.decor_step(2, 0, 1), 3);
    assert_eq!(t.middle.at(2, 2), Tile::empty());
    assert_eq!(t.decor_step(2, 999, 1), 3);
    assert_eq!(t.middle.at(2, 2), Tile::new(rock, None));
    assert_eq!(t.decor_step(4, 999, 3), 6);
    assert_eq!(t.middle.at(4, 2), Tile::new(pile, Some((0, 0))));
    assert_eq!(t.middle.at(5, 2), Tile::new(pile, Some((1, 0))));
    // the cell above is taken now
    assert_eq!(t.decor_step(2, 999, 1), 3);
}

#[test]
fn ore_hit_needs_an_occupied_cell_and_a_high_enough_draw() {
    let iron = TileId::Ore(Ore::Iron);
    let mut t = flat_terrain(5, 5, 2);
    t.ore_hit(iron, 2, 2, 3, 2, 999);
    assert_eq!(t.front.at(3, 2).id, TileId::Ground(Ground::Stone));
    t.ore_hit(iron, 2, 2, 3, 2, 1000);
    assert_eq!(t.front.at(3, 2), Tile::new(iron, None));
    t.ore_hit(iron, 2, 2, 2, 3, 999_999);
    assert_eq!(t.front.at(2, 3), Tile::empty());
    t.ore_hit(iron, 2, 2, 2, 2, 0);
    assert_eq!(t.front.at(2, 2), Tile::new(iron, None));
}

#[test]
fn generated_world_has_grass_tops_and_bare_empties() {
    let t = generated("surface");
    for x in 0..W {
        let top = (0..H).rev().find(|&y| t.front.at(x, y).id != TileId::Empty);
        for y in 0..H {
            let tile = t.front.at(x, y);
            assert_eq!(tile.id == TileId::Ground(Ground::Grass), Some(y) == top);
            if tile.id == TileId::Empty {
                assert_eq!(tile, Tile::empty());
            }
            if t.middle.at(x, y).id != TileId::Empty {
                assert_eq!(tile.id, TileId::Empty);
            }
        }
    }
}

#[test]
fn generated_structures_are_whole() {
    let t = generated("whole");
    for x in 0..W {
        for y in 0..H {
            let c = t.middle.at(x, y);
            let dims = terragen::tile::TileDescriptor::from_id(c.id).dimensions;
            if let (Some((w, h)), Some((i, j))) = (dims, c.texture_offset) {
                assert!(i < w && j < h);
                let (x0, y0) = (x - i, y - (h - 1 - j));
                for a in 0..w {
                    for b in 0..h {
                        assert_eq!(t.middle.at(x0 + a, y0 + b), Tile::new(c.id, Some((a, h - 1 - b))));
                    }
                }
            }
        }
    }
}

#[test]
fn no_skips_means_a_tree_and_a_decoration_on_the_first_columns() {
    let mut t = flat_terrain(12, 14, 1);
    t.settings.trees.spawn_rate = 0;
    t.place_trees();
    assert_eq!(t.middle.at(4, 2).id, TileId::Tree(Tree::Wood));
    let mut u = flat_terrain(8, 6, 1);
    u.settings.decor.surface_rate = 0;
    u.place_decor();
    assert!(matches!(u.middle.at(1, 2).id, TileId::SurfaceDecor(_)));
}

#[test]
fn full_ore_band_always_gets_ore() {
    let mut t = flat_terrain(20, 20, 19);
    t.settings.ore_rate = 20;
    t.scatter_ores();
    let ores = (0..20).flat_map(|x| (0..20).map(move |y| (x, y))).filter(|&(x, y)| matches!(t.front.at(x, y).id, TileId::Ore(_))).count();
    assert!(ores >= 1);
}

#[test]
fn far_goal_gives_no_path() {
    let t = open_grid(2);
    assert!(t.find_path(&PathNode::new(0, 0), &PathNode::new(u32::MAX, u32::MAX)).is_none());
}

#[test]
fn tree_grows_on_a_later_column_when_nothing_is_skipped() {
    let mut t = flat_terrain(14, 14, 1);
    // column 4 has no floor to its left, so it is no tree site
    t.front.set(3, 1, Tile::empty());
    t.front.set(3, 0, Tile::empty());
    t.front.resolve_textures();
    t.generate_path_tiles();
    t.settings.trees.spawn_rate = 0;
    t.place_trees();
    let trees = (0..14).flat_map(|x| (0..14).map(move |y| (x, y))).filter(|&(x, y)| matches!(t.middle.at(x, y).id, TileId::Tree(_))).count();
    assert!(trees > 0);
    assert_eq!(t.middle.at(4, 2), Tile::empty());
}
