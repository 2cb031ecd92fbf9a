use terragen::layer::Layer;
use terragen::surrounds::{Surrounds, BM, MR, TL};
use terragen::tile::{Ground, Ore, SurfaceDecor, Tile, TileDescriptor, TileId, Tree};

#[test]
fn count_counts_set_bits() {
    assert_eq!(Surrounds::empty().count(), 0);
    assert_eq!(Surrounds::from_bits(0b1011_0001).count(), 4);
    assert_eq!(Surrounds::from_bits(0xff).count(), 8);
    assert_eq!(Surrounds::from_bits(TL | MR | BM).count(), 3);
}

#[test]
fn texture_offsets_follow_the_table() {
    let expected = [
        (0u8, (6u32, 0u32)),
        (2, (4, 2)),
        (11, (2, 2)),
        (16, (3, 1)),
        (24, (6, 2)),
        (90, (4, 1)),
        (127, (7, 0)),
        (208, (0, 0)),
        (254, (8, 1)),
        (255, (1, 1)),
    ];
    for (mask, offset) in expected {
        assert_eq!(Surrounds::from_bits(mask).get_texture_offset(), offset);
    }
}

#[test]
fn texture_offset_is_defined_for_every_mask() {
    for mask in 0..=255u8 {
        let a = Surrounds::from_bits(mask).get_texture_offset();
        let b = Surrounds::from_bits(mask).get_texture_offset();
        assert_eq!(a, b);
        assert!(a.0 < 22 && a.1 < 16);
    }
}

#[test]
fn texture_index_adds_offset_rows_and_columns() {
    let stone = Tile::new(TileId::Ground(Ground::Stone), Some((2, 1)));
    assert_eq!(stone.get_texture_index(), 6 * 22 + 22 + 2);
    let plain = Tile::new(TileId::Ground(Ground::Dirt), None);
    assert_eq!(plain.get_texture_index(), 0);
    assert_eq!(Tile::null().get_texture_index(), 22 * 16 - 1);
    assert_eq!(Tile::empty().get_texture_index(), 22 * 16 - 2);
}

#[test]
fn descriptors_cover_the_catalogue() {
    let foliage = TileDescriptor::from_id(TileId::Tree(Tree::Foliage));
    assert_eq!(foliage.dimensions, Some((5, 6)));
    assert_eq!(foliage.tileset_position, 22 + 17);
    let gold = TileDescriptor::from_id(TileId::Ore(Ore::Gold));
    assert_eq!(gold.ore.map(|o| (o.max_height_percent, o.radius)), Some((50, 3)));
    let iron = TileDescriptor::from_id(TileId::Ore(Ore::Iron));
    assert_eq!(iron.ore.map(|o| (o.max_height_percent, o.radius)), Some((100, 4)));
    let pile = TileDescriptor::from_id(TileId::SurfaceDecor(SurfaceDecor::RockPile));
    assert_eq!(pile.dimensions, Some((2, 1)));
    assert_eq!(pile.tileset_position, 67);
    assert_eq!(TileDescriptor::from_id(TileId::Null).hardness, None);
    assert_eq!(TileDescriptor::from_id(TileId::Empty).hardness, Some(0));
}

#[test]
fn layer_reads_outside_the_grid_are_absent() {
    let layer = Layer::new(3, 2, 7u8);
    assert_eq!(layer.get(0, 0), Some(&7));
    assert_eq!(layer.get(2, 1), Some(&7));
    assert_eq!(layer.get(3, 0), None);
    assert_eq!(layer.get(0, 2), None);
    assert_eq!(layer.get(-1, 0), None);
    assert_eq!(layer.get(0, -1), None);
    assert_eq!(layer.get(i64::MAX, 0), None);
}

#[test]
fn layer_set_changes_one_cell() {
    let mut layer = Layer::new(3, 3, 0u8);
    layer.set(1, 2, 9);
    for x in 0..3 {
        for y in 0..3 {
            let expected = if (x, y) == (1, 2) { 9 } else { 0 };
            assert_eq!(layer.at(x, y), expected);
        }
    }
}

#[test]
fn neighbour_mask_uses_fixed_bit_layout() {
    let mut layer = Layer::new(3, 3, Tile::empty());
    let stone = Tile::new(TileId::Ground(Ground::Stone), None);
    // top left, middle right and bottom middle of the centre cell
    layer.set(0, 2, stone);
    layer.set(2, 1, stone);
    layer.set(1, 0, stone);
    assert_eq!(layer.get_surrounds(1, 1).bits(), TL | MR | BM);
    // a corner sees cells off the grid as empty
    assert_eq!(layer.get_surrounds(0, 0).bits(), MR);
}

#[test]
fn resolve_textures_sets_occupied_cells_only() {
    let mut layer = Layer::new(3, 1, Tile::empty());
    let stone = Tile::new(TileId::Ground(Ground::Stone), None);
    layer.set(0, 0, stone);
    layer.set(1, 0, stone);
    layer.resolve_textures();
    assert_eq!(layer.at(0, 0).texture_offset, Some(Surrounds::from_bits(MR).get_texture_offset()));
    assert_eq!(layer.at(1, 0).texture_offset, Some(Surrounds::from_bits(0b1000).get_texture_offset()));
    assert_eq!(layer.at(2, 0), Tile::empty());
}
