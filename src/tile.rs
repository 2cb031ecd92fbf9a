use vstd::prelude::*;

verus! {

/// Width and height of the texture atlas, in cells.
pub const TILESET_WIDTH: u32 = 22;
pub const TILESET_HEIGHT: u32 = 16;

/// Identity of what occupies a cell.
#[derive(Clone, Copy, Debug, PartialEq, Eq, Structural, PartialOrd, Ord, Hash)]
pub enum TileId {
    /// Never present in a finished world.
    Null,
    Empty,
    Ground(Ground),
    Ore(Ore),
    Background(Background),
    SurfaceDecor(SurfaceDecor),
    Tree(Tree),
}

#[derive(Clone, Copy, Debug, PartialEq, Eq, Structural, PartialOrd, Ord, Hash)]
pub enum Ground {
    Grass,
    Dirt,
    Stone,
}

#[derive(Clone, Copy, Debug, PartialEq, Eq, Structural, PartialOrd, Ord, Hash)]
pub enum Ore {
    Iron,
    Gold,
}

#[derive(Clone, Copy, Debug, PartialEq, Eq, Structural, PartialOrd, Ord, Hash)]
pub enum Background {
    Dirt,
    Stone,
}

#[derive(Clone, Copy, Debug, PartialEq, Eq, Structural, PartialOrd, Ord, Hash)]
pub enum SurfaceDecor {
    GrassSmall,
    Rock,
    GrassMedium,
    RockPile,
}

#[derive(Clone, Copy, Debug, PartialEq, Eq, Structural, PartialOrd, Ord, Hash)]
pub enum Tree {
    Wood,
    Foliage,
}

/// The contents of one cell: its identity, and where its texture sits
/// relative to the tile's atlas origin (column, row).
#[derive(Clone, Copy, Debug, PartialEq, Eq)]
pub struct Tile {
    pub id: TileId,
    pub texture_offset: Option<(u32, u32)>,
}

/// Ore-specific generation parameters.
#[derive(Clone, Copy, Debug, PartialEq, Eq, Structural)]
pub struct OreDescriptor {
    /// Highest row, in percent of the ore band, at which the ore may appear.
    pub max_height_percent: u32,
    /// Half the side of the square the ore is scattered into.
    pub radius: u32,
}

/// Static description of a tile identity.
#[derive(Clone, Copy, Debug, PartialEq, Eq)]
pub struct TileDescriptor {
    pub id: TileId,
    /// Index of the tile's origin in the texture atlas.
    pub tileset_position: u32,
    /// Footprint (width, height) of structures that span several cells.
    pub dimensions: Option<(u32, u32)>,
    pub ore: Option<OreDescriptor>,
    /// Effort needed to break the tile; `None` when it cannot be broken.
    pub hardness: Option<u32>,
}

pub open spec fn desc(
    id: TileId,
    tileset_position: u32,
    dimensions: Option<(u32, u32)>,
    ore: Option<OreDescriptor>,
    hardness: Option<u32>,
) -> TileDescriptor {
    TileDescriptor { id, tileset_position, dimensions, ore, hardness }
}

/// The catalogue: the descriptor of every tile identity.
pub open spec fn descriptor_of(id: TileId) -> TileDescriptor {
    match id {
        TileId::Null => desc(id, 351, None, None, None),
        TileId::Empty => desc(id, 350, None, None, Some(0)),
        TileId::Ground(Ground::Grass) => desc(id, 66, None, None, Some(1)),
        TileId::Ground(Ground::Dirt) => desc(id, 0, None, None, Some(1)),
        TileId::Ground(Ground::Stone) => desc(id, 132, None, None, Some(1)),
        TileId::Ore(Ore::Iron) => desc(
            id,
            198,
            None,
            Some(OreDescriptor { max_height_percent: 100, radius: 4 }),
            Some(1),
        ),
        TileId::Ore(Ore::Gold) => desc(
            id,
            264,
            None,
            Some(OreDescriptor { max_height_percent: 50, radius: 3 }),
            Some(1),
        ),
        TileId::Background(Background::Dirt) => desc(id, 0, None, None, Some(1)),
        TileId::Background(Background::Stone) => desc(id, 66, None, None, Some(1)),
        TileId::SurfaceDecor(SurfaceDecor::GrassSmall) => desc(id, 22, None, None, Some(1)),
        TileId::SurfaceDecor(SurfaceDecor::GrassMedium) => desc(id, 1, Some((1, 2)), None, Some(1)),
        TileId::SurfaceDecor(SurfaceDecor::Rock) => desc(id, 66, None, None, Some(1)),
        TileId::SurfaceDecor(SurfaceDecor::RockPile) => desc(
            id,
            67,
            Some((2, 1)),
            None,
            Some(1),
        ),
        TileId::Tree(Tree::Wood) => desc(id, 17, None, None, Some(1)),
        TileId::Tree(Tree::Foliage) => desc(id, 39, Some((5, 6)), None, Some(1)),
    }
}

/// Atlas index of a tile: its origin, moved by its offset.
pub open spec fn texture_index_of(t: Tile) -> int {
    let base = descriptor_of(t.id).tileset_position as int;
    match t.texture_offset {
        Some((col, row)) => base + row * TILESET_WIDTH + col,
        None => base,
    }
}

impl Tile {
    pub fn new(id: TileId, offset: Option<(u32, u32)>) -> (r: Tile)
        ensures
            r.id == id,
            r.texture_offset == offset,
    {
        Tile { id, texture_offset: offset }
    }

    /// A cell that is not part of any world yet.
    pub fn null() -> (r: Tile)
        ensures
            r.id == TileId::Null,
            r.texture_offset == None::<(u32, u32)>,
    {
        Tile { id: TileId::Null, texture_offset: None }
    }

    /// An unoccupied cell.
    pub fn empty() -> (r: Tile)
        ensures
            r.id == TileId::Empty,
            r.texture_offset == None::<(u32, u32)>,
    {
        Tile { id: TileId::Empty, texture_offset: None }
    }

    /// Index of this tile's texture in the atlas.
    pub fn get_texture_index(&self) -> (r: u32)
        requires
            texture_index_of(*self) <= u32::MAX,
        ensures
            r == texture_index_of(*self),
    {
        let mut index = TileDescriptor::from_id(self.id).tileset_position;
        if let Some(offset) = self.texture_offset {
            assert(offset.1 * TILESET_WIDTH <= texture_index_of(*self)) by (nonlinear_arith)
                requires
                    texture_index_of(*self) == index + offset.1 * TILESET_WIDTH + offset.0,
                    offset.0 >= 0,
                    index >= 0,
            ;
            index = index + offset.1 * TILESET_WIDTH + offset.0;
        }
        index
    }
}

impl TileDescriptor {
    /// Looks up the descriptor of `id`; every identity has one.
    pub fn from_id(id: TileId) -> (r: TileDescriptor)
        ensures
            r == descriptor_of(id),
    {
        let w = TILESET_WIDTH;
        match id {
            TileId::Null => TileDescriptor {
                id,
                tileset_position: w * TILESET_HEIGHT - 1,
                dimensions: None,
                ore: None,
                hardness: None,
            },
            TileId::Empty => TileDescriptor {
                id,
                tileset_position: w * TILESET_HEIGHT - 2,
                dimensions: None,
                ore: None,
                hardness: Some(0),
            },
            TileId::Ground(Ground::Grass) => TileDescriptor {
                id,
                tileset_position: 3 * w,
                dimensions: None,
                ore: None,
                hardness: Some(1),
            },
            TileId::Ground(Ground::Dirt) => TileDescriptor {
                id,
                tileset_position: 0,
                dimensions: None,
                ore: None,
                hardness: Some(1),
            },
            TileId::Ground(Ground::Stone) => TileDescriptor {
                id,
                tileset_position: 6 * w,
                dimensions: None,
                ore: None,
                hardness: Some(1),
            },
            TileId::Ore(Ore::Iron) => TileDescriptor {
                id,
                tileset_position: 9 * w,
                dimensions: None,
                ore: Some(OreDescriptor { max_height_percent: 100, radius: 4 }),
                hardness: Some(1),
            },
            TileId::Ore(Ore::Gold) => TileDescriptor {
                id,
                tileset_position: 12 * w,
                dimensions: None,
                ore: Some(OreDescriptor { max_height_percent: 50, radius: 3 }),
                hardness: Some(1),
            },
            TileId::Background(Background::Dirt) => TileDescriptor {
                id,
                tileset_position: 0,
                dimensions: None,
                ore: None,
                hardness: Some(1),
            },
            TileId::Background(Background::Stone) => TileDescriptor {
                id,
                tileset_position: 3 * w,
                dimensions: None,
                ore: None,
                hardness: Some(1),
            },
            TileId::SurfaceDecor(SurfaceDecor::GrassSmall) => TileDescriptor {
                id,
                tileset_position: w,
                dimensions: None,
                ore: None,
                hardness: Some(1),
            },
            TileId::SurfaceDecor(SurfaceDecor::GrassMedium) => TileDescriptor {
                id,
                tileset_position: 1,
                dimensions: Some((1, 2)),
                ore: None,
                hardness: Some(1),
            },
            TileId::SurfaceDecor(SurfaceDecor::Rock) => TileDescriptor {
                id,
                tileset_position: 3 * w,
                dimensions: None,
                ore: None,
                hardness: Some(1),
            },
            TileId::SurfaceDecor(SurfaceDecor::RockPile) => TileDescriptor {
                id,
                tileset_position: 3 * w + 1,
                dimensions: Some((2, 1)),
                ore: None,
                hardness: Some(1),
            },
            TileId::Tree(Tree::Wood) => TileDescriptor {
                id,
                tileset_position: 17,
                dimensions: None,
                ore: None,
                hardness: Some(1),
            },
            TileId::Tree(Tree::Foliage) => TileDescriptor {
                id,
                tileset_position: w + 17,
                dimensions: Some((5, 6)),
                ore: None,
                hardness: Some(1),
            },
        }
    }
}

} // verus!
