use vstd::prelude::*;

verus! {

/// The integer parameters of world generation. Rates are given in
/// thousandths: a rate of 400 lets a draw below 400 out of 1000 pass.
#[derive(Clone, Copy, Debug)]
pub struct GenerationSettings {
    pub caves: CaveSettings,
    pub decor: DecorSettings,
    pub trees: TreeSettings,
    /// Exclusive bound of the random lift added to each column's dirt line.
    pub stone_jitter: u32,
    /// How far the background stays below the surface.
    pub background_offset: u32,
    /// Height of the band, in thousandths of the world height, where ores appear.
    pub ore_height: u32,
    /// One ore vein is tried for every `ore_rate` columns.
    pub ore_rate: u32,
}

#[derive(Clone, Copy, Debug)]
pub struct CaveSettings {
    /// Number of smoothing passes.
    pub smooth_iters: u32,
    /// Occupied neighbours needed for a cell to become solid while smoothing.
    pub convert_min: u32,
}

#[derive(Clone, Copy, Debug)]
pub struct DecorSettings {
    /// Half-open range of `SurfaceDecor` variants to draw from.
    pub surface_start: u32,
    pub surface_end: u32,
    /// Chance, in thousandths, that a column is skipped.
    pub surface_rate: u32,
}

#[derive(Clone, Copy, Debug)]
pub struct TreeSettings {
    /// Half-open range of trunk heights.
    pub trunk_height_start: u32,
    pub trunk_height_end: u32,
    /// Number of trunk textures; the last one is never drawn.
    pub trunk_variants: u32,
    /// Chance, in thousandths, that a column is skipped.
    pub spawn_rate: u32,
}

/// Settings under which generation cannot fail.
pub open spec fn settings_valid(s: GenerationSettings) -> bool {
    &&& s.ore_rate > 0
    &&& s.ore_height <= 1000
    &&& s.decor.surface_start < s.decor.surface_end <= 4
    &&& s.trees.trunk_height_start < s.trees.trunk_height_end
    &&& 2 <= s.trees.trunk_variants
}

impl GenerationSettings {
    /// The forest preset.
    pub fn forest() -> (r: GenerationSettings)
        ensures
            settings_valid(r),
            r.caves.smooth_iters == 4,
            r.caves.convert_min == 4,
            r.decor.surface_start == 0,
            r.decor.surface_end == 4,
            r.decor.surface_rate == 400,
            r.trees.trunk_height_start == 3,
            r.trees.trunk_height_end == 5,
            r.trees.trunk_variants == 5,
            r.trees.spawn_rate == 400,
            r.stone_jitter == 6,
            r.background_offset == 2,
            r.ore_height == 575,
            r.ore_rate == 3,
    {
        GenerationSettings {
            caves: CaveSettings { smooth_iters: 4, convert_min: 4 },
            decor: DecorSettings { surface_start: 0, surface_end: 4, surface_rate: 400 },
            trees: TreeSettings {
                trunk_height_start: 3,
                trunk_height_end: 5,
                trunk_variants: 5,
                spawn_rate: 400,
            },
            stone_jitter: 6,
            background_offset: 2,
            ore_height: 575,
            ore_rate: 3,
        }
    }
}

} // verus!
