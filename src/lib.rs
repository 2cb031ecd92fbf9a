pub mod layer;
pub mod surrounds;
pub mod terrain;
pub mod tile;
