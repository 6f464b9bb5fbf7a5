//! Tile maps for procedurally generated terrain: a list of named tiles, a
//! grid of tiles, and the placement of each tile's sprite in a rendered map.

pub mod tile;
pub mod tilemap;
pub mod raster;
pub mod sprite;
pub mod render;
pub mod catalog;
pub mod terrain;
