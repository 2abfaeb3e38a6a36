//! Decoders for a family of legacy game-client asset files (sprite atlas,
//! item metadata, item index, tiled map) and the assembly of their contents
//! into one world model of tiles, entities and textures.

pub mod model;
pub mod parse;
pub mod project;
pub mod render;
pub mod tfs;
pub mod transport;
