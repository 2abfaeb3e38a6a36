//! The assembly of decoded documents into items, tiles and a world, and
//! their division into batches.

pub mod images;
pub mod loader;
