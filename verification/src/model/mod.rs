//! The assembled world model: positions, tiles, entities, items, textures.

pub mod area;
pub mod attribute;
pub mod attributes;
pub mod entity;
pub mod item;
pub mod offset;
pub mod position;
pub mod sprite;
pub mod texture;
pub mod textures;
pub mod tile;
pub mod world;

pub use area::Area;
pub use attribute::{Attribute, AttributeKind, AttributeType, AttributesType};
pub use entity::Entity;
pub use item::Item;
pub use offset::Offset;
pub use position::Position;
pub use sprite::Sprite;
pub use texture::{Pixel, Texture};
pub use textures::{
    TextureFrame, TextureLayer, TexturePatternX, TexturePatternY, TexturePatternZ, Textures,
    TexturesGetBuilder,
};
pub use tile::Tile;
pub use world::World;
