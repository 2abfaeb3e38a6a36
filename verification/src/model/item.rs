use vstd::prelude::*;
use super::offset::Offset;
use super::texture::{texture_views, Texture, TextureView};
use super::textures::{Textures, TexturesGetBuilder};

verus! {

/// An item of the assembled world: what the item metadata says of it, and
/// its textures.
#[derive(Debug, Clone)]
pub struct Item {
    pub id: u16,
    pub name: Option<String>,
    pub ground: bool,
    pub stackable: bool,
    pub splash: bool,
    pub fluid_container: bool,
    pub draw_offset: Offset,
    pub height_offset: Offset,
    pub textures: Textures,
}

/// The mathematical value of an [`Item`].
pub struct ItemView {
    pub id: u16,
    pub name: Option<Seq<char>>,
    pub ground: bool,
    pub stackable: bool,
    pub splash: bool,
    pub fluid_container: bool,
    pub draw_offset: Offset,
    pub height_offset: Offset,
    pub textures: Seq<Seq<Seq<Seq<Seq<TextureView>>>>>,
}

impl View for Item {
    type V = ItemView;

    open spec fn view(&self) -> ItemView {
        ItemView {
            id: self.id,
            name: match self.name {
                Some(n) => Some(n@),
                None => None,
            },
            ground: self.ground,
            stackable: self.stackable,
            splash: self.splash,
            fluid_container: self.fluid_container,
            draw_offset: self.draw_offset,
            height_offset: self.height_offset,
            textures: self.textures.layout(),
        }
    }
}

/// The values of a list of items.
pub open spec fn item_views(items: Seq<Item>) -> Seq<ItemView> {
    Seq::new(items.len(), |i: int| items[i]@)
}

impl Item {
    /// A copy of the item's first texture.
    pub fn texture(&self) -> (t: Texture)
        requires
            self.textures.holds(
                TexturesGetBuilder { frame: 0, pattern_x: 0, pattern_y: 0, pattern_z: 0, layer: 0 },
            ),
        ensures
            t@ == self.textures.frames@[0].patterns_z@[0].patterns_y@[0].patterns_x@[0].layers@[0].texture@,
    {
        self.textures.get_default().clone()
    }

    /// A copy of every texture of the item.
    pub fn all_textures(&self) -> (all: Vec<Texture>)
        ensures
            texture_views(all@) == self.textures.textures(),
    {
        self.textures.get_all()
    }
}

} // verus!
