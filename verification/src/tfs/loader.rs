//! From decoded documents to the items, tiles and world of the model.

use vstd::prelude::*;
use std::collections::HashMap;
use super::images::{overlaid, overlay_rgba, preview, preview_of};
use crate::model::attribute::Attribute;
use crate::model::attributes;
use crate::model::entity::{entity_views, Entity, EntityView};
use crate::model::item::{item_views, Item, ItemView};
use crate::model::position::Position;
use crate::model::texture::{Texture, TextureView};
use crate::model::textures::{
    TextureFrame, TextureLayer, TexturePatternX, TexturePatternY, TexturePatternZ, Textures,
};
use crate::model::tile::{Tile, TileView};
use crate::model::world::World;
use crate::parse::spr::{sprite_views, SpriteBytes, SPRITE_SIZE};
use crate::parse::{dat, otb, otbm, spr, Error, Parse};
use crate::transport::{message_views, placed_views, Message, MessageView};

verus! {

/// The sprite that a sprite id of an item stands for: ids from 2 up to two
/// more than the number of sprites are looked up, any other id stands for
/// no sprite, and so does an id that the table does not hold.
pub open spec fn sprite_for(sprites: Map<u16, Seq<u8>>, id: u16) -> Option<Seq<u8>> {
    if id >= 2 && id - 2 <= sprites.len() && sprites.contains_key(id) {
        Some(sprites[id])
    } else {
        None
    }
}

/// The number of sprite ids that go into one texture of an item.
pub open spec fn per_texture(t: dat::TexturesView) -> int {
    t.layers * (t.height * t.width)
}

/// The number of textures of an item.
pub open spec fn texture_count(t: dat::TexturesView) -> int {
    t.frames * (t.patterns_z * (t.patterns_y * t.patterns_x))
}

/// The width of an item's textures, in pixels.
pub open spec fn pixel_width(t: dat::TexturesView) -> u32 {
    (SPRITE_SIZE * t.width) as u32
}

/// The height of an item's textures, in pixels.
pub open spec fn pixel_height(t: dat::TexturesView) -> u32 {
    (SPRITE_SIZE * t.height) as u32
}

/// A fully transparent image of the size of an item's textures.
pub open spec fn blank(t: dat::TexturesView) -> Seq<u8> {
    Seq::new((4 * (pixel_width(t) * pixel_height(t))) as nat, |i: int| 0u8)
}

/// The image `canvas` after the sprites `k..` of one texture were laid
/// over it, one after the other. `start` is the index of the texture's
/// first sprite id. Sprite `k` belongs to the column `k % width` and the
/// row `(k / width) % height` of its layer; columns are placed from the
/// right and rows from the bottom.
pub open spec fn overlays(
    t: dat::TexturesView,
    sprites: Map<u16, Seq<u8>>,
    start: int,
    k: int,
    canvas: Seq<u8>,
) -> Seq<u8>
    decreases per_texture(t) - k,
{
    if k < 0 || k >= per_texture(t) {
        canvas
    } else {
        let column = k % (t.width as int);
        let row = (k / (t.width as int)) % (t.height as int);
        let next = match sprite_for(sprites, t.sprites[start + k]) {
            Some(pixels) => overlaid(
                canvas,
                pixel_width(t),
                pixel_height(t),
                pixels,
                SPRITE_SIZE as u32,
                SPRITE_SIZE as u32,
                (SPRITE_SIZE * (t.width - column - 1)) as u32,
                (SPRITE_SIZE * (t.height - row - 1)) as u32,
            ),
            None => canvas,
        };
        overlays(t, sprites, start, k + 1, next)
    }
}

/// The image of the texture with the index `index`: its sprites laid over
/// a transparent image.
pub open spec fn composite(t: dat::TexturesView, sprites: Map<u16, Seq<u8>>, index: int) -> Seq<
    u8,
> {
    overlays(t, sprites, index * per_texture(t), 0, blank(t))
}

/// The texture with the index `index`: its image, the size of the image,
/// and its preview (empty where the preview cannot be written).
pub open spec fn texture_of(t: dat::TexturesView, sprites: Map<u16, Seq<u8>>, index: int) -> TextureView {
    let rgba = composite(t, sprites, index);
    TextureView {
        width: pixel_width(t) as u16,
        height: pixel_height(t) as u16,
        image: match preview_of(rgba, pixel_width(t), pixel_height(t)) {
            Some(text) => text,
            None => Seq::empty(),
        },
        rgba_bytes: rgba,
    }
}

/// The textures of one y pattern: one x pattern for each texture from
/// `base` on, each with a single layer.
pub open spec fn row_layout(t: dat::TexturesView, sprites: Map<u16, Seq<u8>>, base: int) -> Seq<
    Seq<TextureView>,
> {
    Seq::new(t.patterns_x as nat, |x: int| seq![texture_of(t, sprites, base + x)])
}

/// The textures of one z pattern, from the texture `base` on.
pub open spec fn plane_layout(t: dat::TexturesView, sprites: Map<u16, Seq<u8>>, base: int) -> Seq<
    Seq<Seq<TextureView>>,
> {
    Seq::new(t.patterns_y as nat, |y: int| row_layout(t, sprites, base + y * t.patterns_x))
}

/// The textures of one frame, from the texture `base` on.
pub open spec fn frame_layout(t: dat::TexturesView, sprites: Map<u16, Seq<u8>>, base: int) -> Seq<
    Seq<Seq<Seq<TextureView>>>,
> {
    Seq::new(
        t.patterns_z as nat,
        |z: int| plane_layout(t, sprites, base + z * (t.patterns_y * t.patterns_x)),
    )
}

/// Every texture of an item. The textures are numbered frame by frame,
/// inside a frame z pattern by z pattern, then by y pattern and x pattern;
/// each takes the next `layers * height * width` sprite ids of the item.
pub open spec fn item_textures(t: dat::TexturesView, sprites: Map<u16, Seq<u8>>) -> Seq<
    Seq<Seq<Seq<Seq<TextureView>>>>,
> {
    Seq::new(
        t.frames as nat,
        |f: int| frame_layout(t, sprites, f * (t.patterns_z * (t.patterns_y * t.patterns_x))),
    )
}

/// The declared number of sprite ids is the number of textures times the
/// number of sprite ids in each.
pub proof fn lemma_declared(t: dat::TexturesView)
    ensures
        t.declared() == texture_count(t) * per_texture(t),
        0 <= texture_count(t) <= 4228250625,
        0 <= per_texture(t) <= 16581375,
{
    let w = t.width as int;
    let h = t.height as int;
    let l = t.layers as int;
    let x = t.patterns_x as int;
    let y = t.patterns_y as int;
    let z = t.patterns_z as int;
    let f = t.frames as int;
    assert(w * h * l * x * y * z * f == (f * (z * (y * x))) * (l * (h * w))) by (nonlinear_arith);
    assert(f * (z * (y * x)) >= 0) by (nonlinear_arith)
        requires
            f >= 0,
            z >= 0,
            y >= 0,
            x >= 0,
    ;
    assert(l * (h * w) >= 0) by (nonlinear_arith)
        requires
            l >= 0,
            h >= 0,
            w >= 0,
    ;
    assert(f * (z * (y * x)) <= 255 * (255 * (255 * 255))) by (nonlinear_arith)
        requires
            0 <= f <= 255,
            0 <= z <= 255,
            0 <= y <= 255,
            0 <= x <= 255,
    ;
    assert(l * (h * w) <= 255 * (255 * 255)) by (nonlinear_arith)
        requires
            0 <= l <= 255,
            0 <= h <= 255,
            0 <= w <= 255,
    ;
}

/// Looks up the sprite that a sprite id stands for: see [`sprite_for`].
fn find_sprite(sprites: &HashMap<u16, SpriteBytes>, id: u16) -> (r: Option<&SpriteBytes>)
    ensures
        match (sprite_for(sprite_views(sprites@), id), r) {
            (Some(pixels), Some(sprite)) => sprite@ == pixels,
            (None, None) => true,
            _ => false,
        },
{
    assert(sprite_views(sprites@).dom() =~= sprites@.dom());
    if id >= 2 && (id - 2) as usize <= sprites.len() {
        sprites.get(&id)
    } else {
        None
    }
}

/// Composes the texture with the index `index`: see [`texture_of`].
fn compose(textures: &dat::Textures, sprites: &HashMap<u16, SpriteBytes>, index: usize) -> (r:
    Texture)
    requires
        textures@.wf(),
        index < texture_count(textures@),
    ensures
        r@ == texture_of(textures@, sprite_views(sprites@), index as int),
{
    let ghost t = textures@;
    let w: usize = textures.width as usize;
    let h: usize = textures.height as usize;
    let l: usize = textures.layers as usize;
    proof {
        lemma_declared(t);
        assert(h * w <= 255 * 255) by (nonlinear_arith)
            requires
                0 <= h <= 255,
                0 <= w <= 255,
        ;
        assert(l * (h * w) <= 255 * (255 * 255)) by (nonlinear_arith)
            requires
                0 <= l <= 255,
                0 <= h * w <= 255 * 255,
        ;
        assert((index + 1) * per_texture(t) <= texture_count(t) * per_texture(t))
            by (nonlinear_arith)
            requires
                index + 1 <= texture_count(t),
                per_texture(t) >= 0,
        ;
        assert((index + 1) * per_texture(t) == index * per_texture(t) + per_texture(t))
            by (nonlinear_arith);
        assert(index * per_texture(t) >= 0) by (nonlinear_arith)
            requires
                index >= 0,
                per_texture(t) >= 0,
        ;
    }
    let per: usize = l * (h * w);
    let total: usize = textures.sprites.len();
    let start: usize = index * per;
    let width: u32 = (SPRITE_SIZE * w) as u32;
    let height: u32 = (SPRITE_SIZE * h) as u32;
    proof {
        assert(width * height == 1024 * (h * w)) by (nonlinear_arith)
            requires
                width == 32 * w,
                height == 32 * h,
        ;
    }
    let size: usize = 4 * (width as usize * height as usize);
    let mut canvas: Vec<u8> = vec![0u8; size];
    assert(canvas@ =~= blank(t));
    let mut k: usize = 0;
    while k < per
        invariant
            t == textures@,
            t.wf(),
            w == t.width,
            h == t.height,
            per == per_texture(t),
            start == index * per_texture(t),
            start + per <= total == t.sprites.len(),
            width == pixel_width(t),
            height == pixel_height(t),
            width == 32 * w,
            height == 32 * h,
            k <= per,
            canvas@.len() == 4 * (width * height),
            overlays(t, sprite_views(sprites@), start as int, k as int, canvas@) == composite(
                t,
                sprite_views(sprites@),
                index as int,
            ),
        decreases per - k,
    {
        proof {
            if w == 0 || h == 0 {
                assert(per_texture(t) == 0) by (nonlinear_arith)
                    requires
                        per_texture(t) == t.layers * (t.height * t.width),
                        t.width == 0 || t.height == 0,
                ;
            }
        }
        let column: usize = k % w;
        let row: usize = (k / w) % h;
        let id = textures.sprites[start + k];
        match find_sprite(sprites, id) {
            Some(sprite) => {
                overlay_rgba(
                    &mut canvas,
                    width,
                    height,
                    sprite.as_vec(),
                    SPRITE_SIZE as u32,
                    SPRITE_SIZE as u32,
                    (SPRITE_SIZE * (w - column - 1)) as u32,
                    (SPRITE_SIZE * (h - row - 1)) as u32,
                );
            },
            None => {},
        }
        k = k + 1;
    }
    let image = match preview(&canvas, width, height) {
        Some(text) => text,
        None => String::new(),
    };
    Texture { width: width as u16, height: height as u16, image, rgba_bytes: canvas }
}

/// Builds the x patterns of one y pattern: see [`row_layout`].
fn build_row(textures: &dat::Textures, sprites: &HashMap<u16, SpriteBytes>, base: usize) -> (r:
    TexturePatternY)
    requires
        textures@.wf(),
        base + textures.patterns_x <= texture_count(textures@),
    ensures
        r.layout() == row_layout(textures@, sprite_views(sprites@), base as int),
{
    proof {
        lemma_declared(textures@);
    }
    let mut patterns_x: Vec<TexturePatternX> = Vec::new();
    let mut x: usize = 0;
    while x < textures.patterns_x as usize
        invariant
            textures@.wf(),
            base + textures.patterns_x <= texture_count(textures@) <= 4228250625,
            x <= textures.patterns_x,
            patterns_x@.len() == x,
            forall|i: int|
                0 <= i < x ==> #[trigger] patterns_x@[i].textures() == seq![
                    texture_of(textures@, sprite_views(sprites@), base + i),
                ],
        decreases textures.patterns_x - x,
    {
        let texture = compose(textures, sprites, base + x);
        let mut layers: Vec<TextureLayer> = Vec::new();
        layers.push(TextureLayer { texture });
        let pattern = TexturePatternX { layers };
        assert(pattern.textures() =~= seq![texture_of(textures@, sprite_views(sprites@), base + x)]);
        patterns_x.push(pattern);
        x = x + 1;
    }
    let r = TexturePatternY { patterns_x };
    assert(r.layout() =~= row_layout(textures@, sprite_views(sprites@), base as int));
    r
}

/// Builds the y patterns of one z pattern: see [`plane_layout`].
fn build_plane(textures: &dat::Textures, sprites: &HashMap<u16, SpriteBytes>, base: usize) -> (r:
    TexturePatternZ)
    requires
        textures@.wf(),
        base + textures.patterns_y * textures.patterns_x <= texture_count(textures@),
    ensures
        r.layout() == plane_layout(textures@, sprite_views(sprites@), base as int),
{
    proof {
        lemma_declared(textures@);
    }
    let px: usize = textures.patterns_x as usize;
    let mut patterns_y: Vec<TexturePatternY> = Vec::new();
    let mut y: usize = 0;
    let mut at: usize = base;
    while y < textures.patterns_y as usize
        invariant
            textures@.wf(),
            px == textures.patterns_x,
            base + textures.patterns_y * textures.patterns_x <= texture_count(textures@)
                <= 4228250625,
            y <= textures.patterns_y,
            at == base + y * px,
            patterns_y@.len() == y,
            forall|i: int|
                0 <= i < y ==> #[trigger] patterns_y@[i].layout() == row_layout(
                    textures@,
                    sprite_views(sprites@),
                    base + i * px,
                ),
        decreases textures.patterns_y - y,
    {
        proof {
            assert((y + 1) * px <= textures.patterns_y * px) by (nonlinear_arith)
                requires
                    y + 1 <= textures.patterns_y,
                    px >= 0,
            ;
            assert((y + 1) * px == y * px + px) by (nonlinear_arith);
        }
        patterns_y.push(build_row(textures, sprites, at));
        at = at + px;
        y = y + 1;
    }
    let r = TexturePatternZ { patterns_y };
    assert(r.layout() =~= plane_layout(textures@, sprite_views(sprites@), base as int));
    r
}

/// Builds the z patterns of one frame: see [`frame_layout`].
fn build_frame(textures: &dat::Textures, sprites: &HashMap<u16, SpriteBytes>, base: usize) -> (r:
    TextureFrame)
    requires
        textures@.wf(),
        base + textures.patterns_z * (textures.patterns_y * textures.patterns_x) <= texture_count(
            textures@,
        ),
    ensures
        r.layout() == frame_layout(textures@, sprite_views(sprites@), base as int),
{
    proof {
        lemma_declared(textures@);
        assert(textures.patterns_y * textures.patterns_x <= 255 * 255) by (nonlinear_arith)
            requires
                0 <= textures.patterns_y <= 255,
                0 <= textures.patterns_x <= 255,
        ;
    }
    let step: usize = textures.patterns_y as usize * textures.patterns_x as usize;
    let mut patterns_z: Vec<TexturePatternZ> = Vec::new();
    let mut z: usize = 0;
    let mut at: usize = base;
    while z < textures.patterns_z as usize
        invariant
            textures@.wf(),
            step == textures.patterns_y * textures.patterns_x,
            base + textures.patterns_z * step <= texture_count(textures@) <= 4228250625,
            z <= textures.patterns_z,
            at == base + z * step,
            patterns_z@.len() == z,
            forall|i: int|
                0 <= i < z ==> #[trigger] patterns_z@[i].layout() == plane_layout(
                    textures@,
                    sprite_views(sprites@),
                    base + i * step,
                ),
        decreases textures.patterns_z - z,
    {
        proof {
            assert((z + 1) * step <= textures.patterns_z * step) by (nonlinear_arith)
                requires
                    z + 1 <= textures.patterns_z,
                    step >= 0,
            ;
            assert((z + 1) * step == z * step + step) by (nonlinear_arith);
        }
        patterns_z.push(build_plane(textures, sprites, at));
        at = at + step;
        z = z + 1;
    }
    let r = TextureFrame { patterns_z };
    assert(r.layout() =~= frame_layout(textures@, sprite_views(sprites@), base as int));
    r
}

/// Builds every texture of an item from its sprite ids and the decoded
/// sprites: see [`item_textures`]. The item's list of sprite ids must be as
/// long as its shape declares.
pub fn get_item_textures(textures: &dat::Textures, sprites: &HashMap<u16, SpriteBytes>) -> (r:
    Textures)
    requires
        textures@.wf(),
    ensures
        r.layout() == item_textures(textures@, sprite_views(sprites@)),
{
    proof {
        lemma_declared(textures@);
        assert(textures.patterns_y * textures.patterns_x <= 255 * 255) by (nonlinear_arith)
            requires
                0 <= textures.patterns_y <= 255,
                0 <= textures.patterns_x <= 255,
        ;
        assert(textures.patterns_z * (textures.patterns_y * textures.patterns_x) <= 255 * (255
            * 255)) by (nonlinear_arith)
            requires
                0 <= textures.patterns_z <= 255,
                0 <= textures.patterns_y * textures.patterns_x <= 255 * 255,
        ;
    }
    let step: usize = textures.patterns_z as usize * (textures.patterns_y as usize
        * textures.patterns_x as usize);
    let mut frames: Vec<TextureFrame> = Vec::new();
    let mut f: usize = 0;
    let mut at: usize = 0;
    while f < textures.frames as usize
        invariant
            textures@.wf(),
            step == textures.patterns_z * (textures.patterns_y * textures.patterns_x),
            texture_count(textures@) == textures.frames * step <= 4228250625,
            f <= textures.frames,
            at == f * step,
            frames@.len() == f,
            forall|i: int|
                0 <= i < f ==> #[trigger] frames@[i].layout() == frame_layout(
                    textures@,
                    sprite_views(sprites@),
                    i * step,
                ),
        decreases textures.frames - f,
    {
        proof {
            assert((f + 1) * step <= textures.frames * step) by (nonlinear_arith)
                requires
                    f + 1 <= textures.frames,
                    step >= 0,
            ;
            assert((f + 1) * step == f * step + step) by (nonlinear_arith);
        }
        frames.push(build_frame(textures, sprites, at));
        at = at + step;
        f = f + 1;
    }
    let r = Textures { frames };
    assert(r.layout() =~= item_textures(textures@, sprite_views(sprites@)));
    r
}

/// The entity that a thing becomes: its attributes are applied one after
/// the other, a later attribute replacing an earlier one of its kind.
pub open spec fn entity_of(thing: otbm::ThingView) -> EntityView
    decreases thing, 0int,
{
    applied(thing.attributes, 0, EntityView::blank())
}

/// The entity `entity` with one more attribute: the attribute takes the
/// place of its kind. The things of a container attribute become entities
/// themselves.
pub open spec fn with_attribute(entity: EntityView, attribute: otbm::AttributeView) -> EntityView
    decreases attribute, 0int,
{
    match attribute {
        otbm::AttributeView::Item(id) => EntityView { item: Some(id), ..entity },
        otbm::AttributeView::Count(n) => EntityView { count: Some(n), ..entity },
        otbm::AttributeView::Fluid(n) => EntityView { fluid: Some(n), ..entity },
        otbm::AttributeView::Container(things) => EntityView {
            container: Some(
                Seq::new(
                    things.len(),
                    |k: int|
                        if 0 <= k < things.len() {
                            entity_of(things[k])
                        } else {
                            arbitrary()
                        },
                ),
            ),
            ..entity
        },
    }
}

/// The entity `entity` after the attributes `index..` were applied to it.
pub open spec fn applied(attributes: Seq<otbm::AttributeView>, index: int, entity: EntityView) -> EntityView
    decreases attributes, attributes.len() - index,
{
    if index < 0 || index >= attributes.len() {
        entity
    } else {
        applied(attributes, index + 1, with_attribute(entity, attributes[index]))
    }
}

/// The entities that a list of things becomes.
pub open spec fn entities_of(things: Seq<otbm::ThingView>) -> Seq<EntityView> {
    Seq::new(things.len(), |k: int| entity_of(things[k]))
}

/// Turns a thing of the map into an entity of the model: see
/// [`entity_of`].
pub fn thing_to_entity(thing: &otbm::Thing) -> (entity: Entity)
    ensures
        entity@ == entity_of(thing@),
    decreases thing, 0int,
{
    let mut entity = Entity::new();
    let mut index: usize = 0;
    assert(thing@.attributes =~= otbm::attribute_views(thing.attributes@));
    while index < thing.attributes.len()
        invariant
            index <= thing.attributes.len(),
            thing@.attributes == otbm::attribute_views(thing.attributes@),
            applied(thing@.attributes, index as int, entity@) == entity_of(thing@),
        decreases thing.attributes.len() - index,
    {
        let ghost before = entity@;
        assert(thing@.attributes[index as int] == otbm::attribute_view(
            thing.attributes@[index as int],
        ));
        match &thing.attributes[index] {
            otbm::Attribute::Item(id) => {
                entity.attributes.insert(Attribute::Item(attributes::Item(*id)));
            },
            otbm::Attribute::Count(n) => {
                entity.attributes.insert(Attribute::Count(attributes::Count(*n)));
            },
            otbm::Attribute::Fluid(n) => {
                entity.attributes.insert(Attribute::Fluid(attributes::Fluid(*n)));
            },
            otbm::Attribute::Container(things) => {
                let inside = things_to_entities(things);
                assert(thing@.attributes[index as int]->Container_0 =~= otbm::thing_views(
                    things@,
                ));
                let ghost values = entity_views(inside@);
                let container = attributes::Container(inside);
                entity.attributes.insert(Attribute::Container(container));
                assert(entity@.container.unwrap() =~= values);
                assert(with_attribute(before, thing@.attributes[index as int]).container.unwrap()
                    =~= values);
            },
        }
        index = index + 1;
    }
    entity
}

/// Turns a list of things into entities, one for one.
pub fn things_to_entities(things: &Vec<otbm::Thing>) -> (entities: Vec<Entity>)
    ensures
        entity_views(entities@) == entities_of(otbm::thing_views(things@)),
    decreases things, 1int,
{
    let mut entities: Vec<Entity> = Vec::new();
    let mut k: usize = 0;
    while k < things.len()
        invariant
            k <= things.len(),
            entities@.len() == k,
            forall|i: int|
                0 <= i < k ==> crate::model::entity::entity_view(#[trigger] entities@[i])
                    == entity_of(otbm::thing_view(things@[i])),
        decreases things.len() - k,
    {
        entities.push(thing_to_entity(&things[k]));
        k = k + 1;
    }
    assert(entity_views(entities@) =~= entities_of(otbm::thing_views(things@)));
    entities
}

/// The place of a tile in the world: the tile's column, row and floor,
/// without a stack index.
pub open spec fn place_of(position: otbm::Position) -> Position {
    Position { x: position.x, y: position.y, z: position.z, stack_pos: None }
}

/// The tile of the world that a tile of the map becomes: its things as
/// entities, and no attributes of its own.
pub open spec fn tile_of(tile: otbm::TileView) -> TileView {
    TileView { attributes: EntityView::blank(), entities: entities_of(tile.things) }
}

/// Turns a tile of the map into a tile of the world and its place: see
/// [`tile_of`].
pub fn assemble_tile(tile: &otbm::Tile) -> (placed: (Position, Tile))
    ensures
        placed.0 == place_of(tile.position),
        placed.1@ == tile_of(tile@),
{
    let position = Position {
        x: tile.position.x,
        y: tile.position.y,
        z: tile.position.z,
        stack_pos: None,
    };
    (position, Tile::with_entities(things_to_entities(&tile.things)))
}

/// The item of the model that an item record becomes: what the record
/// says, no name, and the textures built from its sprite ids.
pub open spec fn item_of(item: dat::ItemView, sprites: Map<u16, Seq<u8>>) -> ItemView {
    ItemView {
        id: item.id,
        name: None,
        ground: item.flags.ground,
        stackable: item.flags.stackable,
        splash: item.flags.splash,
        fluid_container: item.flags.fluid_container,
        draw_offset: item.flags.draw_offset,
        height_offset: item.flags.height_offset,
        textures: item_textures(item.textures, sprites),
    }
}

/// Turns an item record into an item of the model: see [`item_of`]. A
/// record whose list of sprite ids is not as long as its shape declares is
/// `Malformed`.
pub fn assemble_item(item: &dat::Item, sprites: &HashMap<u16, SpriteBytes>) -> (r: Result<
    Item,
    Error,
>)
    ensures
        match r {
            Ok(assembled) => item@.textures.wf() && assembled@ == item_of(item@, sprite_views(sprites@)),
            Err(e) => !item@.textures.wf() && e == Error::Malformed,
        },
{
    if !item.textures.is_well_formed() {
        return Err(Error::Malformed);
    }
    Ok(
        Item {
            id: item.id,
            name: None,
            ground: item.ground,
            stackable: item.stackable,
            splash: item.splash,
            fluid_container: item.fluid_container,
            draw_offset: item.draw_offset,
            height_offset: item.height_offset,
            textures: get_item_textures(&item.textures, sprites),
        },
    )
}

/// The tiles of the world after the first `n` tiles of a map were put into
/// it, one after the other: a later tile takes the place of an earlier one
/// at the same position.
pub open spec fn placed_tiles(tiles: Seq<otbm::TileView>, n: int) -> Map<u64, TileView>
    decreases n,
{
    if n <= 0 {
        Map::empty()
    } else {
        placed_tiles(tiles, n - 1).insert(
            place_of(tiles[n - 1].position).rank() as u64,
            tile_of(tiles[n - 1]),
        )
    }
}

/// The places of the tiles of a map, in order.
pub open spec fn places(tiles: Seq<otbm::TileView>) -> Seq<Position> {
    Seq::new(tiles.len(), |i: int| place_of(tiles[i].position))
}

/// Builds the world of a decoded map: every tile is turned into a tile of
/// the world and put at its place, and every place is added to the root
/// area.
pub fn assemble_world(map: &otbm::TileMap) -> (world: World)
    ensures
        world.wf(),
        world.width() == map.width,
        world.height() == map.height,
        world.areas().len() == 1,
        world.contents() == placed_tiles(map@.tiles, map@.tiles.len() as int),
        world.root_area().tiles() == places(map@.tiles),
{
    let mut world = World::new(map.width, map.height);
    let mut i: usize = 0;
    assert(world.contents() =~= placed_tiles(map@.tiles, 0));
    assert(world.root_area().tiles() =~= places(map@.tiles).take(0));
    while i < map.tiles.len()
        invariant
            i <= map.tiles.len(),
            map@.tiles.len() == map.tiles.len(),
            world.wf(),
            world.width() == map.width,
            world.height() == map.height,
            world.areas().len() == 1,
            world.contents() == placed_tiles(map@.tiles, i as int),
            world.root_area().tiles() == places(map@.tiles).take(i as int),
        decreases map.tiles.len() - i,
    {
        let ghost before = world.contents();
        let (position, tile) = assemble_tile(&map.tiles[i]);
        let ghost value = tile@;
        world.add_tile(position, tile);
        assert(world.contents() =~= before.insert(position.rank() as u64, value));
        assert(map@.tiles[i as int] == map.tiles@[i as int]@);
        i = i + 1;
        assert(world.root_area().tiles() =~= places(map@.tiles).take(i as int));
    }
    assert(places(map@.tiles).take(i as int) =~= places(map@.tiles));
    world
}

/// The number of items in one message.
pub const ITEMS_PER_MESSAGE: usize = 100;

/// The number of tiles in one message.
pub const TILES_PER_MESSAGE: usize = 10_000;

/// The division of `items` into batches of `size`: each batch holds the
/// next `size` items, the last one what is left. No batch is empty.
pub open spec fn batches<A>(items: Seq<A>, size: int) -> Seq<Seq<A>>
    decreases items.len(),
{
    if items.len() == 0 || size <= 0 {
        Seq::empty()
    } else if items.len() <= size {
        seq![items]
    } else {
        seq![items.take(size)] + batches(items.skip(size), size)
    }
}

/// The batches of a division, joined again.
pub open spec fn joined<A>(parts: Seq<Seq<A>>) -> Seq<A>
    decreases parts.len(),
{
    if parts.len() == 0 {
        Seq::empty()
    } else {
        parts[0] + joined(parts.skip(1))
    }
}

/// A division into batches loses nothing and keeps the order: the batches
/// joined are the items again. Every batch holds at least one item and at
/// most `size`, and every batch but the last holds exactly `size`.
pub proof fn lemma_batches<A>(items: Seq<A>, size: int)
    requires
        size > 0,
    ensures
        joined(batches(items, size)) == items,
        forall|i: int|
            0 <= i < batches(items, size).len() ==> 1 <= #[trigger] batches(items, size)[i].len()
                <= size,
        forall|i: int|
            0 <= i < batches(items, size).len() - 1 ==> #[trigger] batches(items, size)[i].len()
                == size,
    decreases items.len(),
{
    let all = batches(items, size);
    if items.len() == 0 {
        assert(joined(all) =~= items);
    } else if items.len() <= size {
        assert(all.skip(1) =~= Seq::<Seq<A>>::empty());
        assert(joined(all.skip(1)) =~= Seq::<A>::empty());
        assert(joined(all) =~= items);
    } else {
        let rest = batches(items.skip(size), size);
        lemma_batches(items.skip(size), size);
        assert(all.skip(1) =~= rest);
        assert(joined(all) =~= items);
        assert forall|i: int| 0 <= i < all.len() implies 1 <= #[trigger] all[i].len() <= size by {
            if i > 0 {
                assert(all[i] == rest[i - 1]);
            }
        }
        assert forall|i: int| 0 <= i < all.len() - 1 implies #[trigger] all[i].len() == size by {
            if i > 0 {
                assert(all[i] == rest[i - 1]);
            }
        }
    }
}

/// The items of the model that the records of an item table with ids below
/// `upto` become, in the order of their ids.
pub open spec fn ordered_items(items: Map<u16, dat::ItemView>, sprites: Map<u16, Seq<u8>>, upto: int) -> Seq<
    ItemView,
>
    decreases upto,
{
    if upto <= 0 {
        Seq::empty()
    } else {
        let before = ordered_items(items, sprites, upto - 1);
        if items.contains_key((upto - 1) as u16) {
            before.push(item_of(items[(upto - 1) as u16], sprites))
        } else {
            before
        }
    }
}

/// Turns every record of an item table into an item of the model, in the
/// order of the ids: see [`ordered_items`]. A table with a record whose
/// list of sprite ids is not as long as its shape declares is `Malformed`.
pub fn assemble_items(dat: &dat::Document, sprites: &HashMap<u16, SpriteBytes>) -> (r: Result<
    Vec<Item>,
    Error,
>)
    ensures
        match r {
            Ok(items) => dat.wf() && item_views(items@) == ordered_items(
                dat@.items,
                sprite_views(sprites@),
                65536,
            ),
            Err(e) => !dat.wf() && e == Error::Malformed,
        },
{
    let mut items: Vec<Item> = Vec::new();
    let mut id: u32 = 0;
    assert(item_views(items@) =~= ordered_items(dat@.items, sprite_views(sprites@), 0));
    while id < 65536
        invariant
            id <= 65536,
            forall|k: u16| k < id && #[trigger] dat@.items.contains_key(k) ==> dat@.items[k].textures.wf(),
            item_views(items@) == ordered_items(dat@.items, sprite_views(sprites@), id as int),
        decreases 65536 - id,
    {
        match dat.items.get(&(id as u16)) {
            Some(item) => {
                assert(dat@.items.contains_key(id as u16));
                assert(dat@.items[id as u16] == item@);
                let ghost before = items@;
                let assembled = assemble_item(item, sprites)?;
                let ghost value = assembled@;
                items.push(assembled);
                assert(item_views(items@) =~= item_views(before).push(value));
            },
            None => {},
        }
        id = id + 1;
    }
    Ok(items)
}

/// The tiles of the world that the tiles of a map become, each with its
/// place, in order.
pub open spec fn ordered_tiles(tiles: Seq<otbm::TileView>) -> Seq<(Position, TileView)> {
    Seq::new(tiles.len(), |i: int| (place_of(tiles[i].position), tile_of(tiles[i])))
}

/// Turns every tile of a map into a tile of the world with its place: see
/// [`ordered_tiles`].
pub fn assemble_tiles(tiles: &Vec<otbm::Tile>) -> (placed: Vec<(Position, Tile)>)
    ensures
        placed_views(placed@) == ordered_tiles(otbm::tile_views(tiles@)),
{
    let mut placed: Vec<(Position, Tile)> = Vec::new();
    let mut i: usize = 0;
    while i < tiles.len()
        invariant
            i <= tiles.len(),
            placed@.len() == i,
            forall|k: int|
                0 <= k < i ==> (#[trigger] placed@[k]).0 == place_of(tiles@[k].position)
                    && placed@[k].1@ == tile_of(tiles@[k]@),
        decreases tiles.len() - i,
    {
        placed.push(assemble_tile(&tiles[i]));
        i = i + 1;
    }
    assert(placed_views(placed@) =~= ordered_tiles(otbm::tile_views(tiles@)));
    placed
}

/// The messages that carry batches of items.
pub open spec fn item_batches(parts: Seq<Seq<ItemView>>) -> Seq<MessageView> {
    Seq::new(parts.len(), |i: int| MessageView::Items(parts[i]))
}

/// The messages that carry batches of tiles.
pub open spec fn tile_batches(parts: Seq<Seq<(Position, TileView)>>) -> Seq<MessageView> {
    Seq::new(parts.len(), |i: int| MessageView::MapTiles(parts[i]))
}

/// The messages that hand over `items`: their number first, then the items
/// in batches of at most a hundred.
pub fn item_messages(items: Vec<Item>) -> (messages: Vec<Message>)
    ensures
        message_views(messages@) == seq![MessageView::ItemsCount(items@.len() as usize)]
            + item_batches(batches(item_views(items@), ITEMS_PER_MESSAGE as int)),
{
    let ghost all = item_views(items@);
    let mut messages: Vec<Message> = Vec::new();
    messages.push(Message::ItemsCount(items.len()));
    let ghost head = message_views(messages@);
    assert(head =~= seq![MessageView::ItemsCount(items@.len() as usize)]);
    let mut rest = items;
    while rest.len() > ITEMS_PER_MESSAGE
        invariant
            message_views(messages@) + item_batches(
                batches(item_views(rest@), ITEMS_PER_MESSAGE as int),
            ) == head + item_batches(batches(all, ITEMS_PER_MESSAGE as int)),
        decreases rest.len(),
    {
        let ghost sent = message_views(messages@);
        let ghost whole = item_views(rest@);
        let tail = rest.split_off(ITEMS_PER_MESSAGE);
        assert(item_views(rest@) =~= whole.take(ITEMS_PER_MESSAGE as int));
        assert(item_views(tail@) =~= whole.skip(ITEMS_PER_MESSAGE as int));
        let message = Message::Items(rest);
        messages.push(message);
        assert(message_views(messages@) =~= sent.push(
            MessageView::Items(whole.take(ITEMS_PER_MESSAGE as int)),
        ));
        rest = tail;
        assert(message_views(messages@) + item_batches(
            batches(item_views(rest@), ITEMS_PER_MESSAGE as int),
        ) =~= sent + item_batches(batches(whole, ITEMS_PER_MESSAGE as int)));
    }
    if rest.len() > 0 {
        let ghost sent = message_views(messages@);
        let ghost whole = item_views(rest@);
        messages.push(Message::Items(rest));
        assert(message_views(messages@) =~= sent + item_batches(
            batches(whole, ITEMS_PER_MESSAGE as int),
        ));
    } else {
        assert(message_views(messages@) =~= message_views(messages@) + item_batches(
            batches(item_views(rest@), ITEMS_PER_MESSAGE as int),
        ));
    }
    messages
}

/// The messages that hand over `tiles`: their number first, then the tiles
/// in batches of at most ten thousand.
pub fn tile_messages(tiles: Vec<(Position, Tile)>) -> (messages: Vec<Message>)
    ensures
        message_views(messages@) == seq![MessageView::MapTilesCount(tiles@.len() as usize)]
            + tile_batches(batches(placed_views(tiles@), TILES_PER_MESSAGE as int)),
{
    let ghost all = placed_views(tiles@);
    let mut messages: Vec<Message> = Vec::new();
    messages.push(Message::MapTilesCount(tiles.len()));
    let ghost head = message_views(messages@);
    assert(head =~= seq![MessageView::MapTilesCount(tiles@.len() as usize)]);
    let mut rest = tiles;
    while rest.len() > TILES_PER_MESSAGE
        invariant
            message_views(messages@) + tile_batches(
                batches(placed_views(rest@), TILES_PER_MESSAGE as int),
            ) == head + tile_batches(batches(all, TILES_PER_MESSAGE as int)),
        decreases rest.len(),
    {
        let ghost sent = message_views(messages@);
        let ghost whole = placed_views(rest@);
        let tail = rest.split_off(TILES_PER_MESSAGE);
        assert(placed_views(rest@) =~= whole.take(TILES_PER_MESSAGE as int));
        assert(placed_views(tail@) =~= whole.skip(TILES_PER_MESSAGE as int));
        let message = Message::MapTiles(rest);
        messages.push(message);
        assert(message_views(messages@) =~= sent.push(
            MessageView::MapTiles(whole.take(TILES_PER_MESSAGE as int)),
        ));
        rest = tail;
        assert(message_views(messages@) + tile_batches(
            batches(placed_views(rest@), TILES_PER_MESSAGE as int),
        ) =~= sent + tile_batches(batches(whole, TILES_PER_MESSAGE as int)));
    }
    if rest.len() > 0 {
        let ghost sent = message_views(messages@);
        let ghost whole = placed_views(rest@);
        messages.push(Message::MapTiles(rest));
        assert(message_views(messages@) =~= sent + tile_batches(
            batches(whole, TILES_PER_MESSAGE as int),
        ));
    } else {
        assert(message_views(messages@) =~= message_views(messages@) + tile_batches(
            batches(placed_views(rest@), TILES_PER_MESSAGE as int),
        ));
    }
    messages
}

/// The messages that hand over the items `items`: see [`item_messages`].
pub open spec fn item_part(items: Seq<ItemView>) -> Seq<MessageView> {
    seq![MessageView::ItemsCount(items.len() as usize)] + item_batches(
        batches(items, ITEMS_PER_MESSAGE as int),
    )
}

/// The messages that hand over the tiles `tiles`: see [`tile_messages`].
pub open spec fn tile_part(tiles: Seq<(Position, TileView)>) -> Seq<MessageView> {
    seq![MessageView::MapTilesCount(tiles.len() as usize)] + tile_batches(
        batches(tiles, TILES_PER_MESSAGE as int),
    )
}

/// The messages that the four documents of a project make. The sprite
/// atlas, the item metadata and the item index are decoded first, then the
/// map against the latter two; the first document that cannot be decoded
/// gives its error, and then there are no messages at all. The messages
/// are the items, built from the item metadata and the sprites, and then
/// the tiles of the map.
pub open spec fn loaded(atlas: Seq<u8>, metadata: Seq<u8>, index: Seq<u8>, map: Seq<u8>) -> Result<
    Seq<MessageView>,
    Error,
> {
    match spr::document(atlas) {
        Err(e) => Err(e),
        Ok(sprites) => match dat::document(metadata) {
            Err(e) => Err(e),
            Ok(items) => match otb::document(index) {
                Err(e) => Err(e),
                Ok(ids) => match otbm::document(map, items, ids) {
                    Err(e) => Err(e),
                    Ok(world) => Ok(
                        item_part(ordered_items(items.items, sprites.sprites, 65536)) + tile_part(
                            ordered_tiles(world.tiles),
                        ),
                    ),
                },
            },
        },
    }
}

/// Decodes the four documents of a project and turns them into the
/// messages for a viewer: see [`loaded`].
pub fn load(atlas: Vec<u8>, metadata: Vec<u8>, index: Vec<u8>, map: Vec<u8>) -> (r: Result<
    Vec<Message>,
    Error,
>)
    ensures
        match (loaded(atlas@, metadata@, index@, map@), r) {
            (Ok(v), Ok(messages)) => message_views(messages@) == v,
            (Err(e), Err(x)) => x == e,
            _ => false,
        },
{
    let sprites = <Vec<u8> as Parse<spr::Document>>::parse(atlas)?;
    let items = <Vec<u8> as Parse<dat::Document>>::parse(metadata)?;
    let ids = <Vec<u8> as Parse<otb::Document>>::parse(index)?;
    let world = (otbm::Reader { data: map, dat: &items, otb: &ids }).parse()?;
    let assembled = assemble_items(&items, &sprites.sprites)?;
    let mut messages = item_messages(assembled);
    let ghost first = message_views(messages@);
    let mut tiles = tile_messages(assemble_tiles(&world.map.tiles));
    let ghost second = message_views(tiles@);
    messages.append(&mut tiles);
    assert(message_views(messages@) =~= first + second);
    Ok(messages)
}

} // verus!
