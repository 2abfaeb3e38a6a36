//! The item-metadata document: a flat run of item records, each a run of
//! flag bytes closed by a sentinel, a texture shape and a list of sprite ids.

use vstd::prelude::*;
use std::collections::HashMap;
use super::cursor::{
    decoded, le16, outcome, outcome_view, take_u16, take_u32, take_u8, ByteCursor,
};
use super::{Error, Parse};
use crate::model::Offset;

verus! {

/// The byte that closes an item's run of flags.
pub const FLAGS_END: u8 = 0xFF;

/// The id of the first item record; the following records count up from it.
pub const FIRST_ITEM_ID: u16 = 100;

/// The flag codes of an item record.
#[derive(Debug, Clone, Copy, PartialEq, Eq, Structural)]
pub enum ItemFlag {
    Ground,
    OnTop,
    WalkThroughDoors,
    WalkThroughArches,
    Container,
    Stackable,
    Ladder,
    Usable,
    Rune,
    Writeable,
    Readable,
    FluidContainer,
    Splash,
    Blocking,
    Immoveable,
    BlocksMissile,
    BlocksMonsterMovement,
    Equipable,
    Hangable,
    Horizontal,
    Vertical,
    Rotateable,
    LightInfo,
    Unknown1,
    FloorChangeDown,
    DrawOffset,
    Height,
    DrawWithHeightOffsetForAllParts,
    LifeBarOffset,
    MinimapColor,
    FloorChange,
    Unknown2,
}

impl ItemFlag {
    /// The flag that a code byte stands for, if any.
    pub open spec fn of(code: u8) -> Option<ItemFlag> {
        match code {
            0x00 => Some(ItemFlag::Ground),
            0x01 => Some(ItemFlag::OnTop),
            0x02 => Some(ItemFlag::WalkThroughDoors),
            0x03 => Some(ItemFlag::WalkThroughArches),
            0x04 => Some(ItemFlag::Container),
            0x05 => Some(ItemFlag::Stackable),
            0x06 => Some(ItemFlag::Ladder),
            0x07 => Some(ItemFlag::Usable),
            0x08 => Some(ItemFlag::Rune),
            0x09 => Some(ItemFlag::Writeable),
            0x0A => Some(ItemFlag::Readable),
            0x0B => Some(ItemFlag::FluidContainer),
            0x0C => Some(ItemFlag::Splash),
            0x0D => Some(ItemFlag::Blocking),
            0x0E => Some(ItemFlag::Immoveable),
            0x0F => Some(ItemFlag::BlocksMissile),
            0x10 => Some(ItemFlag::BlocksMonsterMovement),
            0x11 => Some(ItemFlag::Equipable),
            0x12 => Some(ItemFlag::Hangable),
            0x13 => Some(ItemFlag::Horizontal),
            0x14 => Some(ItemFlag::Vertical),
            0x15 => Some(ItemFlag::Rotateable),
            0x16 => Some(ItemFlag::LightInfo),
            0x17 => Some(ItemFlag::Unknown1),
            0x18 => Some(ItemFlag::FloorChangeDown),
            0x19 => Some(ItemFlag::DrawOffset),
            0x1A => Some(ItemFlag::Height),
            0x1B => Some(ItemFlag::DrawWithHeightOffsetForAllParts),
            0x1C => Some(ItemFlag::LifeBarOffset),
            0x1D => Some(ItemFlag::MinimapColor),
            0x1E => Some(ItemFlag::FloorChange),
            0x1F => Some(ItemFlag::Unknown2),
            _ => None,
        }
    }

    /// Decodes a flag code; `None` for a code that names no flag.
    pub fn from_u8(code: u8) -> (flag: Option<ItemFlag>)
        ensures
            flag == ItemFlag::of(code),
    {
        match code {
            0x00 => Some(ItemFlag::Ground),
            0x01 => Some(ItemFlag::OnTop),
            0x02 => Some(ItemFlag::WalkThroughDoors),
            0x03 => Some(ItemFlag::WalkThroughArches),
            0x04 => Some(ItemFlag::Container),
            0x05 => Some(ItemFlag::Stackable),
            0x06 => Some(ItemFlag::Ladder),
            0x07 => Some(ItemFlag::Usable),
            0x08 => Some(ItemFlag::Rune),
            0x09 => Some(ItemFlag::Writeable),
            0x0A => Some(ItemFlag::Readable),
            0x0B => Some(ItemFlag::FluidContainer),
            0x0C => Some(ItemFlag::Splash),
            0x0D => Some(ItemFlag::Blocking),
            0x0E => Some(ItemFlag::Immoveable),
            0x0F => Some(ItemFlag::BlocksMissile),
            0x10 => Some(ItemFlag::BlocksMonsterMovement),
            0x11 => Some(ItemFlag::Equipable),
            0x12 => Some(ItemFlag::Hangable),
            0x13 => Some(ItemFlag::Horizontal),
            0x14 => Some(ItemFlag::Vertical),
            0x15 => Some(ItemFlag::Rotateable),
            0x16 => Some(ItemFlag::LightInfo),
            0x17 => Some(ItemFlag::Unknown1),
            0x18 => Some(ItemFlag::FloorChangeDown),
            0x19 => Some(ItemFlag::DrawOffset),
            0x1A => Some(ItemFlag::Height),
            0x1B => Some(ItemFlag::DrawWithHeightOffsetForAllParts),
            0x1C => Some(ItemFlag::LifeBarOffset),
            0x1D => Some(ItemFlag::MinimapColor),
            0x1E => Some(ItemFlag::FloorChange),
            0x1F => Some(ItemFlag::Unknown2),
            _ => None,
        }
    }
}

/// What the flags of one item record say.
#[derive(Debug, Clone, Copy, PartialEq, Eq, Structural)]
pub struct Flags {
    pub minimap_color: Option<u16>,
    pub ground: bool,
    pub stackable: bool,
    pub splash: bool,
    pub fluid_container: bool,
    pub draw_offset: Offset,
    pub height_offset: Offset,
}

impl Flags {
    /// The flags of a record before any flag byte is read.
    pub open spec fn blank() -> Flags {
        Flags {
            minimap_color: None,
            ground: false,
            stackable: false,
            splash: false,
            fluid_container: false,
            draw_offset: Offset { x: 0, y: 0 },
            height_offset: Offset { x: 0, y: 0 },
        }
    }

    /// The flags of a record before any flag byte is read.
    pub fn new() -> (f: Flags)
        ensures
            f == Flags::blank(),
    {
        Flags {
            minimap_color: None,
            ground: false,
            stackable: false,
            splash: false,
            fluid_container: false,
            draw_offset: Offset { x: 0, y: 0 },
            height_offset: Offset { x: 0, y: 0 },
        }
    }
}

/// The shape of an item's textures and the flat list of its sprite ids.
#[derive(Debug)]
pub struct Textures {
    pub width: u8,
    pub height: u8,
    pub layers: u8,
    pub patterns_x: u8,
    pub patterns_y: u8,
    pub patterns_z: u8,
    pub frames: u8,
    pub sprites: Vec<u16>,
}

/// The mathematical value of a [`Textures`].
pub struct TexturesView {
    pub width: u8,
    pub height: u8,
    pub layers: u8,
    pub patterns_x: u8,
    pub patterns_y: u8,
    pub patterns_z: u8,
    pub frames: u8,
    pub sprites: Seq<u16>,
}

impl TexturesView {
    /// The number of sprite ids that the seven dimensions declare.
    pub open spec fn declared(self) -> int {
        self.width * self.height * self.layers * self.patterns_x * self.patterns_y
            * self.patterns_z * self.frames
    }

    /// The list of sprite ids is exactly as long as the shape declares.
    pub open spec fn wf(self) -> bool {
        self.sprites.len() == self.declared()
    }
}

impl View for Textures {
    type V = TexturesView;

    open spec fn view(&self) -> TexturesView {
        TexturesView {
            width: self.width,
            height: self.height,
            layers: self.layers,
            patterns_x: self.patterns_x,
            patterns_y: self.patterns_y,
            patterns_z: self.patterns_z,
            frames: self.frames,
            sprites: self.sprites@,
        }
    }
}

/// One item record.
pub struct Item {
    pub id: u16,
    pub minimap_color: Option<u16>,
    pub ground: bool,
    pub stackable: bool,
    pub splash: bool,
    pub fluid_container: bool,
    pub draw_offset: Offset,
    pub height_offset: Offset,
    pub textures: Textures,
}

/// The mathematical value of an [`Item`].
pub struct ItemView {
    pub id: u16,
    pub flags: Flags,
    pub textures: TexturesView,
}

impl View for Item {
    type V = ItemView;

    open spec fn view(&self) -> ItemView {
        ItemView {
            id: self.id,
            flags: Flags {
                minimap_color: self.minimap_color,
                ground: self.ground,
                stackable: self.stackable,
                splash: self.splash,
                fluid_container: self.fluid_container,
                draw_offset: self.draw_offset,
                height_offset: self.height_offset,
            },
            textures: self.textures@,
        }
    }
}

/// A decoded item-metadata document: its signature and its items by id.
pub struct Document {
    pub signature: u32,
    pub items: HashMap<u16, Item>,
}

/// The mathematical value of a [`Document`].
pub struct DocumentView {
    pub signature: u32,
    pub items: Map<u16, ItemView>,
}

/// The items of a table, each by its mathematical value.
pub open spec fn item_views(items: Map<u16, Item>) -> Map<u16, ItemView> {
    Map::new(|id: u16| items.contains_key(id), |id: u16| items[id]@)
}

impl View for Document {
    type V = DocumentView;

    open spec fn view(&self) -> DocumentView {
        DocumentView { signature: self.signature, items: item_views(self.items@) }
    }
}

/// What one flag byte does: the payload it consumes from `s` and the change
/// it makes to the flags read so far. A code that names no flag, or a flag
/// without meaning here, consumes nothing and changes nothing.
pub open spec fn apply_flag(code: u8, s: Seq<u8>, f: Flags) -> Result<(Flags, Seq<u8>), Error> {
    match ItemFlag::of(code) {
        Some(ItemFlag::Stackable) => Ok((Flags { stackable: true, ..f }, s)),
        Some(ItemFlag::Splash) => Ok((Flags { splash: true, ..f }, s)),
        Some(ItemFlag::FluidContainer) => Ok((Flags { fluid_container: true, ..f }, s)),
        Some(ItemFlag::MinimapColor) => match take_u16(s) {
            Ok((color, rest)) => Ok((Flags { minimap_color: Some(color), ..f }, rest)),
            Err(e) => Err(e),
        },
        Some(ItemFlag::Height) => match take_u16(s) {
            Ok((h, rest)) => Ok((Flags { height_offset: Offset { x: h, y: h }, ..f }, rest)),
            Err(e) => Err(e),
        },
        Some(ItemFlag::Ground) => match take_u16(s) {
            Ok((_speed, rest)) => Ok((Flags { ground: true, ..f }, rest)),
            Err(e) => Err(e),
        },
        Some(ItemFlag::Writeable) | Some(ItemFlag::Readable) | Some(ItemFlag::FloorChange) => {
            match take_u16(s) {
                Ok((_ignored, rest)) => Ok((f, rest)),
                Err(e) => Err(e),
            }
        },
        Some(ItemFlag::LightInfo) => match take_u32(s) {
            Ok((_ignored, rest)) => Ok((f, rest)),
            Err(e) => Err(e),
        },
        Some(ItemFlag::DrawOffset) => match take_u16(s) {
            Ok((x, rest)) => match take_u16(rest) {
                Ok((y, rest2)) => Ok((Flags { draw_offset: Offset { x, y }, ..f }, rest2)),
                Err(e) => Err(e),
            },
            Err(e) => Err(e),
        },
        _ => Ok((f, s)),
    }
}

/// What the run of flag bytes at the head of `s` says, starting from the
/// flags `f`: every byte up to the closing sentinel is a flag code, followed
/// by that flag's payload.
pub open spec fn flags_from(s: Seq<u8>, f: Flags) -> Result<(Flags, Seq<u8>), Error>
    decreases s.len(),
{
    match take_u8(s) {
        Err(e) => Err(e),
        Ok((code, rest)) => if code == FLAGS_END {
            Ok((f, rest))
        } else {
            match apply_flag(code, rest, f) {
                Err(e) => Err(e),
                Ok((f2, rest2)) => flags_from(rest2, f2),
            }
        },
    }
}

/// The list of `count` sprite ids that `s` starts with, two bytes each.
pub open spec fn sprite_ids(s: Seq<u8>, count: int) -> Seq<u16> {
    Seq::new(count as nat, |i: int| le16(s[2 * i], s[2 * i + 1]) as u16)
}

/// The seven dimensions at the head of `s`. When the width or the height is
/// above one, one byte of padding follows them.
pub open spec fn dimensions(s: Seq<u8>) -> Result<(TexturesView, Seq<u8>), Error> {
    if s.len() < 2 {
        Err(Error::Truncated)
    } else {
        let pad: int = if s[0] > 1 || s[1] > 1 {
            1
        } else {
            0
        };
        if s.len() < 7 + pad {
            Err(Error::Truncated)
        } else {
            Ok(
                (
                    TexturesView {
                        width: s[0],
                        height: s[1],
                        layers: s[2 + pad],
                        patterns_x: s[3 + pad],
                        patterns_y: s[4 + pad],
                        patterns_z: s[5 + pad],
                        frames: s[6 + pad],
                        sprites: Seq::empty(),
                    },
                    s.skip(7 + pad),
                ),
            )
        }
    }
}

/// The texture shape and sprite ids at the head of `s`. A declared number of
/// sprite ids above what a `u16` holds, or above what the remaining bytes
/// hold, is `Malformed`.
pub open spec fn textures_from(s: Seq<u8>) -> Result<(TexturesView, Seq<u8>), Error> {
    match dimensions(s) {
        Err(e) => Err(e),
        Ok((shape, rest)) => {
            let count = shape.declared();
            if count > u16::MAX || rest.len() < 2 * count {
                Err(Error::Malformed)
            } else {
                Ok((TexturesView { sprites: sprite_ids(rest, count), ..shape }, rest.skip(2 * count)))
            }
        },
    }
}

/// The item record at the head of `s`, under the id `id`.
pub open spec fn item_from(s: Seq<u8>, id: u16) -> Result<(ItemView, Seq<u8>), Error> {
    match flags_from(s, Flags::blank()) {
        Err(e) => Err(e),
        Ok((flags, rest)) => match textures_from(rest) {
            Err(e) => Err(e),
            Ok((textures, rest2)) => Ok((ItemView { id, flags, textures }, rest2)),
        },
    }
}

/// The records `index..count` at the head of `s`, added to the table
/// `items`. Record `i` has the id `100 + i`; an id above what a `u16` holds
/// is `Malformed`.
pub open spec fn items_from(s: Seq<u8>, index: int, count: int, items: Map<u16, ItemView>) -> Result<
    Map<u16, ItemView>,
    Error,
>
    decreases count - index,
{
    if index >= count {
        Ok(items)
    } else if FIRST_ITEM_ID + index > u16::MAX {
        Err(Error::Malformed)
    } else {
        let id = (FIRST_ITEM_ID + index) as u16;
        match item_from(s, id) {
            Err(e) => Err(e),
            Ok((item, rest)) => items_from(rest, index + 1, count, items.insert(id, item)),
        }
    }
}

/// The header at the head of `s`: the signature and the number of items.
/// The three counts after it (outfits, effects, distance effects) are read
/// and dropped.
pub open spec fn header(s: Seq<u8>) -> Result<((u32, u16), Seq<u8>), Error> {
    match take_u32(s) {
        Err(e) => Err(e),
        Ok((signature, r1)) => match take_u16(r1) {
            Err(e) => Err(e),
            Ok((items, r2)) => match take_u16(r2) {
                Err(e) => Err(e),
                Ok((_outfits, r3)) => match take_u16(r3) {
                    Err(e) => Err(e),
                    Ok((_effects, r4)) => match take_u16(r4) {
                        Err(e) => Err(e),
                        Ok((_distances, r5)) => Ok(((signature, items), r5)),
                    },
                },
            },
        },
    }
}

/// The document that the bytes `s` spell: the header, then as many item
/// records as it announces. Bytes after the last record are ignored.
pub open spec fn document(s: Seq<u8>) -> Result<DocumentView, Error> {
    match header(s) {
        Err(e) => Err(e),
        Ok(((signature, count), rest)) => match items_from(rest, 0, count as int, Map::empty()) {
            Err(e) => Err(e),
            Ok(items) => Ok(DocumentView { signature, items }),
        },
    }
}

/// In every texture shape that decodes, the list of sprite ids is exactly as
/// long as the seven dimensions declare; and a shape that declares more
/// sprite ids than the bytes behind it hold is refused as `Malformed`.
pub proof fn lemma_sprite_ids_match_shape(s: Seq<u8>)
    ensures
        textures_from(s) matches Ok((t, _)) ==> t.wf(),
        dimensions(s) matches Ok((shape, rest)) ==> (rest.len() < 2 * shape.declared()
            ==> textures_from(s) == Err::<(TexturesView, Seq<u8>), Error>(Error::Malformed)),
{
}

/// Every table that the records `index..count` are added to keeps the
/// rule, if it had it: each item's list of sprite ids is as long as its
/// shape declares.
pub proof fn lemma_items_keep_shape(s: Seq<u8>, index: int, count: int, items: Map<u16, ItemView>)
    requires
        forall|id: u16| #[trigger] items.contains_key(id) ==> items[id].textures.wf(),
    ensures
        items_from(s, index, count, items) matches Ok(all) ==> forall|id: u16| #[trigger]
            all.contains_key(id) ==> all[id].textures.wf(),
    decreases count - index,
{
    if index < count && FIRST_ITEM_ID + index <= u16::MAX {
        let id = (FIRST_ITEM_ID + index) as u16;
        match item_from(s, id) {
            Ok((item, rest)) => {
                lemma_sprite_ids_match_shape(flags_from(s, Flags::blank()).unwrap().1);
                lemma_items_keep_shape(rest, index + 1, count, items.insert(id, item));
            },
            Err(_) => {},
        }
    }
}

/// In every document that decodes, each item's list of sprite ids is
/// exactly as long as the product of its seven dimensions.
pub proof fn lemma_document_shapes(s: Seq<u8>)
    ensures
        document(s) matches Ok(d) ==> forall|id: u16| #[trigger]
            d.items.contains_key(id) ==> d.items[id].textures.sprites.len()
                == d.items[id].textures.declared(),
{
    match header(s) {
        Ok(((_, count), rest)) => {
            lemma_items_keep_shape(rest, 0, count as int, Map::empty());
        },
        Err(_) => {},
    }
}

/// Reads the flag, if any, that follows a flag code: see [`apply_flag`].
fn read_flag(cursor: &mut ByteCursor, code: u8, flags: Flags) -> (r: Result<Flags, Error>)
    ensures
        outcome(apply_flag(code, old(cursor)@, flags), r, final(cursor)@),
{
    let mut f = flags;
    match ItemFlag::from_u8(code) {
        Some(ItemFlag::Stackable) => {
            f.stackable = true;
        },
        Some(ItemFlag::Splash) => {
            f.splash = true;
        },
        Some(ItemFlag::FluidContainer) => {
            f.fluid_container = true;
        },
        Some(ItemFlag::MinimapColor) => {
            let color = cursor.read_u16_le()?;
            f.minimap_color = Some(color);
        },
        Some(ItemFlag::Height) => {
            let h = cursor.read_u16_le()?;
            f.height_offset = Offset { x: h, y: h };
        },
        Some(ItemFlag::Ground) => {
            let _speed = cursor.read_u16_le()?;
            f.ground = true;
        },
        Some(ItemFlag::Writeable) | Some(ItemFlag::Readable) | Some(ItemFlag::FloorChange) => {
            let _ignored = cursor.read_u16_le()?;
        },
        Some(ItemFlag::LightInfo) => {
            let _ignored = cursor.read_u32_le()?;
        },
        Some(ItemFlag::DrawOffset) => {
            let x = cursor.read_u16_le()?;
            let y = cursor.read_u16_le()?;
            f.draw_offset = Offset { x, y };
        },
        _ => {},
    }
    Ok(f)
}

/// Reads an item's run of flags up to and including the closing sentinel.
fn read_flags(cursor: &mut ByteCursor) -> (r: Result<Flags, Error>)
    ensures
        outcome(flags_from(old(cursor)@, Flags::blank()), r, final(cursor)@),
{
    let mut flags = Flags::new();
    loop
        invariant
            flags_from(cursor@, flags) == flags_from(old(cursor)@, Flags::blank()),
        decreases cursor@.len(),
    {
        let code = cursor.read_u8()?;
        if code == FLAGS_END {
            return Ok(flags);
        }
        flags = read_flag(cursor, code, flags)?;
    }
}

/// Reads the seven dimensions of a texture shape: see [`dimensions`].
fn read_dimensions(cursor: &mut ByteCursor) -> (r: Result<Textures, Error>)
    ensures
        outcome_view(dimensions(old(cursor)@), r, final(cursor)@),
{
    let width = cursor.read_u8()?;
    let height = cursor.read_u8()?;
    if width > 1 || height > 1 {
        let _padding = cursor.read_u8()?;
    }
    let layers = cursor.read_u8()?;
    let patterns_x = cursor.read_u8()?;
    let patterns_y = cursor.read_u8()?;
    let patterns_z = cursor.read_u8()?;
    let frames = cursor.read_u8()?;
    proof {
        let pad: int = if width > 1 || height > 1 {
            1
        } else {
            0
        };
        assert(cursor@ =~= old(cursor)@.skip(7 + pad));
    }
    Ok(
        Textures {
            width,
            height,
            layers,
            patterns_x,
            patterns_y,
            patterns_z,
            frames,
            sprites: Vec::new(),
        },
    )
}

/// The number of sprite ids that a shape declares.
fn declared_count(t: &Textures) -> (n: u64)
    ensures
        n == t@.declared(),
{
    let a: u64 = t.width as u64;
    let b: u64 = t.height as u64;
    let c: u64 = t.layers as u64;
    let d: u64 = t.patterns_x as u64;
    let e: u64 = t.patterns_y as u64;
    let f: u64 = t.patterns_z as u64;
    let g: u64 = t.frames as u64;
    assert(a * b <= 255 * 255) by (nonlinear_arith)
        requires
            a <= 255,
            b <= 255,
    ;
    let ab: u64 = a * b;
    assert(ab * c <= 255 * 255 * 255) by (nonlinear_arith)
        requires
            ab <= 255 * 255,
            c <= 255,
    ;
    let abc: u64 = ab * c;
    assert(abc * d <= 255 * 255 * 255 * 255) by (nonlinear_arith)
        requires
            abc <= 255 * 255 * 255,
            d <= 255,
    ;
    let abcd: u64 = abc * d;
    assert(abcd * e <= 255 * 255 * 255 * 255 * 255) by (nonlinear_arith)
        requires
            abcd <= 255 * 255 * 255 * 255,
            e <= 255,
    ;
    let abcde: u64 = abcd * e;
    assert(abcde * f <= 255 * 255 * 255 * 255 * 255 * 255) by (nonlinear_arith)
        requires
            abcde <= 255 * 255 * 255 * 255 * 255,
            f <= 255,
    ;
    let abcdef: u64 = abcde * f;
    assert(abcdef * g <= 255 * 255 * 255 * 255 * 255 * 255 * 255) by (nonlinear_arith)
        requires
            abcdef <= 255 * 255 * 255 * 255 * 255 * 255,
            g <= 255,
    ;
    abcdef * g
}

impl Textures {
    /// Whether the list of sprite ids is as long as the shape declares.
    pub fn is_well_formed(&self) -> (b: bool)
        ensures
            b == self@.wf(),
    {
        declared_count(self) == self.sprites.len() as u64
    }
}

/// Reads a texture shape and its sprite ids: see [`textures_from`].
fn read_textures(cursor: &mut ByteCursor) -> (r: Result<Textures, Error>)
    ensures
        outcome_view(textures_from(old(cursor)@), r, final(cursor)@),
        r matches Ok(t) ==> t@.wf(),
{
    let mut textures = read_dimensions(cursor)?;
    let count = declared_count(&textures);
    if count > 65535 || (cursor.remaining() as u64) < 2 * count {
        return Err(Error::Malformed);
    }
    let ghost base = cursor@;
    let mut sprites: Vec<u16> = Vec::new();
    let mut i: u64 = 0;
    while i < count
        invariant
            i <= count <= 65535,
            2 * count <= base.len(),
            sprites@ == sprite_ids(base, i as int),
            cursor@ == base.skip(2 * i),
            textures_from(old(cursor)@) matches Ok((v, rest)) && v.sprites == sprite_ids(
                base,
                count as int,
            ) && rest == base.skip(2 * count),
        decreases count - i,
    {
        let id = cursor.read_u16_le()?;
        sprites.push(id);
        i = i + 1;
        assert(sprites@ =~= sprite_ids(base, i as int));
        assert(cursor@ =~= base.skip(2 * i));
    }
    textures.sprites = sprites;
    Ok(textures)
}

/// Reads one item record: see [`item_from`].
fn read_item(cursor: &mut ByteCursor, id: u16) -> (r: Result<Item, Error>)
    ensures
        outcome_view(item_from(old(cursor)@, id), r, final(cursor)@),
        r matches Ok(item) ==> item@.textures.wf(),
{
    let flags = read_flags(cursor)?;
    let textures = read_textures(cursor)?;
    Ok(
        Item {
            id,
            minimap_color: flags.minimap_color,
            ground: flags.ground,
            stackable: flags.stackable,
            splash: flags.splash,
            fluid_container: flags.fluid_container,
            draw_offset: flags.draw_offset,
            height_offset: flags.height_offset,
            textures,
        },
    )
}

/// Reads the header: see [`header`].
fn read_header(cursor: &mut ByteCursor) -> (r: Result<(u32, u16), Error>)
    ensures
        outcome(header(old(cursor)@), r, final(cursor)@),
{
    let signature = cursor.read_u32_le()?;
    let items = cursor.read_u16_le()?;
    let _outfits = cursor.read_u16_le()?;
    let _effects = cursor.read_u16_le()?;
    let _distances = cursor.read_u16_le()?;
    Ok((signature, items))
}

impl Document {
    /// Every item's list of sprite ids is as long as its shape declares.
    pub open spec fn wf(&self) -> bool {
        forall|id: u16| #[trigger] self@.items.contains_key(id) ==> self@.items[id].textures.wf()
    }
}

impl Parse<Document> for Vec<u8> {
    /// Decodes an item-metadata document. The result is the one that
    /// [`document`] defines; in every decoded item the number of sprite ids
    /// equals the product of the seven dimensions.
    fn parse(self) -> (r: Result<Document, Error>)
        ensures
            decoded::<Document>(document(self@), r),
            r matches Ok(d) ==> Document::wf(&d),
    {
        let ghost bytes = self@;
        let mut cursor = ByteCursor::new(self);
        let (signature, count) = read_header(&mut cursor)?;
        let ghost start = cursor@;
        let mut items: HashMap<u16, Item> = HashMap::new();
        let mut index: u32 = 0;
        assert(item_views(items@) =~= Map::<u16, ItemView>::empty());
        while index < count as u32
            invariant
                index <= count,
                bytes == self@,
                header(bytes) == Ok::<((u32, u16), Seq<u8>), Error>(((signature, count), start)),
                items_from(cursor@, index as int, count as int, item_views(items@)) == items_from(
                    start,
                    0,
                    count as int,
                    Map::empty(),
                ),
                forall|id: u16| #[trigger]
                    items@.contains_key(id) ==> items@[id]@.textures.wf(),
            decreases count - index,
        {
            if index > 65535 - FIRST_ITEM_ID as u32 {
                return Err(Error::Malformed);
            }
            let id: u16 = (FIRST_ITEM_ID as u32 + index) as u16;
            let item = read_item(&mut cursor, id)?;
            let ghost before = items@;
            items.insert(id, item);
            assert(item_views(items@) =~= item_views(before).insert(id, item@));
            index = index + 1;
        }
        Ok(Document { signature, items })
    }
}

} // verus!
