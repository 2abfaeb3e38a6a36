//! The map document: a node stream of tile areas, tiles and nested items,
//! read against the item index (for ids) and the item metadata (for what an
//! item's count byte means).
//!
//! The format is defined by functions on the bytes that are still to be
//! read; each gives what it read and the bytes after it. Where such a
//! function goes on behind a nested node, it first tests that the bytes
//! have become fewer. The test only shows that the definition ends: the
//! lemmas `lemma_item_moves_forward`, `lemma_tile_moves_forward` and
//! `lemma_area_moves_forward` prove that it never fails.

use vstd::prelude::*;
use super::cursor::{decoded, outcome, outcome_view, take_u32, ByteCursor};
use super::tree::{
    data_skip_string, data_u16, data_u32, data_u8, lemma_data_skip_moves_forward,
    lemma_skip_node_moves_forward, read_data_u16, read_data_u32, read_data_u8, read_token,
    skip_data_string, skip_node, skip_rest_of_node, token, Token,
};
use super::{dat, otb, Error, Parse};

verus! {

/// The node types of a map document.
#[derive(Debug, Clone, Copy, PartialEq, Eq, Structural)]
pub enum NodeType {
    Root,
    RootV1,
    MapData,
    ItemDef,
    TileArea,
    Tile,
    Item,
    TileSquare,
    TileRef,
    Spawns,
    SpawnArea,
    Monster,
    Towns,
    Town,
    HouseTile,
    Waypoints,
    Waypoint,
}

impl NodeType {
    /// The node type that a code byte stands for, if any.
    pub open spec fn of(code: u8) -> Option<NodeType> {
        match code {
            0x00 => Some(NodeType::Root),
            0x01 => Some(NodeType::RootV1),
            0x02 => Some(NodeType::MapData),
            0x03 => Some(NodeType::ItemDef),
            0x04 => Some(NodeType::TileArea),
            0x05 => Some(NodeType::Tile),
            0x06 => Some(NodeType::Item),
            0x07 => Some(NodeType::TileSquare),
            0x08 => Some(NodeType::TileRef),
            0x09 => Some(NodeType::Spawns),
            0x0A => Some(NodeType::SpawnArea),
            0x0B => Some(NodeType::Monster),
            0x0C => Some(NodeType::Towns),
            0x0D => Some(NodeType::Town),
            0x0E => Some(NodeType::HouseTile),
            0x0F => Some(NodeType::Waypoints),
            0x10 => Some(NodeType::Waypoint),
            _ => None,
        }
    }

    /// Decodes a node type; `None` for a code that names none.
    pub fn from_u8(code: u8) -> (kind: Option<NodeType>)
        ensures
            kind == NodeType::of(code),
    {
        match code {
            0x00 => Some(NodeType::Root),
            0x01 => Some(NodeType::RootV1),
            0x02 => Some(NodeType::MapData),
            0x03 => Some(NodeType::ItemDef),
            0x04 => Some(NodeType::TileArea),
            0x05 => Some(NodeType::Tile),
            0x06 => Some(NodeType::Item),
            0x07 => Some(NodeType::TileSquare),
            0x08 => Some(NodeType::TileRef),
            0x09 => Some(NodeType::Spawns),
            0x0A => Some(NodeType::SpawnArea),
            0x0B => Some(NodeType::Monster),
            0x0C => Some(NodeType::Towns),
            0x0D => Some(NodeType::Town),
            0x0E => Some(NodeType::HouseTile),
            0x0F => Some(NodeType::Waypoints),
            0x10 => Some(NodeType::Waypoint),
            _ => None,
        }
    }
}

/// The attribute codes of a map document.
#[derive(Debug, Clone, Copy, PartialEq, Eq, Structural)]
pub enum AttributeCode {
    Description,
    ExtFile,
    TileFlags,
    ActionId,
    UniqueId,
    Text,
    Desc,
    Destination,
    Item,
    DepotId,
    ExtSpawnFile,
    RuneCharges,
    ExtHouseFile,
    HouseDoorId,
    Count,
    Duration,
    DecayingState,
    WrittenDate,
    WrittenBy,
    SleeperGuid,
    SleepStart,
    Charges,
    AttributeMap,
}

impl AttributeCode {
    /// The attribute that a code byte stands for, if any.
    pub open spec fn of(code: u8) -> Option<AttributeCode> {
        match code {
            0x01 => Some(AttributeCode::Description),
            0x02 => Some(AttributeCode::ExtFile),
            0x03 => Some(AttributeCode::TileFlags),
            0x04 => Some(AttributeCode::ActionId),
            0x05 => Some(AttributeCode::UniqueId),
            0x06 => Some(AttributeCode::Text),
            0x07 => Some(AttributeCode::Desc),
            0x08 => Some(AttributeCode::Destination),
            0x09 => Some(AttributeCode::Item),
            0x0A => Some(AttributeCode::DepotId),
            0x0B => Some(AttributeCode::ExtSpawnFile),
            0x0C => Some(AttributeCode::RuneCharges),
            0x0D => Some(AttributeCode::ExtHouseFile),
            0x0E => Some(AttributeCode::HouseDoorId),
            0x0F => Some(AttributeCode::Count),
            0x10 => Some(AttributeCode::Duration),
            0x11 => Some(AttributeCode::DecayingState),
            0x12 => Some(AttributeCode::WrittenDate),
            0x13 => Some(AttributeCode::WrittenBy),
            0x14 => Some(AttributeCode::SleeperGuid),
            0x15 => Some(AttributeCode::SleepStart),
            0x16 => Some(AttributeCode::Charges),
            0x80 => Some(AttributeCode::AttributeMap),
            _ => None,
        }
    }

    /// Decodes an attribute code; `None` for a code that names none.
    pub fn from_u8(code: u8) -> (attribute: Option<AttributeCode>)
        ensures
            attribute == AttributeCode::of(code),
    {
        match code {
            0x01 => Some(AttributeCode::Description),
            0x02 => Some(AttributeCode::ExtFile),
            0x03 => Some(AttributeCode::TileFlags),
            0x04 => Some(AttributeCode::ActionId),
            0x05 => Some(AttributeCode::UniqueId),
            0x06 => Some(AttributeCode::Text),
            0x07 => Some(AttributeCode::Desc),
            0x08 => Some(AttributeCode::Destination),
            0x09 => Some(AttributeCode::Item),
            0x0A => Some(AttributeCode::DepotId),
            0x0B => Some(AttributeCode::ExtSpawnFile),
            0x0C => Some(AttributeCode::RuneCharges),
            0x0D => Some(AttributeCode::ExtHouseFile),
            0x0E => Some(AttributeCode::HouseDoorId),
            0x0F => Some(AttributeCode::Count),
            0x10 => Some(AttributeCode::Duration),
            0x11 => Some(AttributeCode::DecayingState),
            0x12 => Some(AttributeCode::WrittenDate),
            0x13 => Some(AttributeCode::WrittenBy),
            0x14 => Some(AttributeCode::SleeperGuid),
            0x15 => Some(AttributeCode::SleepStart),
            0x16 => Some(AttributeCode::Charges),
            0x80 => Some(AttributeCode::AttributeMap),
            _ => None,
        }
    }
}

/// One attribute of a thing.
#[derive(Debug)]
pub enum Attribute {
    /// The client id of the item.
    Item(u16),
    /// How many of a stackable item.
    Count(u8),
    /// The fluid in a fluid container or a splash.
    Fluid(u8),
    /// The things inside a container.
    Container(Vec<Thing>),
}

/// One item on a tile or inside a container.
#[derive(Debug)]
pub struct Thing {
    pub attributes: Vec<Attribute>,
}

/// The mathematical value of an [`Attribute`].
pub enum AttributeView {
    Item(u16),
    Count(u8),
    Fluid(u8),
    Container(Seq<ThingView>),
}

/// The mathematical value of a [`Thing`].
pub struct ThingView {
    pub attributes: Seq<AttributeView>,
}

/// The value of a thing: the values of its attributes, in order.
pub open spec fn thing_view(thing: Thing) -> ThingView
    decreases thing,
{
    ThingView {
        attributes: Seq::new(
            thing.attributes@.len(),
            |i: int|
                if 0 <= i < thing.attributes@.len() {
                    attribute_view(thing.attributes@[i])
                } else {
                    arbitrary()
                },
        ),
    }
}

/// The value of an attribute.
pub open spec fn attribute_view(attribute: Attribute) -> AttributeView
    decreases attribute,
{
    match attribute {
        Attribute::Item(id) => AttributeView::Item(id),
        Attribute::Count(n) => AttributeView::Count(n),
        Attribute::Fluid(n) => AttributeView::Fluid(n),
        Attribute::Container(things) => AttributeView::Container(
            Seq::new(
                things@.len(),
                |i: int|
                    if 0 <= i < things@.len() {
                        thing_view(things@[i])
                    } else {
                        arbitrary()
                    },
            ),
        ),
    }
}

/// The values of a list of things.
pub open spec fn thing_views(things: Seq<Thing>) -> Seq<ThingView> {
    Seq::new(things.len(), |i: int| thing_view(things[i]))
}

/// The values of a list of attributes.
pub open spec fn attribute_views(attributes: Seq<Attribute>) -> Seq<AttributeView> {
    Seq::new(attributes.len(), |i: int| attribute_view(attributes[i]))
}

impl View for Thing {
    type V = ThingView;

    open spec fn view(&self) -> ThingView {
        thing_view(*self)
    }
}

impl View for Attribute {
    type V = AttributeView;

    open spec fn view(&self) -> AttributeView {
        attribute_view(*self)
    }
}

/// A tile position inside a map document.
#[derive(Debug, Clone, Copy, PartialEq, Eq, Structural, Hash)]
pub struct Position {
    pub x: u16,
    pub y: u16,
    pub z: u8,
}

/// One tile of the map: where it is and what lies on it. If the tile has a
/// ground item, that item comes first.
#[derive(Debug)]
pub struct Tile {
    pub position: Position,
    pub things: Vec<Thing>,
}

/// The mathematical value of a [`Tile`].
pub struct TileView {
    pub position: Position,
    pub things: Seq<ThingView>,
}

impl View for Tile {
    type V = TileView;

    open spec fn view(&self) -> TileView {
        TileView { position: self.position, things: thing_views(self.things@) }
    }
}

/// The values of a list of tiles.
pub open spec fn tile_views(tiles: Seq<Tile>) -> Seq<TileView> {
    Seq::new(tiles.len(), |i: int| tiles[i]@)
}

/// The tiles of a map and its declared size.
pub struct TileMap {
    pub width: u32,
    pub height: u32,
    pub tiles: Vec<Tile>,
}

/// The mathematical value of a [`TileMap`].
pub struct TileMapView {
    pub width: u32,
    pub height: u32,
    pub tiles: Seq<TileView>,
}

impl View for TileMap {
    type V = TileMapView;

    open spec fn view(&self) -> TileMapView {
        TileMapView { width: self.width, height: self.height, tiles: tile_views(self.tiles@) }
    }
}

/// A decoded map document.
pub struct Document {
    pub map: TileMap,
}

impl View for Document {
    type V = TileMapView;

    open spec fn view(&self) -> TileMapView {
        self.map@
    }
}

/// What the map is read against: the item metadata, the item index, and
/// the format version that the map's root declares.
pub struct Tables {
    pub dat: dat::DocumentView,
    pub otb: otb::DocumentView,
    pub version: u32,
}

/// What an item node has said so far.
pub struct ItemState {
    pub item_id: u16,
    pub count: Option<u8>,
    pub fluid: Option<u8>,
    pub children: Seq<ThingView>,
    pub attributes: Seq<AttributeView>,
}

impl ItemState {
    /// The state of an item node right after its id.
    pub open spec fn new(item_id: u16) -> ItemState {
        ItemState {
            item_id,
            count: None,
            fluid: None,
            children: Seq::empty(),
            attributes: Seq::empty(),
        }
    }

    /// The thing that a finished item node stands for: the attributes that
    /// its records gave, then its id, its count and its fluid if it has
    /// them, and its children if it has any.
    pub open spec fn finish(self) -> ThingView {
        let a = self.attributes.push(AttributeView::Item(self.item_id));
        let b = match self.count {
            Some(n) => a.push(AttributeView::Count(n)),
            None => a,
        };
        let c = match self.fluid {
            Some(n) => b.push(AttributeView::Fluid(n)),
            None => b,
        };
        let d = if self.children.len() > 0 {
            c.push(AttributeView::Container(self.children))
        } else {
            c
        };
        ThingView { attributes: d }
    }
}

impl Tables {
    /// What a count byte means for the item `item_id`: a count if the item
    /// is stackable, else a fluid if it is a splash or a fluid container,
    /// else nothing.
    pub open spec fn counted(self, item_id: u16, value: u8) -> Option<AttributeView> {
        if self.dat.items.contains_key(item_id) {
            let flags = self.dat.items[item_id].flags;
            if flags.stackable {
                Some(AttributeView::Count(value))
            } else if flags.splash || flags.fluid_container {
                Some(AttributeView::Fluid(value))
            } else {
                None
            }
        } else {
            None
        }
    }

    /// Whether the item metadata marks the item as stackable.
    pub open spec fn stackable(self, item_id: u16) -> bool {
        self.dat.items.contains_key(item_id) && self.dat.items[item_id].flags.stackable
    }

    /// Whether the item metadata marks the item as a splash or a fluid
    /// container.
    pub open spec fn holds_fluid(self, item_id: u16) -> bool {
        self.dat.items.contains_key(item_id) && (self.dat.items[item_id].flags.splash
            || self.dat.items[item_id].flags.fluid_container)
    }
}

/// The client id behind the server id at the head of `s`. A server id that
/// the item index does not hold is an `UnresolvedReference` with that id
/// and the position of the tile being read.
pub open spec fn item_id(s: Seq<u8>, t: Tables, position: Position) -> Result<(u16, Seq<u8>), Error> {
    match data_u16(s) {
        Err(e) => Err(e),
        Ok((server_id, rest)) => if t.otb.items.contains_key(server_id) {
            Ok((t.otb.items[server_id].client_id(), rest))
        } else {
            Err(Error::UnresolvedReference { id: server_id, position })
        },
    }
}

/// What one attribute record inside an item node consumes and gives. Only
/// a count byte can give an attribute; the others are passed over, and a
/// code without a known payload consumes nothing.
pub open spec fn item_attribute(code: u8, s: Seq<u8>, t: Tables, id: u16) -> Result<
    (Option<AttributeView>, Seq<u8>),
    Error,
> {
    match AttributeCode::of(code) {
        Some(AttributeCode::ActionId) | Some(AttributeCode::UniqueId) | Some(
            AttributeCode::DepotId,
        ) | Some(AttributeCode::Charges) => match data_u16(s) {
            Err(e) => Err(e),
            Ok((_, rest)) => Ok((None, rest)),
        },
        Some(AttributeCode::Text) | Some(AttributeCode::Desc) => match data_skip_string(s) {
            Err(e) => Err(e),
            Ok(rest) => Ok((None, rest)),
        },
        Some(AttributeCode::Destination) => match data_u16(s) {
            Err(e) => Err(e),
            Ok((_, r1)) => match data_u16(r1) {
                Err(e) => Err(e),
                Ok((_, r2)) => match data_u8(r2) {
                    Err(e) => Err(e),
                    Ok((_, r3)) => Ok((None, r3)),
                },
            },
        },
        Some(AttributeCode::RuneCharges) | Some(AttributeCode::HouseDoorId) => match data_u8(s) {
            Err(e) => Err(e),
            Ok((_, rest)) => Ok((None, rest)),
        },
        Some(AttributeCode::Count) => match data_u8(s) {
            Err(e) => Err(e),
            Ok((value, rest)) => Ok((t.counted(id, value), rest)),
        },
        _ => Ok((None, s)),
    }
}

/// What an item attribute inside an item node does: it gives the node a new
/// id, and in a map of version 1 a count byte follows if that item is
/// stackable and a fluid byte if it is a splash or a fluid container.
/// Gives the new id, count and fluid of the node.
pub open spec fn renamed(
    s: Seq<u8>,
    t: Tables,
    position: Position,
    count: Option<u8>,
    fluid: Option<u8>,
) -> Result<((u16, Option<u8>, Option<u8>), Seq<u8>), Error> {
    match item_id(s, t, position) {
        Err(e) => Err(e),
        Ok((id, r1)) => if t.version != 1 {
            Ok(((id, count, fluid), r1))
        } else {
            let counted: Result<(Option<u8>, Seq<u8>), Error> = if t.stackable(id) {
                match data_u8(r1) {
                    Err(e) => Err(e),
                    Ok((n, r2)) => Ok((Some(n), r2)),
                }
            } else {
                Ok((count, r1))
            };
            match counted {
                Err(e) => Err(e),
                Ok((count2, r2)) => if t.holds_fluid(id) {
                    match data_u8(r2) {
                        Err(e) => Err(e),
                        Ok((n, r3)) => Ok(((id, count2, Some(n)), r3)),
                    }
                } else {
                    Ok(((id, count2, fluid), r2))
                },
            }
        },
    }
}

/// The item node whose start marker and type byte stand just before `s`:
/// the server id of the item, then the body of the node.
pub open spec fn item_node(s: Seq<u8>, t: Tables, position: Position) -> Result<
    (ThingView, Seq<u8>),
    Error,
>
    decreases s.len(), 1int,
{
    match item_id(s, t, position) {
        Err(e) => Err(e),
        Ok((id, rest)) => if rest.len() < s.len() {
            item_body(rest, t, position, ItemState::new(id))
        } else {
            Err(Error::Malformed)
        },
    }
}

/// The rest of an item node that has said `st` so far, up to its end
/// marker. A nested item node is a child; a nested node of another type is
/// passed over; an item attribute renames the item; any other data byte is
/// an attribute code.
pub open spec fn item_body(s: Seq<u8>, t: Tables, position: Position, st: ItemState) -> Result<
    (ThingView, Seq<u8>),
    Error,
>
    decreases s.len(), 0int,
{
    match token(s) {
        Err(e) => Err(e),
        Ok((Token::End, rest)) => Ok((st.finish(), rest)),
        Ok((Token::Start, r1)) => match data_u8(r1) {
            Err(e) => Err(e),
            Ok((kind, r2)) => if NodeType::of(kind) == Some(NodeType::Item) {
                match item_node(r2, t, position) {
                    Err(e) => Err(e),
                    Ok((child, r3)) => if r3.len() < s.len() {
                        item_body(
                            r3,
                            t,
                            position,
                            ItemState { children: st.children.push(child), ..st },
                        )
                    } else {
                        Err(Error::Malformed)
                    },
                }
            } else {
                match skip_node(r2, 0) {
                    Err(e) => Err(e),
                    Ok(r3) => if r3.len() < s.len() {
                        item_body(r3, t, position, st)
                    } else {
                        Err(Error::Malformed)
                    },
                }
            },
        },
        Ok((Token::Data(code), r1)) => if AttributeCode::of(code) == Some(AttributeCode::Item) {
            match renamed(r1, t, position, st.count, st.fluid) {
                Err(e) => Err(e),
                Ok(((id, count, fluid), r2)) => if r2.len() < s.len() {
                    item_body(r2, t, position, ItemState { item_id: id, count, fluid, ..st })
                } else {
                    Err(Error::Malformed)
                },
            }
        } else {
            match item_attribute(code, r1, t, st.item_id) {
                Err(e) => Err(e),
                Ok((attribute, r2)) => if r2.len() < s.len() {
                    item_body(
                        r2,
                        t,
                        position,
                        match attribute {
                            Some(a) => ItemState { attributes: st.attributes.push(a), ..st },
                            None => st,
                        },
                    )
                } else {
                    Err(Error::Malformed)
                },
            }
        },
    }
}

/// The thing that a ground item with the client id `id` is.
pub open spec fn ground_thing(id: u16) -> ThingView {
    ThingView { attributes: seq![AttributeView::Item(id)] }
}

/// The rest of a tile node, up to its end marker. A tile-flags attribute
/// is passed over with its `u32`; an item attribute names the ground item,
/// the last one winning; any other data byte is passed over; a nested item
/// node is a thing on the tile; a nested node of another type is passed
/// over. In the finished tile the ground item, if any, comes first.
pub open spec fn tile_body(
    s: Seq<u8>,
    t: Tables,
    position: Position,
    ground: Option<ThingView>,
    things: Seq<ThingView>,
) -> Result<(TileView, Seq<u8>), Error>
    decreases s.len(),
{
    match token(s) {
        Err(e) => Err(e),
        Ok((Token::End, rest)) => Ok(
            (
                TileView {
                    position,
                    things: match ground {
                        Some(g) => seq![g] + things,
                        None => things,
                    },
                },
                rest,
            ),
        ),
        Ok((Token::Start, r1)) => match data_u8(r1) {
            Err(e) => Err(e),
            Ok((kind, r2)) => if NodeType::of(kind) == Some(NodeType::Item) {
                match item_node(r2, t, position) {
                    Err(e) => Err(e),
                    Ok((thing, r3)) => if r3.len() < s.len() {
                        tile_body(r3, t, position, ground, things.push(thing))
                    } else {
                        Err(Error::Malformed)
                    },
                }
            } else {
                match skip_node(r2, 0) {
                    Err(e) => Err(e),
                    Ok(r3) => if r3.len() < s.len() {
                        tile_body(r3, t, position, ground, things)
                    } else {
                        Err(Error::Malformed)
                    },
                }
            },
        },
        Ok((Token::Data(code), r1)) => match AttributeCode::of(code) {
            Some(AttributeCode::TileFlags) => match data_u32(r1) {
                Err(e) => Err(e),
                Ok((_, r2)) => tile_body(r2, t, position, ground, things),
            },
            Some(AttributeCode::Item) => match item_id(r1, t, position) {
                Err(e) => Err(e),
                Ok((id, r2)) => tile_body(r2, t, position, Some(ground_thing(id)), things),
            },
            _ => tile_body(r1, t, position, ground, things),
        },
    }
}

/// The tile node whose start marker and type byte stand just before `s`,
/// inside the area with the origin `origin`: the tile's offset from the
/// origin, one byte for each axis; for a house tile a `u32` house id; then
/// the body. A position outside the `u16` range is `Malformed`.
pub open spec fn tile_node(s: Seq<u8>, t: Tables, origin: Position, house: bool) -> Result<
    (TileView, Seq<u8>),
    Error,
> {
    match data_u8(s) {
        Err(e) => Err(e),
        Ok((dx, r1)) => match data_u8(r1) {
            Err(e) => Err(e),
            Ok((dy, r2)) => {
                let after: Result<Seq<u8>, Error> = if house {
                    match data_u32(r2) {
                        Err(e) => Err(e),
                        Ok((_, r3)) => Ok(r3),
                    }
                } else {
                    Ok(r2)
                };
                match after {
                    Err(e) => Err(e),
                    Ok(r3) => if origin.x + dx > u16::MAX || origin.y + dy > u16::MAX {
                        Err(Error::Malformed)
                    } else {
                        tile_body(
                            r3,
                            t,
                            Position {
                                x: (origin.x + dx) as u16,
                                y: (origin.y + dy) as u16,
                                z: origin.z,
                            },
                            None,
                            Seq::empty(),
                        )
                    },
                }
            },
        },
    }
}

/// The rest of a tile-area node, up to its end marker, added to the tiles
/// read so far. A nested tile or house-tile node is a tile; a nested node
/// of another type and any data byte are passed over.
pub open spec fn area_body(s: Seq<u8>, t: Tables, origin: Position, tiles: Seq<TileView>) -> Result<
    (Seq<TileView>, Seq<u8>),
    Error,
>
    decreases s.len(),
{
    match token(s) {
        Err(e) => Err(e),
        Ok((Token::End, rest)) => Ok((tiles, rest)),
        Ok((Token::Data(_), r1)) => area_body(r1, t, origin, tiles),
        Ok((Token::Start, r1)) => match data_u8(r1) {
            Err(e) => Err(e),
            Ok((kind, r2)) => if NodeType::of(kind) == Some(NodeType::Tile) || NodeType::of(kind)
                == Some(NodeType::HouseTile) {
                match tile_node(r2, t, origin, NodeType::of(kind) == Some(NodeType::HouseTile)) {
                    Err(e) => Err(e),
                    Ok((tile, r3)) => if r3.len() < s.len() {
                        area_body(r3, t, origin, tiles.push(tile))
                    } else {
                        Err(Error::Malformed)
                    },
                }
            } else {
                match skip_node(r2, 0) {
                    Err(e) => Err(e),
                    Ok(r3) => if r3.len() < s.len() {
                        area_body(r3, t, origin, tiles)
                    } else {
                        Err(Error::Malformed)
                    },
                }
            },
        },
    }
}

/// The tile-area node whose start marker and type byte stand just before
/// `s`: the origin of the area (`u16`, `u16`, `u8`), then its body.
pub open spec fn area_node(s: Seq<u8>, t: Tables, tiles: Seq<TileView>) -> Result<
    (Seq<TileView>, Seq<u8>),
    Error,
> {
    match data_u16(s) {
        Err(e) => Err(e),
        Ok((x, r1)) => match data_u16(r1) {
            Err(e) => Err(e),
            Ok((y, r2)) => match data_u8(r2) {
                Err(e) => Err(e),
                Ok((z, r3)) => area_body(r3, t, Position { x, y, z }, tiles),
            },
        },
    }
}

/// The rest of the map-data node, up to its end marker, added to the tiles
/// read so far. A description or the name of an external file is passed
/// over with its string; any other data byte is passed over; a nested
/// tile-area node gives tiles; a nested node of another type is passed
/// over.
pub open spec fn map_body(s: Seq<u8>, t: Tables, tiles: Seq<TileView>) -> Result<
    Seq<TileView>,
    Error,
>
    decreases s.len(),
{
    match token(s) {
        Err(e) => Err(e),
        Ok((Token::End, _)) => Ok(tiles),
        Ok((Token::Data(code), r1)) => match AttributeCode::of(code) {
            Some(AttributeCode::Description) | Some(AttributeCode::ExtFile) | Some(
                AttributeCode::ExtSpawnFile,
            ) | Some(AttributeCode::ExtHouseFile) => match data_skip_string(r1) {
                Err(e) => Err(e),
                Ok(r2) => if r2.len() < s.len() {
                    map_body(r2, t, tiles)
                } else {
                    Err(Error::Malformed)
                },
            },
            _ => map_body(r1, t, tiles),
        },
        Ok((Token::Start, r1)) => match data_u8(r1) {
            Err(e) => Err(e),
            Ok((kind, r2)) => if NodeType::of(kind) == Some(NodeType::TileArea) {
                match area_node(r2, t, tiles) {
                    Err(e) => Err(e),
                    Ok((tiles2, r3)) => if r3.len() < s.len() {
                        map_body(r3, t, tiles2)
                    } else {
                        Err(Error::Malformed)
                    },
                }
            } else {
                match skip_node(r2, 0) {
                    Err(e) => Err(e),
                    Ok(r3) => if r3.len() < s.len() {
                        map_body(r3, t, tiles)
                    } else {
                        Err(Error::Malformed)
                    },
                }
            },
        },
    }
}

/// The node of the type `kind` that must open at the head of `s`: a start
/// marker and the type byte. Anything else there is `Malformed`.
pub open spec fn opening(s: Seq<u8>, kind: NodeType) -> Result<Seq<u8>, Error> {
    match token(s) {
        Err(e) => Err(e),
        Ok((Token::Start, r1)) => match data_u8(r1) {
            Err(e) => Err(e),
            Ok((code, r2)) => if NodeType::of(code) == Some(kind) {
                Ok(r2)
            } else {
                Err(Error::Malformed)
            },
        },
        Ok(_) => Err(Error::Malformed),
    }
}

/// What the root node says before its child: the format version, the width
/// and the height of the map. The two item versions after them are read
/// and dropped.
pub open spec fn root_header(s: Seq<u8>) -> Result<((u32, u16, u16), Seq<u8>), Error> {
    match data_u32(s) {
        Err(e) => Err(e),
        Ok((version, r1)) => match data_u16(r1) {
            Err(e) => Err(e),
            Ok((width, r2)) => match data_u16(r2) {
                Err(e) => Err(e),
                Ok((height, r3)) => match data_u32(r3) {
                    Err(e) => Err(e),
                    Ok((_, r4)) => match data_u32(r4) {
                        Err(e) => Err(e),
                        Ok((_, r5)) => Ok(((version, width, height), r5)),
                    },
                },
            },
        },
    }
}

/// The map that the bytes `s` spell, read against the item metadata `dat`
/// and the item index `otb`: a `u32` signature, the root node with its
/// header, and inside it the map-data node with the tiles. What follows the
/// map-data node is ignored.
pub open spec fn document(s: Seq<u8>, dat: dat::DocumentView, otb: otb::DocumentView) -> Result<
    TileMapView,
    Error,
> {
    match take_u32(s) {
        Err(e) => Err(e),
        Ok((_signature, r1)) => match opening(r1, NodeType::Root) {
            Err(e) => Err(e),
            Ok(r2) => match root_header(r2) {
                Err(e) => Err(e),
                Ok(((version, width, height), r3)) => match opening(r3, NodeType::MapData) {
                    Err(e) => Err(e),
                    Ok(r4) => match map_body(r4, Tables { dat, otb, version }, Seq::empty()) {
                        Err(e) => Err(e),
                        Ok(tiles) => Ok(
                            TileMapView { width: width as u32, height: height as u32, tiles },
                        ),
                    },
                },
            },
        },
    }
}

/// Reading the payload of an attribute record never moves backward.
pub proof fn lemma_item_attribute_moves_forward(code: u8, s: Seq<u8>, t: Tables, id: u16)
    ensures
        item_attribute(code, s, t, id) matches Ok((_, rest)) ==> rest.len() <= s.len(),
{
    match data_u16(s) {
        Ok((n, rest)) => lemma_data_skip_moves_forward(rest, n as nat),
        Err(_) => {},
    }
}

/// Reading an item node, or the rest of one, moves forward: the tests of
/// the lengths in [`item_node`] and [`item_body`] never fail.
pub proof fn lemma_item_moves_forward(s: Seq<u8>, t: Tables, position: Position, st: ItemState)
    ensures
        item_node(s, t, position) matches Ok((_, rest)) ==> rest.len() < s.len(),
        item_body(s, t, position, st) matches Ok((_, rest)) ==> rest.len() < s.len(),
    decreases s.len(),
{
    match item_id(s, t, position) {
        Ok((id, rest)) => {
            lemma_item_moves_forward(rest, t, position, ItemState::new(id));
        },
        Err(_) => {},
    }
    match token(s) {
        Err(_) => {},
        Ok((Token::End, _)) => {},
        Ok((Token::Start, r1)) => match data_u8(r1) {
            Err(_) => {},
            Ok((kind, r2)) => if NodeType::of(kind) == Some(NodeType::Item) {
                lemma_item_moves_forward(r2, t, position, st);
                match item_node(r2, t, position) {
                    Err(_) => {},
                    Ok((child, r3)) => {
                        lemma_item_moves_forward(
                            r3,
                            t,
                            position,
                            ItemState { children: st.children.push(child), ..st },
                        );
                    },
                }
            } else {
                lemma_skip_node_moves_forward(r2, 0);
                match skip_node(r2, 0) {
                    Err(_) => {},
                    Ok(r3) => {
                        lemma_item_moves_forward(r3, t, position, st);
                    },
                }
            },
        },
        Ok((Token::Data(code), r1)) => if AttributeCode::of(code) == Some(AttributeCode::Item) {
            match renamed(r1, t, position, st.count, st.fluid) {
                Err(_) => {},
                Ok(((id, count, fluid), r2)) => {
                    lemma_item_moves_forward(
                        r2,
                        t,
                        position,
                        ItemState { item_id: id, count, fluid, ..st },
                    );
                },
            }
        } else {
            lemma_item_attribute_moves_forward(code, r1, t, st.item_id);
            match item_attribute(code, r1, t, st.item_id) {
                Err(_) => {},
                Ok((attribute, r2)) => {
                    lemma_item_moves_forward(
                        r2,
                        t,
                        position,
                        match attribute {
                            Some(a) => ItemState { attributes: st.attributes.push(a), ..st },
                            None => st,
                        },
                    );
                },
            }
        },
    }
}

/// Reading the rest of a tile node moves forward: the tests of the
/// lengths in [`tile_body`] never fail.
pub proof fn lemma_tile_moves_forward(
    s: Seq<u8>,
    t: Tables,
    position: Position,
    ground: Option<ThingView>,
    things: Seq<ThingView>,
)
    ensures
        tile_body(s, t, position, ground, things) matches Ok((_, rest)) ==> rest.len() < s.len(),
    decreases s.len(),
{
    match token(s) {
        Err(_) => {},
        Ok((Token::End, _)) => {},
        Ok((Token::Start, r1)) => match data_u8(r1) {
            Err(_) => {},
            Ok((kind, r2)) => if NodeType::of(kind) == Some(NodeType::Item) {
                lemma_item_moves_forward(r2, t, position, ItemState::new(0));
                match item_node(r2, t, position) {
                    Err(_) => {},
                    Ok((thing, r3)) => {
                        lemma_tile_moves_forward(r3, t, position, ground, things.push(thing));
                    },
                }
            } else {
                lemma_skip_node_moves_forward(r2, 0);
                match skip_node(r2, 0) {
                    Err(_) => {},
                    Ok(r3) => {
                        lemma_tile_moves_forward(r3, t, position, ground, things);
                    },
                }
            },
        },
        Ok((Token::Data(code), r1)) => match AttributeCode::of(code) {
            Some(AttributeCode::TileFlags) => match data_u32(r1) {
                Err(_) => {},
                Ok((_, r2)) => {
                    lemma_tile_moves_forward(r2, t, position, ground, things);
                },
            },
            Some(AttributeCode::Item) => match item_id(r1, t, position) {
                Err(_) => {},
                Ok((id, r2)) => {
                    lemma_tile_moves_forward(r2, t, position, Some(ground_thing(id)), things);
                },
            },
            _ => {
                lemma_tile_moves_forward(r1, t, position, ground, things);
            },
        },
    }
}

/// Reading the rest of a tile-area node moves forward: the tests of the
/// lengths in [`area_body`] never fail.
pub proof fn lemma_area_moves_forward(
    s: Seq<u8>,
    t: Tables,
    origin: Position,
    tiles: Seq<TileView>,
)
    ensures
        area_body(s, t, origin, tiles) matches Ok((_, rest)) ==> rest.len() < s.len(),
    decreases s.len(),
{
    match token(s) {
        Err(_) => {},
        Ok((Token::End, _)) => {},
        Ok((Token::Data(_), r1)) => {
            lemma_area_moves_forward(r1, t, origin, tiles);
        },
        Ok((Token::Start, r1)) => match data_u8(r1) {
            Err(_) => {},
            Ok((kind, r2)) => if NodeType::of(kind) == Some(NodeType::Tile) || NodeType::of(kind)
                == Some(NodeType::HouseTile) {
                let house = NodeType::of(kind) == Some(NodeType::HouseTile);
                match tile_node(r2, t, origin, house) {
                    Err(_) => {},
                    Ok((tile, r3)) => {
                        let (dx, a) = data_u8(r2).unwrap();
                        let (dy, b) = data_u8(a).unwrap();
                        let c = if house {
                            data_u32(b).unwrap().1
                        } else {
                            b
                        };
                        let position = Position {
                            x: (origin.x + dx) as u16,
                            y: (origin.y + dy) as u16,
                            z: origin.z,
                        };
                        lemma_tile_moves_forward(c, t, position, None, Seq::empty());
                        lemma_area_moves_forward(r3, t, origin, tiles.push(tile));
                    },
                }
            } else {
                lemma_skip_node_moves_forward(r2, 0);
                match skip_node(r2, 0) {
                    Err(_) => {},
                    Ok(r3) => {
                        lemma_area_moves_forward(r3, t, origin, tiles);
                    },
                }
            },
        },
    }
}

/// A thing is a ground item: its one attribute is the item's id.
pub open spec fn is_ground(thing: ThingView) -> bool {
    thing.attributes.len() == 1 && thing.attributes[0] is Item
}

/// An item attribute makes the ground that was named before it
/// irrelevant: where the body of a tile goes on with an item attribute,
/// the tile is the same whatever ground was named so far.
pub proof fn lemma_ground_replaced(
    s: Seq<u8>,
    t: Tables,
    position: Position,
    first: Option<ThingView>,
    second: Option<ThingView>,
    things: Seq<ThingView>,
)
    requires
        token(s) matches Ok((Token::Data(code), _)) && AttributeCode::of(code) == Some(
            AttributeCode::Item,
        ),
    ensures
        tile_body(s, t, position, first, things) == tile_body(s, t, position, second, things),
{
}

/// The ground that an item attribute at the head of `s` names, and the
/// bytes after the attribute; `None` where `s` does not start with an item
/// attribute that resolves.
pub open spec fn named_ground(s: Seq<u8>, t: Tables, position: Position) -> Option<(u16, Seq<u8>)> {
    match token(s) {
        Ok((Token::Data(code), r1)) => if AttributeCode::of(code) == Some(AttributeCode::Item) {
            match item_id(r1, t, position) {
                Ok((id, r2)) => Some((id, r2)),
                Err(_) => None,
            }
        } else {
            None
        },
        _ => None,
    }
}

/// A tile whose body names two grounds, one after the other, and then
/// ends keeps only the second, as its first thing.
pub proof fn lemma_last_ground_wins(
    s: Seq<u8>,
    t: Tables,
    position: Position,
    things: Seq<ThingView>,
)
    requires
        named_ground(s, t, position) is Some,
        named_ground(named_ground(s, t, position).unwrap().1, t, position) is Some,
        token(named_ground(named_ground(s, t, position).unwrap().1, t, position).unwrap().1)
            matches Ok((Token::End, _)),
    ensures
        ({
            let (_, r2) = named_ground(s, t, position).unwrap();
            let (second, r4) = named_ground(r2, t, position).unwrap();
            tile_body(s, t, position, None, things) == Ok::<(TileView, Seq<u8>), Error>(
                (
                    TileView { position, things: seq![ground_thing(second)] + things },
                    token(r4).unwrap().1,
                ),
            )
        }),
{
    let (first, r2) = named_ground(s, t, position).unwrap();
    let (second, r4) = named_ground(r2, t, position).unwrap();
    assert(tile_body(s, t, position, None, things) == tile_body(
        r2,
        t,
        position,
        Some(ground_thing(first)),
        things,
    ));
    assert(tile_body(r2, t, position, Some(ground_thing(first)), things) == tile_body(
        r4,
        t,
        position,
        Some(ground_thing(second)),
        things,
    ));
}

/// Once a ground is named, the finished tile has a ground item as its
/// first thing, whatever else the body of the tile holds.
pub proof fn lemma_ground_comes_first(
    s: Seq<u8>,
    t: Tables,
    position: Position,
    ground: Option<ThingView>,
    things: Seq<ThingView>,
)
    requires
        ground matches Some(g) && is_ground(g),
    ensures
        tile_body(s, t, position, ground, things) matches Ok((tile, _)) ==> tile.things.len() >= 1
            && is_ground(tile.things[0]),
    decreases s.len(),
{
    match token(s) {
        Err(_) => {},
        Ok((Token::End, _)) => {},
        Ok((Token::Start, r1)) => match data_u8(r1) {
            Err(_) => {},
            Ok((kind, r2)) => if NodeType::of(kind) == Some(NodeType::Item) {
                match item_node(r2, t, position) {
                    Err(_) => {},
                    Ok((thing, r3)) => if r3.len() < s.len() {
                        lemma_ground_comes_first(r3, t, position, ground, things.push(thing));
                    },
                }
            } else {
                match skip_node(r2, 0) {
                    Err(_) => {},
                    Ok(r3) => if r3.len() < s.len() {
                        lemma_ground_comes_first(r3, t, position, ground, things);
                    },
                }
            },
        },
        Ok((Token::Data(code), r1)) => match AttributeCode::of(code) {
            Some(AttributeCode::TileFlags) => match data_u32(r1) {
                Err(_) => {},
                Ok((_, r2)) => {
                    lemma_ground_comes_first(r2, t, position, ground, things);
                },
            },
            Some(AttributeCode::Item) => match item_id(r1, t, position) {
                Err(_) => {},
                Ok((id, r2)) => {
                    lemma_ground_comes_first(r2, t, position, Some(ground_thing(id)), things);
                },
            },
            _ => {
                lemma_ground_comes_first(r1, t, position, ground, things);
            },
        },
    }
}

/// An item node that is still open: what it has said so far.
pub struct OpenItem {
    pub item_id: u16,
    pub count: Option<u8>,
    pub fluid: Option<u8>,
    pub children: Vec<Thing>,
    pub attributes: Vec<Attribute>,
}

impl View for OpenItem {
    type V = ItemState;

    open spec fn view(&self) -> ItemState {
        ItemState {
            item_id: self.item_id,
            count: self.count,
            fluid: self.fluid,
            children: thing_views(self.children@),
            attributes: attribute_views(self.attributes@),
        }
    }
}

/// The values of a list of open item nodes.
pub open spec fn open_views(open: Seq<OpenItem>) -> Seq<ItemState> {
    Seq::new(open.len(), |i: int| open[i]@)
}

impl OpenItem {
    /// An item node right after its id.
    pub fn new(item_id: u16) -> (item: OpenItem)
        ensures
            item@ == ItemState::new(item_id),
    {
        let item = OpenItem {
            item_id,
            count: None,
            fluid: None,
            children: Vec::new(),
            attributes: Vec::new(),
        };
        assert(thing_views(item.children@) =~= Seq::<ThingView>::empty());
        assert(attribute_views(item.attributes@) =~= Seq::<AttributeView>::empty());
        item
    }

    /// The thing that the item node stands for, now that it has ended: see
    /// [`ItemState::finish`].
    pub fn close(self) -> (thing: Thing)
        ensures
            thing@ == self@.finish(),
    {
        let ghost state = self@;
        let OpenItem { item_id, count, fluid, children, attributes } = self;
        let mut attributes = attributes;
        let ghost a0 = attributes@;
        attributes.push(Attribute::Item(item_id));
        assert(attribute_views(attributes@) =~= attribute_views(a0).push(
            AttributeView::Item(item_id),
        ));
        if let Some(n) = count {
            let ghost a1 = attributes@;
            attributes.push(Attribute::Count(n));
            assert(attribute_views(attributes@) =~= attribute_views(a1).push(
                AttributeView::Count(n),
            ));
        }
        if let Some(n) = fluid {
            let ghost a2 = attributes@;
            attributes.push(Attribute::Fluid(n));
            assert(attribute_views(attributes@) =~= attribute_views(a2).push(
                AttributeView::Fluid(n),
            ));
        }
        if children.len() > 0 {
            let ghost a3 = attributes@;
            let ghost inside = thing_views(children@);
            let container = Attribute::Container(children);
            assert(attribute_view(container) == AttributeView::Container(inside)) by {
                assert(attribute_view(container)->Container_0 =~= inside);
            }
            attributes.push(container);
            assert(attribute_views(attributes@) =~= attribute_views(a3).push(
                AttributeView::Container(inside),
            ));
        }
        let thing = Thing { attributes };
        assert(thing_view(thing).attributes =~= attribute_views(thing.attributes@));
        thing
    }
}

/// What becomes of the item nodes `open`, each still waiting for a child,
/// once the innermost child is read with the outcome `child`: the child
/// joins the children of the last open node, which goes on with its body
/// and, once ended, is the child of the open node before it. The first
/// open node is the result.
pub open spec fn resumed_item(
    open: Seq<ItemState>,
    t: Tables,
    position: Position,
    child: Result<(ThingView, Seq<u8>), Error>,
) -> Result<(ThingView, Seq<u8>), Error>
    decreases open.len(),
{
    if open.len() == 0 {
        child
    } else {
        match child {
            Err(e) => Err(e),
            Ok((thing, rest)) => resumed_item(
                open.drop_last(),
                t,
                position,
                item_body(
                    rest,
                    t,
                    position,
                    ItemState { children: open.last().children.push(thing), ..open.last() },
                ),
            ),
        }
    }
}

/// To go on with the body of an item node at a nested item node is to put
/// the item node among the open ones and read the nested one.
pub proof fn lemma_resumed_item(
    open: Seq<ItemState>,
    t: Tables,
    position: Position,
    st: ItemState,
    s: Seq<u8>,
)
    requires
        token(s) matches Ok((Token::Start, r1)) && data_u8(r1) matches Ok((kind, _))
            && NodeType::of(kind) == Some(NodeType::Item),
    ensures
        resumed_item(open, t, position, item_body(s, t, position, st)) == resumed_item(
            open.push(st),
            t,
            position,
            item_node(data_u8(token(s).unwrap().1).unwrap().1, t, position),
        ),
{
    let r2 = data_u8(token(s).unwrap().1).unwrap().1;
    assert(open.push(st).drop_last() =~= open);
    lemma_item_moves_forward(r2, t, position, st);
}

/// Reads a map against the item metadata and the item index.
pub struct OtbmParser<'a> {
    pub dat: &'a dat::Document,
    pub otb: &'a otb::Document,
    pub version: u32,
}

impl<'a> OtbmParser<'a> {
    /// The tables that this parser reads against.
    pub open spec fn tables(&self) -> Tables {
        Tables { dat: self.dat@, otb: self.otb@, version: self.version }
    }

    /// A parser for a map of the format version `version`.
    pub fn new(dat: &'a dat::Document, otb: &'a otb::Document, version: u32) -> (p: Self)
        ensures
            p.tables() == (Tables { dat: dat@, otb: otb@, version }),
    {
        OtbmParser { dat, otb, version }
    }

    /// Whether the item metadata marks the item as stackable.
    fn stackable(&self, item_id: u16) -> (b: bool)
        ensures
            b == self.tables().stackable(item_id),
    {
        match self.dat.items.get(&item_id) {
            Some(item) => item.stackable,
            None => false,
        }
    }

    /// Whether the item metadata marks the item as a splash or a fluid
    /// container.
    fn holds_fluid(&self, item_id: u16) -> (b: bool)
        ensures
            b == self.tables().holds_fluid(item_id),
    {
        match self.dat.items.get(&item_id) {
            Some(item) => item.splash || item.fluid_container,
            None => false,
        }
    }

    /// Reads a server id and resolves it to a client id: see [`item_id`].
    pub fn get_item_id(&self, cursor: &mut ByteCursor, position: Position) -> (r: Result<
        u16,
        Error,
    >)
        ensures
            outcome(item_id(old(cursor)@, self.tables(), position), r, final(cursor)@),
            r is Ok ==> final(cursor)@.len() < old(cursor)@.len(),
    {
        let server_id = read_data_u16(cursor)?;
        match self.otb.items.get(&server_id) {
            Some(item) => Ok(item.client_id),
            None => Err(Error::UnresolvedReference { id: server_id, position }),
        }
    }

    /// Reads the payload of one attribute record of an item node: see
    /// [`item_attribute`].
    pub fn get_attribute(&self, cursor: &mut ByteCursor, attribute: u8, item_id: u16) -> (r:
        Result<Option<Attribute>, Error>)
        ensures
            match (item_attribute(attribute, old(cursor)@, self.tables(), item_id), r) {
                (Ok((Some(v), rest)), Ok(Some(a))) => a@ == v && final(cursor)@ == rest,
                (Ok((None, rest)), Ok(None)) => final(cursor)@ == rest,
                (Err(e), Err(x)) => x == e,
                _ => false,
            },
            r is Ok ==> final(cursor)@.len() <= old(cursor)@.len(),
    {
        match AttributeCode::from_u8(attribute) {
            Some(AttributeCode::ActionId) | Some(AttributeCode::UniqueId) | Some(
                AttributeCode::DepotId,
            ) | Some(AttributeCode::Charges) => {
                let _value = read_data_u16(cursor)?;
                Ok(None)
            },
            Some(AttributeCode::Text) | Some(AttributeCode::Desc) => {
                skip_data_string(cursor)?;
                Ok(None)
            },
            Some(AttributeCode::Destination) => {
                let _x = read_data_u16(cursor)?;
                let _y = read_data_u16(cursor)?;
                let _z = read_data_u8(cursor)?;
                Ok(None)
            },
            Some(AttributeCode::RuneCharges) | Some(AttributeCode::HouseDoorId) => {
                let _value = read_data_u8(cursor)?;
                Ok(None)
            },
            Some(AttributeCode::Count) => {
                let value = read_data_u8(cursor)?;
                if self.stackable(item_id) {
                    Ok(Some(Attribute::Count(value)))
                } else if self.holds_fluid(item_id) {
                    Ok(Some(Attribute::Fluid(value)))
                } else {
                    Ok(None)
                }
            },
            _ => Ok(None),
        }
    }

    /// Reads what follows an item attribute inside an item node: see
    /// [`renamed`].
    fn get_renamed(
        &self,
        cursor: &mut ByteCursor,
        position: Position,
        count: Option<u8>,
        fluid: Option<u8>,
    ) -> (r: Result<(u16, Option<u8>, Option<u8>), Error>)
        ensures
            outcome(renamed(old(cursor)@, self.tables(), position, count, fluid), r, final(cursor)@),
            r is Ok ==> final(cursor)@.len() < old(cursor)@.len(),
    {
        let id = self.get_item_id(cursor, position)?;
        let mut count = count;
        let mut fluid = fluid;
        if self.version == 1 {
            if self.stackable(id) {
                count = Some(read_data_u8(cursor)?);
            }
            if self.holds_fluid(id) {
                fluid = Some(read_data_u8(cursor)?);
            }
        }
        Ok((id, count, fluid))
    }

    /// Reads the item node whose start marker and type byte were just
    /// read: see [`item_node`].
    ///
    /// Item nodes that are still open are kept on a stack of their own, so
    /// that containers nested deeply in containers do not nest calls while
    /// they are read.
    pub fn get_thing(&self, cursor: &mut ByteCursor, position: Position) -> (r: Result<
        Thing,
        Error,
    >)
        ensures
            outcome_view(item_node(old(cursor)@, self.tables(), position), r, final(cursor)@),
            r is Ok ==> final(cursor)@.len() < old(cursor)@.len(),
    {
        let ghost t = self.tables();
        let first = self.get_item_id(cursor, position)?;
        let mut item = OpenItem::new(first);
        let mut open: Vec<OpenItem> = Vec::new();
        assert(open_views(open@) =~= Seq::<ItemState>::empty());
        loop
            invariant
                t == self.tables(),
                cursor@.len() < old(cursor)@.len(),
                resumed_item(open_views(open@), t, position, item_body(cursor@, t, position, item@))
                    == item_node(old(cursor)@, t, position),
            decreases cursor@.len(),
        {
            let ghost here = cursor@;
            let ghost state = item@;
            let ghost waiting = open@;
            match read_token(cursor)? {
                Token::End => {
                    let thing = item.close();
                    match open.pop() {
                        None => {
                            return Ok(thing);
                        },
                        Some(parent) => {
                            let mut parent = parent;
                            assert(open_views(open@) =~= open_views(waiting).drop_last());
                            assert(open_views(waiting).last() == parent@);
                            let ghost before = parent.children@;
                            parent.children.push(thing);
                            assert(thing_views(parent.children@) =~= thing_views(before).push(
                                thing@,
                            ));
                            item = parent;
                        },
                    }
                },
                Token::Start => {
                    let kind = read_data_u8(cursor)?;
                    match NodeType::from_u8(kind) {
                        Some(NodeType::Item) => {
                            proof {
                                lemma_resumed_item(
                                    open_views(open@),
                                    t,
                                    position,
                                    state,
                                    here,
                                );
                            }
                            let id = self.get_item_id(cursor, position)?;
                            open.push(item);
                            assert(open_views(open@) =~= open_views(waiting).push(state));
                            item = OpenItem::new(id);
                        },
                        _ => {
                            skip_rest_of_node(cursor)?;
                        },
                    }
                },
                Token::Data(code) => {
                    match AttributeCode::from_u8(code) {
                        Some(AttributeCode::Item) => {
                            let (id, c, f) = self.get_renamed(
                                cursor,
                                position,
                                item.count,
                                item.fluid,
                            )?;
                            item.item_id = id;
                            item.count = c;
                            item.fluid = f;
                        },
                        _ => {
                            match self.get_attribute(cursor, code, item.item_id)? {
                                Some(attribute) => {
                                    let ghost before = item.attributes@;
                                    let ghost value = attribute@;
                                    item.attributes.push(attribute);
                                    assert(attribute_views(item.attributes@) =~= attribute_views(
                                        before,
                                    ).push(value));
                                },
                                None => {},
                            }
                        },
                    }
                },
            }
        }
    }

    /// Reads the body of a tile node up to its end marker: see
    /// [`tile_body`].
    fn get_tile_body(&self, cursor: &mut ByteCursor, position: Position) -> (r: Result<
        Tile,
        Error,
    >)
        ensures
            outcome_view(
                tile_body(old(cursor)@, self.tables(), position, None, Seq::empty()),
                r,
                final(cursor)@,
            ),
            r is Ok ==> final(cursor)@.len() < old(cursor)@.len(),
    {
        let ghost t = self.tables();
        let mut ground: Option<Thing> = None;
        let ghost mut ground_value: Option<ThingView> = None;
        let mut things: Vec<Thing> = Vec::new();
        assert(thing_views(things@) =~= Seq::<ThingView>::empty());
        loop
            invariant
                t == self.tables(),
                cursor@.len() <= old(cursor)@.len(),
                match (ground, ground_value) {
                    (Some(g), Some(v)) => g@ == v,
                    (None, None) => true,
                    _ => false,
                },
                tile_body(cursor@, t, position, ground_value, thing_views(things@)) == tile_body(
                    old(cursor)@,
                    t,
                    position,
                    None,
                    Seq::empty(),
                ),
            decreases cursor@.len(),
        {
            match read_token(cursor)? {
                Token::End => {
                    let ghost on_top = thing_views(things@);
                    match ground {
                        Some(g) => {
                            things.insert(0, g);
                            assert(thing_views(things@) =~= seq![g@] + on_top);
                        },
                        None => {},
                    }
                    return Ok(Tile { position, things });
                },
                Token::Start => {
                    let kind = read_data_u8(cursor)?;
                    match NodeType::from_u8(kind) {
                        Some(NodeType::Item) => {
                            let thing = self.get_thing(cursor, position)?;
                            let ghost before = things@;
                            things.push(thing);
                            assert(thing_views(things@) =~= thing_views(before).push(thing@));
                        },
                        _ => {
                            skip_rest_of_node(cursor)?;
                        },
                    }
                },
                Token::Data(code) => {
                    match AttributeCode::from_u8(code) {
                        Some(AttributeCode::TileFlags) => {
                            let _flags = read_data_u32(cursor)?;
                        },
                        Some(AttributeCode::Item) => {
                            let id = self.get_item_id(cursor, position)?;
                            let mut attributes: Vec<Attribute> = Vec::new();
                            attributes.push(Attribute::Item(id));
                            let thing = Thing { attributes };
                            assert(thing_view(thing).attributes =~= seq![AttributeView::Item(id)]);
                            proof {
                                ground_value = Some(ground_thing(id));
                            }
                            ground = Some(thing);
                        },
                        _ => {},
                    }
                },
            }
        }
    }

    /// Reads the tile node whose start marker and type byte were just
    /// read: see [`tile_node`].
    pub fn get_tile(&self, cursor: &mut ByteCursor, origin: Position, house: bool) -> (r: Result<
        Tile,
        Error,
    >)
        ensures
            outcome_view(tile_node(old(cursor)@, self.tables(), origin, house), r, final(cursor)@),
            r is Ok ==> final(cursor)@.len() < old(cursor)@.len(),
    {
        let dx = read_data_u8(cursor)?;
        let dy = read_data_u8(cursor)?;
        if house {
            let _house_id = read_data_u32(cursor)?;
        }
        if dx as u32 + origin.x as u32 > 65535 || dy as u32 + origin.y as u32 > 65535 {
            return Err(Error::Malformed);
        }
        let position = Position { x: origin.x + dx as u16, y: origin.y + dy as u16, z: origin.z };
        self.get_tile_body(cursor, position)
    }

    /// Reads the tile-area node whose start marker and type byte were just
    /// read, adding its tiles to `tiles`: see [`area_node`].
    pub fn get_area(&self, cursor: &mut ByteCursor, tiles: &mut Vec<Tile>) -> (r: Result<
        (),
        Error,
    >)
        ensures
            match (area_node(old(cursor)@, self.tables(), tile_views(old(tiles)@)), r) {
                (Ok((all, rest)), Ok(_)) => tile_views(final(tiles)@) == all && final(cursor)@
                    == rest,
                (Err(e), Err(x)) => x == e,
                _ => false,
            },
            r is Ok ==> final(cursor)@.len() < old(cursor)@.len(),
    {
        let ghost t = self.tables();
        let x = read_data_u16(cursor)?;
        let y = read_data_u16(cursor)?;
        let z = read_data_u8(cursor)?;
        let origin = Position { x, y, z };
        let ghost start = cursor@;
        loop
            invariant
                t == self.tables(),
                cursor@.len() < old(cursor)@.len(),
                area_node(old(cursor)@, t, tile_views(old(tiles)@)) == area_body(
                    start,
                    t,
                    origin,
                    tile_views(old(tiles)@),
                ),
                area_body(cursor@, t, origin, tile_views(tiles@)) == area_body(
                    start,
                    t,
                    origin,
                    tile_views(old(tiles)@),
                ),
            decreases cursor@.len(),
        {
            match read_token(cursor)? {
                Token::End => {
                    return Ok(());
                },
                Token::Data(_) => {},
                Token::Start => {
                    let kind = read_data_u8(cursor)?;
                    match NodeType::from_u8(kind) {
                        Some(NodeType::Tile) => {
                            let tile = self.get_tile(cursor, origin, false)?;
                            let ghost before = tiles@;
                            tiles.push(tile);
                            assert(tile_views(tiles@) =~= tile_views(before).push(tile@));
                        },
                        Some(NodeType::HouseTile) => {
                            let tile = self.get_tile(cursor, origin, true)?;
                            let ghost before = tiles@;
                            tiles.push(tile);
                            assert(tile_views(tiles@) =~= tile_views(before).push(tile@));
                        },
                        _ => {
                            skip_rest_of_node(cursor)?;
                        },
                    }
                },
            }
        }
    }

    /// Reads the body of the map-data node up to its end marker: see
    /// [`map_body`].
    pub fn get_map_data(&self, cursor: &mut ByteCursor) -> (r: Result<Vec<Tile>, Error>)
        ensures
            match (map_body(old(cursor)@, self.tables(), Seq::empty()), r) {
                (Ok(all), Ok(tiles)) => tile_views(tiles@) == all,
                (Err(e), Err(x)) => x == e,
                _ => false,
            },
    {
        let ghost t = self.tables();
        let mut tiles: Vec<Tile> = Vec::new();
        assert(tile_views(tiles@) =~= Seq::<TileView>::empty());
        loop
            invariant
                t == self.tables(),
                map_body(cursor@, t, tile_views(tiles@)) == map_body(old(cursor)@, t, Seq::empty()),
            decreases cursor@.len(),
        {
            match read_token(cursor)? {
                Token::End => {
                    return Ok(tiles);
                },
                Token::Data(code) => {
                    match AttributeCode::from_u8(code) {
                        Some(AttributeCode::Description) | Some(AttributeCode::ExtFile) | Some(
                            AttributeCode::ExtSpawnFile,
                        ) | Some(AttributeCode::ExtHouseFile) => {
                            skip_data_string(cursor)?;
                        },
                        _ => {},
                    }
                },
                Token::Start => {
                    let kind = read_data_u8(cursor)?;
                    match NodeType::from_u8(kind) {
                        Some(NodeType::TileArea) => {
                            self.get_area(cursor, &mut tiles)?;
                        },
                        _ => {
                            skip_rest_of_node(cursor)?;
                        },
                    }
                },
            }
        }
    }
}

/// Reads the start marker and the type byte of a node that must be of the
/// type `kind`: see [`opening`].
pub fn get_node(cursor: &mut ByteCursor, kind: NodeType) -> (r: Result<(), Error>)
    ensures
        match opening(old(cursor)@, kind) {
            Ok(rest) => r is Ok && final(cursor)@ == rest,
            Err(e) => r == Err::<(), Error>(e),
        },
{
    match read_token(cursor)? {
        Token::Start => {
            let code = read_data_u8(cursor)?;
            match NodeType::from_u8(code) {
                Some(k) => {
                    if k == kind {
                        Ok(())
                    } else {
                        Err(Error::Malformed)
                    }
                },
                None => Err(Error::Malformed),
            }
        },
        _ => Err(Error::Malformed),
    }
}

/// Reads the header of the root node: see [`root_header`].
fn get_root_header(cursor: &mut ByteCursor) -> (r: Result<(u32, u16, u16), Error>)
    ensures
        outcome(root_header(old(cursor)@), r, final(cursor)@),
{
    let version = read_data_u32(cursor)?;
    let width = read_data_u16(cursor)?;
    let height = read_data_u16(cursor)?;
    let _items_major_version = read_data_u32(cursor)?;
    let _items_minor_version = read_data_u32(cursor)?;
    Ok((version, width, height))
}

/// The bytes of a map document together with the two tables it is read
/// against.
pub struct Reader<'a> {
    pub data: Vec<u8>,
    pub dat: &'a dat::Document,
    pub otb: &'a otb::Document,
}

impl<'a> Parse<Document> for Reader<'a> {
    /// Decodes a map document. The result is the one that [`document`]
    /// defines.
    fn parse(self) -> (r: Result<Document, Error>)
        ensures
            decoded::<Document>(document(self.data@, self.dat@, self.otb@), r),
    {
        let mut cursor = ByteCursor::new(self.data);
        let _signature = cursor.read_u32_le()?;
        get_node(&mut cursor, NodeType::Root)?;
        let (version, width, height) = get_root_header(&mut cursor)?;
        get_node(&mut cursor, NodeType::MapData)?;
        let parser = OtbmParser::new(self.dat, self.otb, version);
        let tiles = parser.get_map_data(&mut cursor)?;
        Ok(Document { map: TileMap { width: width as u32, height: height as u32, tiles } })
    }
}

} // verus!
