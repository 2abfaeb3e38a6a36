//! The item-index document: a node tree whose root holds the version and
//! whose children are item records, each a run of tagged, length-framed
//! attributes.

use vstd::prelude::*;
use std::collections::HashMap;
use super::cursor::{
    decoded, outcome, outcome_view, take_bytes, take_string, take_u16, take_u32, take_u8,
    ByteCursor,
};
use super::tree::{
    dismantle, node_from, node_view, read_node, read_token, token, Node, NodeView, Token,
};
use super::{Error, Parse};

verus! {

/// The attribute code of the root node that carries the version.
pub const ROOT_VERSION: u8 = 0x01;

/// The number of bytes that the three version numbers take.
pub const VERSION_BYTES: u16 = 12;

/// The group of an item.
#[derive(Debug, Clone, Copy, PartialEq, Eq, Structural)]
pub enum ItemGroup {
    /// The code zero: none of the others.
    Unset,
    Ground,
    Container,
    Weapon,
    Ammunition,
    Armor,
    Changes,
    Teleport,
    MagicField,
    Writable,
    Key,
    Splash,
    Fluid,
    Door,
    Deprecated,
}

impl ItemGroup {
    /// The group that a code byte stands for, if any.
    pub open spec fn of(code: u8) -> Option<ItemGroup> {
        match code {
            0 => Some(ItemGroup::Unset),
            1 => Some(ItemGroup::Ground),
            2 => Some(ItemGroup::Container),
            3 => Some(ItemGroup::Weapon),
            4 => Some(ItemGroup::Ammunition),
            5 => Some(ItemGroup::Armor),
            6 => Some(ItemGroup::Changes),
            7 => Some(ItemGroup::Teleport),
            8 => Some(ItemGroup::MagicField),
            9 => Some(ItemGroup::Writable),
            10 => Some(ItemGroup::Key),
            11 => Some(ItemGroup::Splash),
            12 => Some(ItemGroup::Fluid),
            13 => Some(ItemGroup::Door),
            14 => Some(ItemGroup::Deprecated),
            _ => None,
        }
    }

    /// Decodes a group code; `None` for a code that names no group.
    pub fn from_u8(code: u8) -> (group: Option<ItemGroup>)
        ensures
            group == ItemGroup::of(code),
    {
        match code {
            0 => Some(ItemGroup::Unset),
            1 => Some(ItemGroup::Ground),
            2 => Some(ItemGroup::Container),
            3 => Some(ItemGroup::Weapon),
            4 => Some(ItemGroup::Ammunition),
            5 => Some(ItemGroup::Armor),
            6 => Some(ItemGroup::Changes),
            7 => Some(ItemGroup::Teleport),
            8 => Some(ItemGroup::MagicField),
            9 => Some(ItemGroup::Writable),
            10 => Some(ItemGroup::Key),
            11 => Some(ItemGroup::Splash),
            12 => Some(ItemGroup::Fluid),
            13 => Some(ItemGroup::Door),
            14 => Some(ItemGroup::Deprecated),
            _ => None,
        }
    }
}

/// The coarse type of an item.
#[derive(Debug, Clone, Copy, PartialEq, Eq, Structural)]
pub enum ItemType {
    /// The code zero: none of the others.
    Unset,
    Ground,
    Container,
    Fluid,
    Splash,
    Deprecated,
}

impl ItemType {
    /// The type that a code byte stands for, if any.
    pub open spec fn of(code: u8) -> Option<ItemType> {
        match code {
            0 => Some(ItemType::Unset),
            1 => Some(ItemType::Ground),
            2 => Some(ItemType::Container),
            3 => Some(ItemType::Fluid),
            4 => Some(ItemType::Splash),
            5 => Some(ItemType::Deprecated),
            _ => None,
        }
    }

    /// Decodes a type code; `None` for a code that names no type.
    pub fn from_u8(code: u8) -> (kind: Option<ItemType>)
        ensures
            kind == ItemType::of(code),
    {
        match code {
            0 => Some(ItemType::Unset),
            1 => Some(ItemType::Ground),
            2 => Some(ItemType::Container),
            3 => Some(ItemType::Fluid),
            4 => Some(ItemType::Splash),
            5 => Some(ItemType::Deprecated),
            _ => None,
        }
    }
}

/// Where an item is drawn in the stack of a tile.
#[derive(Debug, Clone, Copy, PartialEq, Eq, Structural)]
pub enum StackOrder {
    /// The code zero: none of the others.
    Unset,
    Border,
    Bottom,
    Top,
}

impl StackOrder {
    /// The stack order that a code byte stands for, if any.
    pub open spec fn of(code: u8) -> Option<StackOrder> {
        match code {
            0 => Some(StackOrder::Unset),
            1 => Some(StackOrder::Border),
            2 => Some(StackOrder::Bottom),
            3 => Some(StackOrder::Top),
            _ => None,
        }
    }

    /// Decodes a stack order; `None` for a code that names none.
    pub fn from_u8(code: u8) -> (order: Option<StackOrder>)
        ensures
            order == StackOrder::of(code),
    {
        match code {
            0 => Some(StackOrder::Unset),
            1 => Some(StackOrder::Border),
            2 => Some(StackOrder::Bottom),
            3 => Some(StackOrder::Top),
            _ => None,
        }
    }
}

/// The attribute codes of an item record.
#[derive(Debug, Clone, Copy, PartialEq, Eq, Structural)]
pub enum ItemAttribute {
    ServerId,
    ClientId,
    Name,
    GroundSpeed,
    SpriteHash,
    MinimapColor,
    MaxReadWriteChars,
    MaxReadChars,
    Light,
    StackOrder,
    TradeAs,
}

impl ItemAttribute {
    /// The attribute that a code byte stands for, if any.
    pub open spec fn of(code: u8) -> Option<ItemAttribute> {
        match code {
            0x10 => Some(ItemAttribute::ServerId),
            0x11 => Some(ItemAttribute::ClientId),
            0x12 => Some(ItemAttribute::Name),
            0x14 => Some(ItemAttribute::GroundSpeed),
            0x20 => Some(ItemAttribute::SpriteHash),
            0x21 => Some(ItemAttribute::MinimapColor),
            0x22 => Some(ItemAttribute::MaxReadWriteChars),
            0x23 => Some(ItemAttribute::MaxReadChars),
            0x2A => Some(ItemAttribute::Light),
            0x2B => Some(ItemAttribute::StackOrder),
            0x2D => Some(ItemAttribute::TradeAs),
            _ => None,
        }
    }

    /// Decodes an attribute code; `None` for a code that names none.
    pub fn from_u8(code: u8) -> (attribute: Option<ItemAttribute>)
        ensures
            attribute == ItemAttribute::of(code),
    {
        match code {
            0x10 => Some(ItemAttribute::ServerId),
            0x11 => Some(ItemAttribute::ClientId),
            0x12 => Some(ItemAttribute::Name),
            0x14 => Some(ItemAttribute::GroundSpeed),
            0x20 => Some(ItemAttribute::SpriteHash),
            0x21 => Some(ItemAttribute::MinimapColor),
            0x22 => Some(ItemAttribute::MaxReadWriteChars),
            0x23 => Some(ItemAttribute::MaxReadChars),
            0x2A => Some(ItemAttribute::Light),
            0x2B => Some(ItemAttribute::StackOrder),
            0x2D => Some(ItemAttribute::TradeAs),
            _ => None,
        }
    }
}

/// The light that an item gives off.
#[derive(Debug, Clone, Copy, PartialEq, Eq, Structural)]
pub struct Light {
    pub level: u16,
    pub color: u16,
}

/// One record of the item index. Both ids are always there.
#[derive(Debug)]
pub struct Item {
    pub group: ItemGroup,
    pub flags: u32,
    pub server_id: u16,
    pub client_id: u16,
    pub name: Option<String>,
    pub ground_speed: Option<u16>,
    pub sprite_hash: Option<Vec<u8>>,
    pub minimap_color: Option<u16>,
    pub max_read_write_chars: Option<u16>,
    pub max_read_chars: Option<u16>,
    pub light: Option<Light>,
    pub stack_order: Option<StackOrder>,
    pub trade_as: Option<u16>,
}

/// The attributes of one record as they are collected: any of them may be
/// missing, the two ids too.
pub struct Fields {
    pub server_id: Option<u16>,
    pub client_id: Option<u16>,
    pub name: Option<String>,
    pub ground_speed: Option<u16>,
    pub sprite_hash: Option<Vec<u8>>,
    pub minimap_color: Option<u16>,
    pub max_read_write_chars: Option<u16>,
    pub max_read_chars: Option<u16>,
    pub light: Option<Light>,
    pub stack_order: Option<StackOrder>,
    pub trade_as: Option<u16>,
}

/// The mathematical value of a [`Fields`].
pub struct FieldsView {
    pub server_id: Option<u16>,
    pub client_id: Option<u16>,
    pub name: Option<Seq<char>>,
    pub ground_speed: Option<u16>,
    pub sprite_hash: Option<Seq<u8>>,
    pub minimap_color: Option<u16>,
    pub max_read_write_chars: Option<u16>,
    pub max_read_chars: Option<u16>,
    pub light: Option<Light>,
    pub stack_order: Option<StackOrder>,
    pub trade_as: Option<u16>,
}

/// The mathematical value of an [`Item`]: its group, its flags and its
/// attributes, of which both ids are present.
pub struct ItemView {
    pub group: ItemGroup,
    pub flags: u32,
    pub fields: FieldsView,
}

impl ItemView {
    /// The id that servers know the item by.
    pub open spec fn server_id(self) -> u16 {
        self.fields.server_id.unwrap()
    }

    /// The id that clients know the item by, under which the item
    /// metadata holds it.
    pub open spec fn client_id(self) -> u16 {
        self.fields.client_id.unwrap()
    }
}

/// The value of an optional string.
pub open spec fn text_view(text: Option<String>) -> Option<Seq<char>> {
    match text {
        Some(t) => Some(t@),
        None => None,
    }
}

/// The value of an optional byte string.
pub open spec fn blob_view(blob: Option<Vec<u8>>) -> Option<Seq<u8>> {
    match blob {
        Some(b) => Some(b@),
        None => None,
    }
}

impl View for Fields {
    type V = FieldsView;

    open spec fn view(&self) -> FieldsView {
        FieldsView {
            server_id: self.server_id,
            client_id: self.client_id,
            name: text_view(self.name),
            ground_speed: self.ground_speed,
            sprite_hash: blob_view(self.sprite_hash),
            minimap_color: self.minimap_color,
            max_read_write_chars: self.max_read_write_chars,
            max_read_chars: self.max_read_chars,
            light: self.light,
            stack_order: self.stack_order,
            trade_as: self.trade_as,
        }
    }
}

impl View for Item {
    type V = ItemView;

    open spec fn view(&self) -> ItemView {
        ItemView {
            group: self.group,
            flags: self.flags,
            fields: FieldsView {
                server_id: Some(self.server_id),
                client_id: Some(self.client_id),
                name: text_view(self.name),
                ground_speed: self.ground_speed,
                sprite_hash: blob_view(self.sprite_hash),
                minimap_color: self.minimap_color,
                max_read_write_chars: self.max_read_write_chars,
                max_read_chars: self.max_read_chars,
                light: self.light,
                stack_order: self.stack_order,
                trade_as: self.trade_as,
            },
        }
    }
}

impl FieldsView {
    /// No attribute read yet.
    pub open spec fn blank() -> FieldsView {
        FieldsView {
            server_id: None,
            client_id: None,
            name: None,
            ground_speed: None,
            sprite_hash: None,
            minimap_color: None,
            max_read_write_chars: None,
            max_read_chars: None,
            light: None,
            stack_order: None,
            trade_as: None,
        }
    }
}

impl Fields {
    /// No attribute read yet.
    pub fn new() -> (f: Fields)
        ensures
            f@ == FieldsView::blank(),
    {
        Fields {
            server_id: None,
            client_id: None,
            name: None,
            ground_speed: None,
            sprite_hash: None,
            minimap_color: None,
            max_read_write_chars: None,
            max_read_chars: None,
            light: None,
            stack_order: None,
            trade_as: None,
        }
    }
}

/// A decoded item index: the version of the table and its items by server
/// id.
pub struct Document {
    pub major_version: u32,
    pub minor_version: u32,
    pub build_version: u32,
    pub items: HashMap<u16, Item>,
}

/// The mathematical value of a [`Document`].
pub struct DocumentView {
    pub major_version: u32,
    pub minor_version: u32,
    pub build_version: u32,
    pub items: Map<u16, ItemView>,
}

/// The items of a table, each by its mathematical value.
pub open spec fn item_views(items: Map<u16, Item>) -> Map<u16, ItemView> {
    Map::new(|id: u16| items.contains_key(id), |id: u16| items[id]@)
}

impl View for Document {
    type V = DocumentView;

    open spec fn view(&self) -> DocumentView {
        DocumentView {
            major_version: self.major_version,
            minor_version: self.minor_version,
            build_version: self.build_version,
            items: item_views(self.items@),
        }
    }
}

/// What one attribute does to the fields read so far. `value` is the
/// attribute's framed value; a recognised attribute is decoded from its
/// head, and one that names no attribute changes nothing.
pub open spec fn apply_attribute(code: u8, value: Seq<u8>, f: FieldsView) -> Result<
    FieldsView,
    Error,
> {
    match ItemAttribute::of(code) {
        Some(ItemAttribute::ServerId) => match take_u16(value) {
            Ok((v, _)) => Ok(FieldsView { server_id: Some(v), ..f }),
            Err(e) => Err(e),
        },
        Some(ItemAttribute::ClientId) => match take_u16(value) {
            Ok((v, _)) => Ok(FieldsView { client_id: Some(v), ..f }),
            Err(e) => Err(e),
        },
        Some(ItemAttribute::Name) => match take_string(value) {
            Ok((text, _)) => Ok(FieldsView { name: Some(text), ..f }),
            Err(e) => Err(e),
        },
        Some(ItemAttribute::GroundSpeed) => match take_u16(value) {
            Ok((v, _)) => Ok(FieldsView { ground_speed: Some(v), ..f }),
            Err(e) => Err(e),
        },
        Some(ItemAttribute::SpriteHash) => Ok(FieldsView { sprite_hash: Some(value), ..f }),
        Some(ItemAttribute::MinimapColor) => match take_u16(value) {
            Ok((v, _)) => Ok(FieldsView { minimap_color: Some(v), ..f }),
            Err(e) => Err(e),
        },
        Some(ItemAttribute::MaxReadWriteChars) => match take_u16(value) {
            Ok((v, _)) => Ok(FieldsView { max_read_write_chars: Some(v), ..f }),
            Err(e) => Err(e),
        },
        Some(ItemAttribute::MaxReadChars) => match take_u16(value) {
            Ok((v, _)) => Ok(FieldsView { max_read_chars: Some(v), ..f }),
            Err(e) => Err(e),
        },
        Some(ItemAttribute::Light) => match take_u16(value) {
            Ok((level, rest)) => match take_u16(rest) {
                Ok((color, _)) => Ok(FieldsView { light: Some(Light { level, color }), ..f }),
                Err(e) => Err(e),
            },
            Err(e) => Err(e),
        },
        Some(ItemAttribute::StackOrder) => match take_u8(value) {
            Ok((v, _)) => Ok(FieldsView { stack_order: StackOrder::of(v), ..f }),
            Err(e) => Err(e),
        },
        Some(ItemAttribute::TradeAs) => match take_u16(value) {
            Ok((v, _)) => Ok(FieldsView { trade_as: Some(v), ..f }),
            Err(e) => Err(e),
        },
        None => Ok(f),
    }
}

/// The attribute at the head of `s`: a code byte, a `u16` length and a
/// value of that many bytes.
pub open spec fn frame(s: Seq<u8>) -> Result<((u8, Seq<u8>), Seq<u8>), Error> {
    match take_u8(s) {
        Err(e) => Err(e),
        Ok((code, r1)) => match take_u16(r1) {
            Err(e) => Err(e),
            Ok((n, r2)) => match take_bytes(r2, n as int) {
                Err(e) => Err(e),
                Ok((value, r3)) => Ok(((code, value), r3)),
            },
        },
    }
}

/// What the attributes that fill `s` to its end say, starting from the
/// fields `f`.
pub open spec fn fields_from(s: Seq<u8>, f: FieldsView) -> Result<FieldsView, Error>
    decreases s.len(),
{
    if s.len() == 0 {
        Ok(f)
    } else {
        match frame(s) {
            Err(e) => Err(e),
            Ok(((code, value), rest)) => match apply_attribute(code, value, f) {
                Err(e) => Err(e),
                Ok(f2) => fields_from(rest, f2),
            },
        }
    }
}

/// The record that an item node's payload spells: a group byte, a `u32` of
/// flags, then attributes to the end. An unknown group, a missing server id
/// or a missing client id is `Malformed`.
pub open spec fn item_from(payload: Seq<u8>) -> Result<ItemView, Error> {
    match take_u8(payload) {
        Err(e) => Err(e),
        Ok((group, r1)) => match take_u32(r1) {
            Err(e) => Err(e),
            Ok((flags, r2)) => match fields_from(r2, FieldsView::blank()) {
                Err(e) => Err(e),
                Ok(fields) => match ItemGroup::of(group) {
                    None => Err(Error::Malformed),
                    Some(group) => if fields.server_id is Some && fields.client_id is Some {
                        Ok(ItemView { group, flags, fields })
                    } else {
                        Err(Error::Malformed)
                    },
                },
            },
        },
    }
}

/// The table that the item nodes `nodes[index..]` add to `items`. A later
/// record replaces an earlier one with the same server id.
pub open spec fn items_from(nodes: Seq<NodeView>, index: int, items: Map<u16, ItemView>) -> Result<
    Map<u16, ItemView>,
    Error,
>
    decreases nodes.len() - index,
{
    if index < 0 || index >= nodes.len() {
        Ok(items)
    } else {
        match item_from(nodes[index].payload) {
            Err(e) => Err(e),
            Ok(item) => items_from(nodes, index + 1, items.insert(item.server_id(), item)),
        }
    }
}

/// The version that a root node's payload spells: a type byte and a `u32`
/// of flags, then, if the next byte is the version attribute, a `u16`
/// length of at least twelve and the three version numbers. Without that
/// attribute the three numbers are zero.
pub open spec fn version_from(payload: Seq<u8>) -> Result<(u32, u32, u32), Error> {
    match take_u8(payload) {
        Err(e) => Err(e),
        Ok((_kind, r1)) => match take_u32(r1) {
            Err(e) => Err(e),
            Ok((_flags, r2)) => if r2.len() == 0 || r2[0] != ROOT_VERSION {
                Ok((0u32, 0u32, 0u32))
            } else {
                match take_u16(r2.skip(1)) {
                    Err(e) => Err(e),
                    Ok((n, r3)) => match take_u32(r3) {
                        Err(e) => Err(e),
                        Ok((major, r4)) => match take_u32(r4) {
                            Err(e) => Err(e),
                            Ok((minor, r5)) => match take_u32(r5) {
                                Err(e) => Err(e),
                                Ok((build, _)) => if n < VERSION_BYTES {
                                    Err(Error::Malformed)
                                } else {
                                    Ok((major, minor, build))
                                },
                            },
                        },
                    },
                }
            },
        },
    }
}

/// The root node of the bytes `s`: four leading bytes are passed over, then
/// a start marker and the root node must follow.
pub open spec fn root_from(s: Seq<u8>) -> Result<NodeView, Error> {
    match take_bytes(s, 4) {
        Err(e) => Err(e),
        Ok((_, r1)) => match token(r1) {
            Err(e) => Err(e),
            Ok((Token::Start, r2)) => match node_from(r2) {
                Err(e) => Err(e),
                Ok((root, _)) => Ok(root),
            },
            Ok(_) => Err(Error::Malformed),
        },
    }
}

/// The document that a rebuilt tree stands for: the version from its root
/// and one item from each child of the root.
pub open spec fn document_of(root: NodeView) -> Result<DocumentView, Error> {
    match version_from(root.payload) {
        Err(e) => Err(e),
        Ok((major_version, minor_version, build_version)) => match items_from(
            root.children,
            0,
            Map::empty(),
        ) {
            Err(e) => Err(e),
            Ok(items) => Ok(DocumentView { major_version, minor_version, build_version, items }),
        },
    }
}

/// The document that the bytes `s` spell: the tree is rebuilt first, then
/// the root gives the version and each child of the root one item.
pub open spec fn document(s: Seq<u8>) -> Result<DocumentView, Error> {
    match root_from(s) {
        Err(e) => Err(e),
        Ok(root) => document_of(root),
    }
}

/// A record that decodes has both ids.
pub proof fn lemma_item_has_ids(payload: Seq<u8>)
    ensures
        item_from(payload) matches Ok(item) ==> item.fields.server_id is Some
            && item.fields.client_id is Some,
{
}

/// Every table that the item nodes `nodes[index..]` are added to keeps the
/// rule, if it had it: each record has both ids and stands under its
/// server id.
pub proof fn lemma_items_keep_ids(nodes: Seq<NodeView>, index: int, items: Map<u16, ItemView>)
    requires
        forall|id: u16| #[trigger]
            items.contains_key(id) ==> items[id].fields.server_id == Some(id)
                && items[id].fields.client_id is Some,
    ensures
        items_from(nodes, index, items) matches Ok(all) ==> forall|id: u16| #[trigger]
            all.contains_key(id) ==> all[id].fields.server_id == Some(id)
                && all[id].fields.client_id is Some,
    decreases nodes.len() - index,
{
    if 0 <= index < nodes.len() {
        match item_from(nodes[index].payload) {
            Ok(item) => {
                lemma_items_keep_ids(nodes, index + 1, items.insert(item.server_id(), item));
            },
            Err(_) => {},
        }
    }
}

/// In every item index that decodes, each record has a server id, under
/// which it stands, and a client id.
pub proof fn lemma_admitted_have_ids(s: Seq<u8>)
    ensures
        document(s) matches Ok(d) ==> forall|id: u16| #[trigger]
            d.items.contains_key(id) ==> d.items[id].fields.server_id == Some(id)
                && d.items[id].fields.client_id is Some,
{
    match root_from(s) {
        Ok(root) => {
            lemma_items_keep_ids(root.children, 0, Map::empty());
        },
        Err(_) => {},
    }
}

/// Applies one attribute to the fields read so far: see
/// [`apply_attribute`].
fn read_attribute(code: u8, value: Vec<u8>, fields: Fields) -> (r: Result<Fields, Error>)
    ensures
        match (apply_attribute(code, value@, fields@), r) {
            (Ok(v), Ok(f)) => f@ == v,
            (Err(e), Err(x)) => x == e,
            _ => false,
        },
{
    let mut f = fields;
    match ItemAttribute::from_u8(code) {
        Some(ItemAttribute::ServerId) => {
            let mut cursor = ByteCursor::new(value);
            f.server_id = Some(cursor.read_u16_le()?);
        },
        Some(ItemAttribute::ClientId) => {
            let mut cursor = ByteCursor::new(value);
            f.client_id = Some(cursor.read_u16_le()?);
        },
        Some(ItemAttribute::Name) => {
            let mut cursor = ByteCursor::new(value);
            f.name = Some(cursor.read_string()?);
        },
        Some(ItemAttribute::GroundSpeed) => {
            let mut cursor = ByteCursor::new(value);
            f.ground_speed = Some(cursor.read_u16_le()?);
        },
        Some(ItemAttribute::SpriteHash) => {
            f.sprite_hash = Some(value);
        },
        Some(ItemAttribute::MinimapColor) => {
            let mut cursor = ByteCursor::new(value);
            f.minimap_color = Some(cursor.read_u16_le()?);
        },
        Some(ItemAttribute::MaxReadWriteChars) => {
            let mut cursor = ByteCursor::new(value);
            f.max_read_write_chars = Some(cursor.read_u16_le()?);
        },
        Some(ItemAttribute::MaxReadChars) => {
            let mut cursor = ByteCursor::new(value);
            f.max_read_chars = Some(cursor.read_u16_le()?);
        },
        Some(ItemAttribute::Light) => {
            let mut cursor = ByteCursor::new(value);
            let level = cursor.read_u16_le()?;
            let color = cursor.read_u16_le()?;
            f.light = Some(Light { level, color });
        },
        Some(ItemAttribute::StackOrder) => {
            let mut cursor = ByteCursor::new(value);
            f.stack_order = StackOrder::from_u8(cursor.read_u8()?);
        },
        Some(ItemAttribute::TradeAs) => {
            let mut cursor = ByteCursor::new(value);
            f.trade_as = Some(cursor.read_u16_le()?);
        },
        None => {},
    }
    Ok(f)
}

/// Reads one framed attribute: see [`frame`].
fn read_frame(cursor: &mut ByteCursor) -> (r: Result<(u8, Vec<u8>), Error>)
    ensures
        match (frame(old(cursor)@), r) {
            (Ok(((code, value), rest)), Ok((c, v))) => c == code && v@ == value && final(cursor)@
                == rest,
            (Err(e), Err(x)) => x == e,
            _ => false,
        },
        r is Ok ==> final(cursor)@.len() < old(cursor)@.len(),
{
    let code = cursor.read_u8()?;
    let n = cursor.read_u16_le()?;
    match cursor.read_slice(n as usize) {
        Some(value) => Ok((code, value)),
        None => Err(Error::Truncated),
    }
}

/// Decodes the record of one item node: see [`item_from`].
#[verifier::loop_isolation(false)]
pub fn read_item(node: &Node) -> (r: Result<Item, Error>)
    ensures
        decoded(item_from(node@.payload), r),
{
    let payload = node.payload.clone();
    assert(payload@ =~= node.payload@);
    let mut cursor = ByteCursor::new(payload);
    let group = cursor.read_u8()?;
    let flags = cursor.read_u32_le()?;
    let ghost start = cursor@;
    let mut fields = Fields::new();
    while cursor.has_remaining()
        invariant
            fields_from(cursor@, fields@) == fields_from(start, FieldsView::blank()),
        decreases cursor@.len(),
    {
        let (code, value) = read_frame(&mut cursor)?;
        fields = read_attribute(code, value, fields)?;
    }
    let group = match ItemGroup::from_u8(group) {
        Some(g) => g,
        None => {
            return Err(Error::Malformed);
        },
    };
    let server_id = match fields.server_id {
        Some(id) => id,
        None => {
            return Err(Error::Malformed);
        },
    };
    let client_id = match fields.client_id {
        Some(id) => id,
        None => {
            return Err(Error::Malformed);
        },
    };
    Ok(
        Item {
            group,
            flags,
            server_id,
            client_id,
            name: fields.name,
            ground_speed: fields.ground_speed,
            sprite_hash: fields.sprite_hash,
            minimap_color: fields.minimap_color,
            max_read_write_chars: fields.max_read_write_chars,
            max_read_chars: fields.max_read_chars,
            light: fields.light,
            stack_order: fields.stack_order,
            trade_as: fields.trade_as,
        },
    )
}

/// Decodes the version that a root node carries: see [`version_from`].
pub fn read_version(root: &Node) -> (r: Result<(u32, u32, u32), Error>)
    ensures
        match version_from(root@.payload) {
            Ok(v) => r == Ok::<(u32, u32, u32), Error>(v),
            Err(e) => r == Err::<(u32, u32, u32), Error>(e),
        },
{
    let payload = root.payload.clone();
    assert(payload@ =~= root.payload@);
    let mut cursor = ByteCursor::new(payload);
    let _kind = cursor.read_u8()?;
    let _flags = cursor.read_u32_le()?;
    if !cursor.has_remaining() {
        return Ok((0, 0, 0));
    }
    let attribute = cursor.read_u8()?;
    if attribute != ROOT_VERSION {
        return Ok((0, 0, 0));
    }
    let n = cursor.read_u16_le()?;
    let major = cursor.read_u32_le()?;
    let minor = cursor.read_u32_le()?;
    let build = cursor.read_u32_le()?;
    if n < VERSION_BYTES {
        return Err(Error::Malformed);
    }
    Ok((major, minor, build))
}

/// Rebuilds the node tree of an item index: see [`root_from`].
pub fn read_root(data: Vec<u8>) -> (r: Result<Node, Error>)
    ensures
        decoded(root_from(data@), r),
{
    let mut cursor = ByteCursor::new(data);
    cursor.skip(4)?;
    match read_token(&mut cursor)? {
        Token::Start => read_node(&mut cursor),
        _ => Err(Error::Malformed),
    }
}

impl Document {
    /// Every record stands under its own server id.
    pub open spec fn wf(&self) -> bool {
        forall|id: u16| #[trigger] self.items@.contains_key(id) ==> self.items@[id].server_id == id
    }
}

/// Interprets a rebuilt tree as an item index: see [`document_of`].
#[verifier::loop_isolation(false)]
pub fn read_document(root: &Node) -> (r: Result<Document, Error>)
    ensures
        decoded(document_of(root@), r),
        r matches Ok(d) ==> d.wf(),
{
    let (major_version, minor_version, build_version) = read_version(root)?;
    let mut items: HashMap<u16, Item> = HashMap::new();
    let mut index: usize = 0;
    assert(item_views(items@) =~= Map::<u16, ItemView>::empty());
    while index < root.children.len()
        invariant
            index <= root.children.len(),
            items_from(root@.children, index as int, item_views(items@)) == items_from(
                root@.children,
                0,
                Map::empty(),
            ),
            forall|id: u16| #[trigger] items@.contains_key(id) ==> items@[id].server_id == id,
        decreases root.children.len() - index,
    {
        let item = read_item(&root.children[index])?;
        let ghost before = items@;
        let ghost value = item@;
        let id = item.server_id;
        items.insert(id, item);
        assert(item_views(items@) =~= item_views(before).insert(id, value));
        index = index + 1;
    }
    Ok(Document { major_version, minor_version, build_version, items })
}

impl Parse<Document> for Vec<u8> {
    /// Decodes an item index. The result is the one that [`document`]
    /// defines; every record in it has a server id, under which it stands,
    /// and a client id. However deeply the nodes of the index are nested,
    /// decoding does not nest calls.
    fn parse(self) -> (r: Result<Document, Error>)
        ensures
            decoded::<Document>(document(self@), r),
            r matches Ok(d) ==> Document::wf(&d),
    {
        let root = read_root(self)?;
        let document = read_document(&root);
        dismantle(root);
        document
    }
}

} // verus!
