//! What is handed to a transport: counts and batches of items and tiles.

use vstd::prelude::*;
use crate::model::item::{item_views, Item, ItemView};
use crate::model::position::Position;
use crate::model::tile::{Tile, TileView};

verus! {

/// Why a message could not be handed over.
#[derive(Debug, Clone, Copy, PartialEq, Eq, Structural)]
pub enum Error {
    Something,
    WebSocket,
}

/// One message to the viewer.
#[derive(Debug)]
pub enum Message {
    Bytes(Vec<u8>),
    ItemsCount(usize),
    Item(Item),
    Items(Vec<Item>),
    MapTilesCount(usize),
    MapTile((Position, Tile)),
    MapTiles(Vec<(Position, Tile)>),
    Loaded,
}

/// The mathematical value of a [`Message`].
pub enum MessageView {
    Bytes(Seq<u8>),
    ItemsCount(usize),
    Item(ItemView),
    Items(Seq<ItemView>),
    MapTilesCount(usize),
    MapTile((Position, TileView)),
    MapTiles(Seq<(Position, TileView)>),
    Loaded,
}

/// The values of a list of placed tiles.
pub open spec fn placed_views(tiles: Seq<(Position, Tile)>) -> Seq<(Position, TileView)> {
    Seq::new(tiles.len(), |i: int| (tiles[i].0, tiles[i].1@))
}

impl View for Message {
    type V = MessageView;

    open spec fn view(&self) -> MessageView {
        match self {
            Message::Bytes(b) => MessageView::Bytes(b@),
            Message::ItemsCount(n) => MessageView::ItemsCount(*n),
            Message::Item(item) => MessageView::Item(item@),
            Message::Items(items) => MessageView::Items(item_views(items@)),
            Message::MapTilesCount(n) => MessageView::MapTilesCount(*n),
            Message::MapTile(placed) => MessageView::MapTile((placed.0, placed.1@)),
            Message::MapTiles(tiles) => MessageView::MapTiles(placed_views(tiles@)),
            Message::Loaded => MessageView::Loaded,
        }
    }
}

/// The values of a list of messages.
pub open spec fn message_views(messages: Seq<Message>) -> Seq<MessageView> {
    Seq::new(messages.len(), |i: int| messages[i]@)
}

} // verus!
