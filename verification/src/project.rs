//! What a viewer holds of a project, and how it takes in the messages that
//! carry the project.

use vstd::prelude::*;
use std::collections::HashMap;
use crate::model::item::{item_views, Item, ItemView};
use crate::model::position::Position;
use crate::model::tile::{Tile, TileView};
use crate::model::world::World;
use crate::transport::{placed_views, Message};

verus! {

/// The items of a project by their ids.
pub struct ProjectAssets {
    pub items: HashMap<u16, Item>,
}

/// The items and the world of a project.
pub struct ProjectData {
    pub assets: ProjectAssets,
    pub world: World,
}

/// What is being loaded.
#[derive(Debug, Clone, Copy, PartialEq, Eq, Structural)]
pub enum Stage {
    Items,
    World,
}

impl Stage {
    /// The label of the stage, as text.
    pub open spec fn label_text(self) -> Seq<char> {
        match self {
            Stage::Items => "Loading items"@,
            Stage::World => "Loading world"@,
        }
    }

    /// The label of the stage.
    pub fn label(self) -> (text: &'static str)
        ensures
            text@ == self.label_text(),
    {
        match self {
            Stage::Items => "Loading items",
            Stage::World => "Loading world",
        }
    }
}

/// What the loading loop does after a message.
#[derive(Debug, Clone, Copy, PartialEq, Eq, Structural)]
pub enum Action {
    /// Nothing: wait for the next message.
    Wait,
    /// Report that `done` of `total` are loaded, then wait for the next
    /// message.
    Report { done: usize, total: usize, stage: Stage },
    /// Everything has arrived: stop.
    Finish,
}

/// A project while it is loaded: what has arrived, and how many items and
/// tiles were announced.
pub struct Project {
    pub data: ProjectData,
    pub total_items: usize,
    pub total_tiles: usize,
}

/// The table `items` after the first `n` of `added` were put into it, one
/// after the other, each under its id.
pub open spec fn with_items(items: Map<u16, ItemView>, added: Seq<ItemView>, n: int) -> Map<
    u16,
    ItemView,
>
    decreases n,
{
    if n <= 0 {
        items
    } else {
        with_items(items, added, n - 1).insert(added[n - 1].id, added[n - 1])
    }
}

/// The tiles `tiles` after the first `n` of `added` were put into them,
/// one after the other, each at its place.
pub open spec fn with_tiles(tiles: Map<u64, TileView>, added: Seq<(Position, TileView)>, n: int) -> Map<
    u64,
    TileView,
>
    decreases n,
{
    if n <= 0 {
        tiles
    } else {
        with_tiles(tiles, added, n - 1).insert(added[n - 1].0.rank() as u64, added[n - 1].1)
    }
}

/// The places of the tiles `added`, in order.
pub open spec fn places_of(added: Seq<(Position, TileView)>) -> Seq<Position> {
    Seq::new(added.len(), |i: int| added[i].0)
}

impl Project {
    /// The items that have arrived, by their values.
    pub open spec fn items(&self) -> Map<u16, ItemView> {
        Map::new(
            |id: u16| self.data.assets.items@.contains_key(id),
            |id: u16| self.data.assets.items@[id]@,
        )
    }

    /// Every announced item and tile has arrived, and at least one of
    /// each was announced.
    pub open spec fn complete(&self) -> bool {
        &&& self.total_items > 0
        &&& self.data.assets.items@.len() == self.total_items
        &&& self.total_tiles > 0
        &&& self.data.world.tile_map().len() == self.total_tiles
    }

    /// What follows the arrival of items: stop when the project is
    /// complete, else report the number of items.
    pub open spec fn after_items(&self) -> Action {
        if self.complete() {
            Action::Finish
        } else {
            Action::Report {
                done: self.data.assets.items@.len() as usize,
                total: self.total_items,
                stage: Stage::Items,
            }
        }
    }

    /// What follows the arrival of one tile: stop when the project is
    /// complete, else report the number of tiles.
    pub open spec fn after_tile(&self) -> Action {
        if self.complete() {
            Action::Finish
        } else {
            Action::Report {
                done: self.data.world.tile_map().len() as usize,
                total: self.total_tiles,
                stage: Stage::World,
            }
        }
    }

    /// What follows the arrival of a batch of tiles: stop when the project
    /// is complete; else report the number of tiles, but only once every
    /// item has arrived.
    pub open spec fn after_tiles(&self) -> Action {
        if self.complete() {
            Action::Finish
        } else if self.data.assets.items@.len() == self.total_items {
            Action::Report {
                done: self.data.world.tile_map().len() as usize,
                total: self.total_tiles,
                stage: Stage::World,
            }
        } else {
            Action::Wait
        }
    }

    /// `self` differs from `before` in its items only.
    pub open spec fn same_world(&self, before: &Project) -> bool {
        &&& self.data.world == before.data.world
        &&& self.total_items == before.total_items
        &&& self.total_tiles == before.total_tiles
    }

    /// `self` differs from `before` in the tiles of its world and the
    /// tiles of its root area only, and the root area has the places
    /// `added` more.
    pub open spec fn same_items(&self, before: &Project, added: Seq<Position>) -> bool {
        &&& self.data.assets.items == before.data.assets.items
        &&& self.total_items == before.total_items
        &&& self.total_tiles == before.total_tiles
        &&& self.data.world.width() == before.data.world.width()
        &&& self.data.world.height() == before.data.world.height()
        &&& self.data.world.areas().len() == before.data.world.areas().len()
        &&& self.data.world.root_area().name() == before.data.world.root_area().name()
        &&& self.data.world.root_area().parent() == before.data.world.root_area().parent()
        &&& self.data.world.root_area().tiles() == before.data.world.root_area().tiles() + added
        &&& forall|i: int|
            1 <= i < self.data.world.areas().len() ==> self.data.world.areas()[i]
                == before.data.world.areas()[i]
    }

    /// A project of which nothing has arrived or been announced.
    pub fn new() -> (p: Self)
        ensures
            p.data.world.wf(),
            p.items() == Map::<u16, ItemView>::empty(),
            p.data.world.contents() == Map::<u64, TileView>::empty(),
            p.total_items == 0,
            p.total_tiles == 0,
    {
        let p = Project {
            data: ProjectData {
                assets: ProjectAssets { items: HashMap::new() },
                world: World::empty(),
            },
            total_items: 0,
            total_tiles: 0,
        };
        assert(p.items() =~= Map::<u16, ItemView>::empty());
        assert(p.data.world.contents() =~= Map::<u64, TileView>::empty());
        p
    }

    /// The number of tiles that have arrived.
    pub fn tiles_len(&self) -> (n: usize)
        ensures
            n == self.data.world.tile_map().len(),
    {
        self.data.world.tiles().len()
    }

    /// Whether every announced item and tile has arrived: see
    /// [`Project::complete`].
    pub fn is_complete(&self) -> (b: bool)
        ensures
            b == self.complete(),
    {
        self.total_items > 0 && self.data.assets.items.len() == self.total_items
            && self.total_tiles > 0 && self.data.world.tiles().len() == self.total_tiles
    }

    /// Puts the items of a batch into the table, one after the other.
    fn add_items(&mut self, items: Vec<Item>)
        ensures
            final(self).items() == with_items(
                old(self).items(),
                item_views(items@),
                items@.len() as int,
            ),
            final(self).same_world(old(self)),
    {
        let ghost added = item_views(items@);
        let ghost start = self.items();
        for item in it: items
            invariant
                it.seq() == items@,
                added == item_views(items@),
                start == old(self).items(),
                self.items() == with_items(start, added, it.index() as int),
                self.same_world(old(self)),
        {
            let ghost before = self.items();
            let ghost value = item@;
            self.data.assets.items.insert(item.id, item);
            assert(self.items() =~= before.insert(value.id, value));
        }
    }

    /// Puts the tiles of a batch into the world, one after the other.
    fn add_tiles(&mut self, tiles: Vec<(Position, Tile)>)
        requires
            old(self).data.world.wf(),
        ensures
            final(self).data.world.wf(),
            final(self).data.world.contents() == with_tiles(
                old(self).data.world.contents(),
                placed_views(tiles@),
                tiles@.len() as int,
            ),
            final(self).same_items(old(self), places_of(placed_views(tiles@))),
    {
        let ghost added = placed_views(tiles@);
        let ghost start = self.data.world.contents();
        assert(places_of(added).take(0) =~= Seq::<Position>::empty());
        assert(self.data.world.root_area().tiles() + places_of(added).take(0)
            =~= self.data.world.root_area().tiles());
        for placed in it: tiles
            invariant
                it.seq() == tiles@,
                added == placed_views(tiles@),
                start == old(self).data.world.contents(),
                self.data.world.wf(),
                self.data.world.contents() == with_tiles(start, added, it.index() as int),
                self.same_items(old(self), places_of(added).take(it.index() as int)),
        {
            let ghost before = self.data.world.contents();
            let ghost already = places_of(added).take(it.index() as int);
            let (position, tile) = placed;
            let ghost value = tile@;
            self.data.world.add_tile(position, tile);
            assert(self.data.world.contents() =~= before.insert(position.rank() as u64, value));
            assert(places_of(added).take(it.index() + 1) =~= already.push(position));
            assert(old(self).data.world.root_area().tiles() + already.push(position) =~= (old(
                self,
            ).data.world.root_area().tiles() + already).push(position));
        }
        assert(places_of(added).take(tiles@.len() as int) =~= places_of(added));
    }

    /// Takes in one message and says what the loading loop does next.
    ///
    /// A count is noted. An item or a batch of items is put into the
    /// table, and a tile or a batch of tiles into the world; after that
    /// the loop stops if everything announced has arrived, and else
    /// reports how far the stage is. Any other message changes nothing.
    pub fn receive(&mut self, message: Message) -> (action: Action)
        requires
            old(self).data.world.wf(),
        ensures
            final(self).data.world.wf(),
            match message {
                Message::ItemsCount(total) => {
                    &&& action == Action::Wait
                    &&& final(self).data == old(self).data
                    &&& final(self).total_items == total
                    &&& final(self).total_tiles == old(self).total_tiles
                },
                Message::MapTilesCount(total) => {
                    &&& action == Action::Wait
                    &&& final(self).data == old(self).data
                    &&& final(self).total_items == old(self).total_items
                    &&& final(self).total_tiles == total
                },
                Message::Item(item) => {
                    &&& action == final(self).after_items()
                    &&& final(self).items() == old(self).items().insert(item.id, item@)
                    &&& final(self).same_world(old(self))
                },
                Message::Items(items) => {
                    &&& action == final(self).after_items()
                    &&& final(self).items() == with_items(
                        old(self).items(),
                        item_views(items@),
                        items@.len() as int,
                    )
                    &&& final(self).same_world(old(self))
                },
                Message::MapTile(placed) => {
                    &&& action == final(self).after_tile()
                    &&& final(self).data.world.contents() == old(self).data.world.contents().insert(
                        placed.0.rank() as u64,
                        placed.1@,
                    )
                    &&& final(self).same_items(old(self), seq![placed.0])
                },
                Message::MapTiles(tiles) => {
                    &&& action == final(self).after_tiles()
                    &&& final(self).data.world.contents() == with_tiles(
                        old(self).data.world.contents(),
                        placed_views(tiles@),
                        tiles@.len() as int,
                    )
                    &&& final(self).same_items(old(self), places_of(placed_views(tiles@)))
                },
                _ => action == Action::Wait && *final(self) == *old(self),
            },
    {
        match message {
            Message::ItemsCount(total) => {
                self.total_items = total;
                Action::Wait
            },
            Message::MapTilesCount(total) => {
                self.total_tiles = total;
                Action::Wait
            },
            Message::Item(item) => {
                let ghost before = self.items();
                let ghost value = item@;
                self.data.assets.items.insert(item.id, item);
                assert(self.items() =~= before.insert(value.id, value));
                if self.is_complete() {
                    Action::Finish
                } else {
                    Action::Report {
                        done: self.data.assets.items.len(),
                        total: self.total_items,
                        stage: Stage::Items,
                    }
                }
            },
            Message::Items(items) => {
                self.add_items(items);
                if self.is_complete() {
                    Action::Finish
                } else {
                    Action::Report {
                        done: self.data.assets.items.len(),
                        total: self.total_items,
                        stage: Stage::Items,
                    }
                }
            },
            Message::MapTile(placed) => {
                let ghost before = self.data.world.contents();
                let ghost registered = self.data.world.root_area().tiles();
                let (position, tile) = placed;
                let ghost value = tile@;
                self.data.world.add_tile(position, tile);
                assert(self.data.world.contents() =~= before.insert(
                    position.rank() as u64,
                    value,
                ));
                assert(registered.push(position) =~= registered + seq![position]);
                if self.is_complete() {
                    Action::Finish
                } else {
                    Action::Report {
                        done: self.data.world.tiles().len(),
                        total: self.total_tiles,
                        stage: Stage::World,
                    }
                }
            },
            Message::MapTiles(tiles) => {
                self.add_tiles(tiles);
                if self.is_complete() {
                    Action::Finish
                } else if self.data.assets.items.len() == self.total_items {
                    Action::Report {
                        done: self.data.world.tiles().len(),
                        total: self.total_tiles,
                        stage: Stage::World,
                    }
                } else {
                    Action::Wait
                }
            },
            _ => Action::Wait,
        }
    }
}

} // verus!
