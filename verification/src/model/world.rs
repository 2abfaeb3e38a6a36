use vstd::prelude::*;
use std::collections::HashMap;
use super::area::Area;
use super::attribute::AttributesType;
use super::entity::Entity;
use super::position::Position;
use super::tile::{Tile, TileView};

verus! {

/// The assembled world: its declared size, its areas and its tiles. A tile
/// stands under the rank of its position ([`Position::rank`]), so that no
/// two tiles share a position.
pub struct World {
    width: u32,
    height: u32,
    areas: Vec<Area>,
    tiles: HashMap<u64, Tile>,
}

impl World {
    /// The declared width of the world.
    pub closed spec fn width(&self) -> u32 {
        self.width
    }

    /// The declared height of the world.
    pub closed spec fn height(&self) -> u32 {
        self.height
    }

    /// The areas of the world.
    pub closed spec fn areas(&self) -> Seq<Area> {
        self.areas@
    }

    /// The tiles of the world, each under the rank of its position.
    pub closed spec fn tile_map(&self) -> Map<u64, Tile> {
        self.tiles@
    }

    /// The tiles of the world by their values, each under the rank of its
    /// position.
    pub open spec fn contents(&self) -> Map<u64, TileView> {
        Map::new(|k: u64| self.tile_map().contains_key(k), |k: u64| self.tile_map()[k]@)
    }

    /// Whether a tile lies at `position`.
    pub open spec fn has_tile(&self, position: Position) -> bool {
        self.tile_map().contains_key(position.rank() as u64)
    }

    /// The tile at `position`.
    pub open spec fn tile_at(&self, position: Position) -> Tile {
        self.tile_map()[position.rank() as u64]
    }

    /// The first area is the root area.
    pub open spec fn wf(&self) -> bool {
        self.areas().len() >= 1 && self.areas()[0].is_root_area()
    }

    /// The root area.
    pub open spec fn root_area(&self) -> Area {
        self.areas()[0]
    }

    /// `self` is `before` with `position` added to the tiles of the root
    /// area, and with no other change to any area.
    pub open spec fn registered(&self, before: &World, position: Position) -> bool {
        &&& self.areas().len() == before.areas().len()
        &&& self.root_area().name() == before.root_area().name()
        &&& self.root_area().parent() == before.root_area().parent()
        &&& self.root_area().tiles() == before.root_area().tiles().push(position)
        &&& forall|i: int| 1 <= i < self.areas().len() ==> self.areas()[i] == before.areas()[i]
    }

    /// A world of the given size with the root area and no tiles.
    pub fn new(width: u32, height: u32) -> (w: Self)
        ensures
            w.wf(),
            w.width() == width,
            w.height() == height,
            w.areas().len() == 1,
            w.root_area().tiles() == Seq::<Position>::empty(),
            w.tile_map() == Map::<u64, Tile>::empty(),
    {
        let mut areas: Vec<Area> = Vec::new();
        areas.push(Area::root());
        World { width, height, areas, tiles: HashMap::new() }
    }

    /// A world of size zero with the root area and no tiles.
    pub fn empty() -> (w: Self)
        ensures
            w.wf(),
            w.width() == 0,
            w.height() == 0,
            w.areas().len() == 1,
            w.root_area().tiles() == Seq::<Position>::empty(),
            w.tile_map() == Map::<u64, Tile>::empty(),
    {
        World::new(0, 0)
    }

    /// Whether the first area is the root area: see [`World::wf`].
    pub fn is_well_formed(&self) -> (b: bool)
        ensures
            b == self.wf(),
    {
        self.areas.len() >= 1 && self.areas[0].is_root()
    }

    /// The declared width of the world.
    pub fn get_width(&self) -> (width: u32)
        ensures
            width == self.width(),
    {
        self.width
    }

    /// The declared height of the world.
    pub fn get_height(&self) -> (height: u32)
        ensures
            height == self.height(),
    {
        self.height
    }

    /// The areas of the world.
    pub fn get_areas(&self) -> (areas: &Vec<Area>)
        ensures
            areas@ == self.areas(),
    {
        &self.areas
    }

    /// The tile at `position`, if one lies there.
    pub fn get_tile(&self, position: &Position) -> (tile: Option<&Tile>)
        ensures
            match tile {
                Some(t) => self.has_tile(*position) && *t == self.tile_at(*position),
                None => !self.has_tile(*position),
            },
    {
        let key = position.key();
        self.tiles.get(&key)
    }

    /// Sets the declared width.
    pub fn set_width(&mut self, width: u32)
        ensures
            final(self).width() == width,
            final(self).height() == old(self).height(),
            final(self).areas() == old(self).areas(),
            final(self).tile_map() == old(self).tile_map(),
    {
        self.width = width;
    }

    /// Sets the declared height.
    pub fn set_height(&mut self, height: u32)
        ensures
            final(self).height() == height,
            final(self).width() == old(self).width(),
            final(self).areas() == old(self).areas(),
            final(self).tile_map() == old(self).tile_map(),
    {
        self.height = height;
    }

    /// The root area, to be changed in place.
    pub fn root_area_mut(&mut self) -> (area: &mut Area)
        requires
            old(self).wf(),
        ensures
            *area == old(self).root_area(),
            final(self).areas() == old(self).areas().update(0, *final(area)),
            final(self).width() == old(self).width(),
            final(self).height() == old(self).height(),
            final(self).tile_map() == old(self).tile_map(),
    {
        &mut self.areas[0]
    }

    /// Puts `tile` at `position`, in the place of a tile that was there,
    /// and adds the position to the root area.
    pub fn add_tile(&mut self, position: Position, tile: Tile)
        requires
            old(self).wf(),
        ensures
            final(self).wf(),
            final(self).tile_map() == old(self).tile_map().insert(position.rank() as u64, tile),
            final(self).registered(old(self), position),
            final(self).width() == old(self).width(),
            final(self).height() == old(self).height(),
    {
        self.tiles.insert(position.key(), tile);
        self.areas[0].add_tile(position);
    }

    /// Adds `entity` to the tile at `position`: at the index `index`, or
    /// behind the others when `index` is `None`. Where no tile lies yet, a
    /// tile with this one entity is put there and the position is added to
    /// the root area. The index must not lie behind the end of the tile's
    /// entities.
    pub fn add_entity(&mut self, position: Position, entity: Entity, index: Option<u8>)
        requires
            old(self).wf(),
            old(self).has_tile(position) ==> (index matches Some(i) ==> i <= old(self).tile_at(
                position,
            ).entities@.len()),
        ensures
            final(self).wf(),
            final(self).width() == old(self).width(),
            final(self).height() == old(self).height(),
            final(self).tile_map().dom() == old(self).tile_map().dom().insert(
                position.rank() as u64,
            ),
            forall|k: u64|
                k != position.rank() && old(self).tile_map().contains_key(k)
                    ==> final(self).tile_map()[k] == old(self).tile_map()[k],
            old(self).has_tile(position) ==> {
                &&& final(self).areas() == old(self).areas()
                &&& final(self).tile_at(position).attributes == old(self).tile_at(
                    position,
                ).attributes
                &&& final(self).tile_at(position).entities@ == old(self).tile_at(
                    position,
                ).entities@.insert(
                    match index {
                        Some(i) => i as int,
                        None => old(self).tile_at(position).entities@.len() as int,
                    },
                    entity,
                )
            },
            !old(self).has_tile(position) ==> {
                &&& final(self).registered(old(self), position)
                &&& final(self).tile_at(position).attributes == (AttributesType {
                    container: None,
                    count: None,
                    fluid: None,
                    item: None,
                })
                &&& final(self).tile_at(position).entities@ == seq![entity]
            },
    {
        let key = position.key();
        match self.tiles.remove(&key) {
            Some(tile) => {
                let mut tile = tile;
                let at: usize = match index {
                    Some(i) => i as usize,
                    None => tile.entities.len(),
                };
                tile.entities.insert(at, entity);
                self.tiles.insert(key, tile);
                assert(self.tile_map().dom() =~= old(self).tile_map().dom().insert(key));
            },
            None => {
                let mut entities: Vec<Entity> = Vec::new();
                entities.push(entity);
                self.tiles.insert(key, Tile::with_entities(entities));
                self.areas[0].add_tile(position);
                assert(self.tile_map().dom() =~= old(self).tile_map().dom().insert(key));
            },
        }
    }

    /// The tiles of the world, each under the rank of its position.
    pub fn tiles(&self) -> (tiles: &HashMap<u64, Tile>)
        ensures
            tiles@ == self.tile_map(),
    {
        &self.tiles
    }

    /// The tiles of the world, given away.
    pub fn into_tiles(self) -> (tiles: HashMap<u64, Tile>)
        ensures
            tiles@ == self.tile_map(),
    {
        self.tiles
    }
}

} // verus!
