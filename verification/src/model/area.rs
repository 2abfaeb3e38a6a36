use vstd::prelude::*;
use super::position::Position;

verus! {

/// The name of the root area, as text.
pub open spec fn root_name() -> Seq<char> {
    "root"@
}

/// A named region of the world: the name of the area it belongs to, if
/// any, and the positions of its tiles.
#[derive(Debug)]
pub struct Area {
    name: String,
    parent: Option<String>,
    tiles: Vec<Position>,
}

impl Area {
    /// The name of the area.
    pub closed spec fn name(&self) -> Seq<char> {
        self.name@
    }

    /// The name of the area that this one belongs to.
    pub closed spec fn parent(&self) -> Option<Seq<char>> {
        match self.parent {
            Some(p) => Some(p@),
            None => None,
        }
    }

    /// The positions of the area's tiles, in the order they were added.
    pub closed spec fn tiles(&self) -> Seq<Position> {
        self.tiles@
    }

    /// The area is the root area.
    pub open spec fn is_root_area(&self) -> bool {
        self.name() == root_name()
    }

    /// An area with the given name, parent and tiles; without tiles when
    /// `tiles` is `None`.
    pub fn new(name: String, parent: Option<String>, tiles: Option<Vec<Position>>) -> (a: Self)
        ensures
            a.name() == name@,
            a.parent() == match parent {
                Some(p) => Some(p@),
                None => None,
            },
            a.tiles() == match tiles {
                Some(t) => t@,
                None => Seq::<Position>::empty(),
            },
    {
        let tiles = match tiles {
            Some(t) => t,
            None => Vec::new(),
        };
        Area { name, parent, tiles }
    }

    /// The root area, without tiles.
    pub fn root() -> (a: Self)
        ensures
            a.is_root_area(),
            a.parent() is None,
            a.tiles() == Seq::<Position>::empty(),
    {
        Area::new("root".to_owned(), None, None)
    }

    /// The name of the area.
    pub fn get_name(&self) -> (name: &String)
        ensures
            name@ == self.name(),
    {
        &self.name
    }

    /// The name of the area that this one belongs to.
    pub fn get_parent(&self) -> (parent: &Option<String>)
        ensures
            self.parent() == match *parent {
                Some(p) => Some(p@),
                None => None,
            },
    {
        &self.parent
    }

    /// The positions of the area's tiles, in the order they were added.
    pub fn get_tiles(&self) -> (tiles: &Vec<Position>)
        ensures
            tiles@ == self.tiles(),
    {
        &self.tiles
    }

    /// Whether the area is the root area.
    pub fn is_root(&self) -> (b: bool)
        ensures
            b == self.is_root_area(),
    {
        let root = "root".to_owned();
        self.name == root
    }

    /// Adds the position of a tile to the area.
    pub fn add_tile(&mut self, position: Position)
        ensures
            final(self).tiles() == old(self).tiles().push(position),
            final(self).name() == old(self).name(),
            final(self).parent() == old(self).parent(),
    {
        self.tiles.push(position);
    }
}

impl Clone for Area {
    fn clone(&self) -> (a: Self)
        ensures
            a.name() == self.name(),
            a.parent() == self.parent(),
            a.tiles() == self.tiles(),
    {
        let parent = match &self.parent {
            Some(p) => Some(p.clone()),
            None => None,
        };
        let mut tiles: Vec<Position> = Vec::new();
        let mut i: usize = 0;
        while i < self.tiles.len()
            invariant
                i <= self.tiles.len(),
                tiles@ == self.tiles@.take(i as int),
            decreases self.tiles.len() - i,
        {
            let p = &self.tiles[i];
            tiles.push(Position { x: p.x, y: p.y, z: p.z, stack_pos: p.stack_pos });
            i = i + 1;
            assert(tiles@ =~= self.tiles@.take(i as int));
        }
        assert(tiles@ =~= self.tiles@);
        Area { name: self.name.clone(), parent, tiles }
    }
}

} // verus!
