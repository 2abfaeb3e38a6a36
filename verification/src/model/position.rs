use vstd::prelude::*;
use std::cmp::Ordering;

verus! {

/// A place in the world: column, row, floor, and optionally an index into
/// the stack of things that lie there.
#[derive(Debug, Clone, Copy, PartialEq, Eq, Structural, Hash)]
pub struct Position {
    pub x: u16,
    pub y: u16,
    pub z: u8,
    pub stack_pos: Option<u16>,
}

/// The number that stands for a stack index: zero for none, else one more
/// than the index.
pub open spec fn stack_code(stack_pos: Option<u16>) -> int {
    match stack_pos {
        None => 0,
        Some(n) => n + 1,
    }
}

impl Position {
    /// The rank of a position in the order of positions: the floor counts
    /// most, then the row, then the column, then the stack index.
    pub open spec fn rank(&self) -> int {
        ((self.z * 65536 + self.y) * 65536 + self.x) * 65537 + stack_code(self.stack_pos)
    }

    /// `self` comes strictly before `other`.
    pub open spec fn precedes(&self, other: &Position) -> bool {
        self.rank() < other.rank()
    }

    /// The same position in the column `x`.
    pub fn x(self, x: u16) -> (p: Self)
        ensures
            p == (Position { x, ..self }),
    {
        let mut p = self;
        p.x = x;
        p
    }

    /// The same position in the row `y`.
    pub fn y(self, y: u16) -> (p: Self)
        ensures
            p == (Position { y, ..self }),
    {
        let mut p = self;
        p.y = y;
        p
    }

    /// The same position on the floor `z`.
    pub fn z(self, z: u8) -> (p: Self)
        ensures
            p == (Position { z, ..self }),
    {
        let mut p = self;
        p.z = z;
        p
    }

    /// The same position with the stack index `stack_pos`.
    pub fn stack_pos(self, stack_pos: Option<u16>) -> (p: Self)
        ensures
            p == (Position { stack_pos, ..self }),
    {
        let mut p = self;
        p.stack_pos = stack_pos;
        p
    }

    /// How far `second` lies from `self` on each axis.
    pub fn diff(&self, second: Position) -> (d: (i32, i32, i32))
        ensures
            d.0 == second.x - self.x,
            d.1 == second.y - self.y,
            d.2 == second.z - self.z,
    {
        (
            (second.x as i32) - (self.x as i32),
            (second.y as i32) - (self.y as i32),
            (second.z as i32) - (self.z as i32),
        )
    }

    /// The rank of the position as a number: equal for equal positions
    /// only, and smaller for the position that comes first.
    pub fn key(&self) -> (k: u64)
        ensures
            k == self.rank(),
    {
        let code: u64 = match self.stack_pos {
            None => 0,
            Some(n) => n as u64 + 1,
        };
        ((self.z as u64 * 65536 + self.y as u64) * 65536 + self.x as u64) * 65537 + code
    }

    /// The position with the rank `key`, if `key` is the rank of one.
    pub fn from_key(key: u64) -> (p: Option<Position>)
        ensures
            match p {
                Some(q) => q.rank() == key,
                None => forall|q: Position| q.rank() != key,
            },
    {
        let code = key % 65537;
        let rest = key / 65537;
        let x = rest % 65536;
        let rest = rest / 65536;
        let y = rest % 65536;
        let z = rest / 65536;
        if z > 255 {
            return None;
        }
        let stack_pos = if code == 0 {
            None
        } else {
            Some((code - 1) as u16)
        };
        Some(Position { x: x as u16, y: y as u16, z: z as u8, stack_pos })
    }

    /// Two positions with the same rank are the same position.
    pub proof fn lemma_rank_injective(a: Position, b: Position)
        requires
            a.rank() == b.rank(),
        ensures
            a == b,
    {
    }

    /// The order of positions goes by floor, then row, then column.
    pub proof fn lemma_order_by_floor_row_column(a: Position, b: Position)
        ensures
            a.z < b.z ==> a.precedes(&b),
            a.z == b.z && a.y < b.y ==> a.precedes(&b),
            a.z == b.z && a.y == b.y && a.x < b.x ==> a.precedes(&b),
            a.z == b.z && a.y == b.y && a.x == b.x ==> (a.precedes(&b) <==> stack_code(a.stack_pos)
                < stack_code(b.stack_pos)),
    {
    }

    /// The order of positions is total: of two positions exactly one comes
    /// first, unless they are equal; and it is transitive.
    pub proof fn lemma_order_total(a: Position, b: Position, c: Position)
        ensures
            a.precedes(&b) || b.precedes(&a) || a == b,
            !(a.precedes(&b) && b.precedes(&a)),
            !a.precedes(&a),
            a.precedes(&b) && b.precedes(&c) ==> a.precedes(&c),
    {
        if !a.precedes(&b) && !b.precedes(&a) {
            Self::lemma_rank_injective(a, b);
        }
    }
}

impl PartialOrd for Position {
    fn partial_cmp(&self, other: &Position) -> (r: Option<Ordering>) {
        let a = self.key();
        let b = other.key();
        if a < b {
            Some(Ordering::Less)
        } else if a > b {
            Some(Ordering::Greater)
        } else {
            Some(Ordering::Equal)
        }
    }
}

impl vstd::std_specs::cmp::PartialOrdSpecImpl for Position {
    open spec fn obeys_partial_cmp_spec() -> bool {
        true
    }

    open spec fn partial_cmp_spec(&self, other: &Position) -> Option<Ordering> {
        if self.rank() < other.rank() {
            Some(Ordering::Less)
        } else if self.rank() > other.rank() {
            Some(Ordering::Greater)
        } else {
            Some(Ordering::Equal)
        }
    }
}

/// The position in the column `x` and the row `y` on the floor `z`, without
/// a stack index.
#[allow(non_snake_case)]
pub fn Position(x: u16, y: u16, z: u8) -> (p: Position)
    ensures
        p == (Position { x, y, z, stack_pos: None }),
{
    Position { x, y, z, stack_pos: None }
}

} // verus!
