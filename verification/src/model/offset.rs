use vstd::prelude::*;

verus! {

/// A pixel offset on both axes.
#[derive(Debug, Clone, Copy, PartialEq, Eq, Structural)]
pub struct Offset {
    pub x: u16,
    pub y: u16,
}

impl Default for Offset {
    fn default() -> (o: Self)
        ensures
            o == (Offset { x: 0, y: 0 }),
    {
        Offset { x: 0, y: 0 }
    }
}

} // verus!
