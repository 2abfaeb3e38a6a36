use vstd::prelude::*;

verus! {

/// How many of a stackable item.
#[derive(Debug, Clone, Copy, PartialEq, Eq, Structural)]
pub struct Count(pub u8);

} // verus!
