use vstd::prelude::*;

verus! {

/// The client id of an item.
#[derive(Debug, Clone, Copy, PartialEq, Eq, Structural)]
pub struct Item(pub u16);

} // verus!
