use vstd::prelude::*;

verus! {

/// The fluid in a fluid container or a splash.
#[derive(Debug, Clone, Copy, PartialEq, Eq, Structural)]
pub struct Fluid(pub u8);

} // verus!
