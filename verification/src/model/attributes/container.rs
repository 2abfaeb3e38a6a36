use vstd::prelude::*;
use crate::model::entity::Entity;

verus! {

/// The entities inside a container, in order.
#[derive(Debug)]
pub struct Container(pub Vec<Entity>);

} // verus!
