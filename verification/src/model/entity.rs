use vstd::prelude::*;
use super::attribute::AttributesType;
use super::attributes::Container;

verus! {

/// A thing in the assembled world: its attributes, at most one of each
/// kind. The container attribute holds further entities.
#[derive(Debug)]
pub struct Entity {
    pub attributes: AttributesType,
}

/// The mathematical value of an [`Entity`].
pub struct EntityView {
    pub item: Option<u16>,
    pub count: Option<u8>,
    pub fluid: Option<u8>,
    pub container: Option<Seq<EntityView>>,
}

impl EntityView {
    /// An entity without attributes.
    pub open spec fn blank() -> EntityView {
        EntityView { item: None, count: None, fluid: None, container: None }
    }
}

/// The value of a set of attributes: the value of each, the entities in
/// the container by their values.
pub open spec fn attributes_view(attributes: AttributesType) -> EntityView
    decreases attributes,
{
    EntityView {
        item: match attributes.item {
            Some(i) => Some(i.0),
            None => None,
        },
        count: match attributes.count {
            Some(c) => Some(c.0),
            None => None,
        },
        fluid: match attributes.fluid {
            Some(f) => Some(f.0),
            None => None,
        },
        container: match attributes.container {
            Some(c) => Some(
                Seq::new(
                    c.0@.len(),
                    |i: int|
                        if 0 <= i < c.0@.len() {
                            entity_view(c.0@[i])
                        } else {
                            arbitrary()
                        },
                ),
            ),
            None => None,
        },
    }
}

/// The value of an entity: the value of its attributes.
pub open spec fn entity_view(entity: Entity) -> EntityView
    decreases entity,
{
    attributes_view(entity.attributes)
}

/// The values of a list of entities.
pub open spec fn entity_views(entities: Seq<Entity>) -> Seq<EntityView> {
    Seq::new(entities.len(), |i: int| entity_view(entities[i]))
}

impl View for Entity {
    type V = EntityView;

    open spec fn view(&self) -> EntityView {
        entity_view(*self)
    }
}

impl Default for Entity {
    fn default() -> (e: Self)
        ensures
            e@ == EntityView::blank(),
    {
        Entity { attributes: AttributesType::new() }
    }
}

impl Entity {
    /// An entity without attributes.
    pub fn new() -> (e: Self)
        ensures
            e@ == EntityView::blank(),
    {
        Entity { attributes: AttributesType::new() }
    }
}

} // verus!
