use vstd::prelude::*;
use super::attribute::AttributesType;
use super::entity::{attributes_view, entity_views, Entity, EntityView};

verus! {

/// One tile of the assembled world: its own attributes and the entities on
/// it, the ground first.
#[derive(Debug)]
pub struct Tile {
    pub attributes: AttributesType,
    pub entities: Vec<Entity>,
}

/// The mathematical value of a [`Tile`].
pub struct TileView {
    pub attributes: EntityView,
    pub entities: Seq<EntityView>,
}

impl View for Tile {
    type V = TileView;

    open spec fn view(&self) -> TileView {
        TileView {
            attributes: attributes_view(self.attributes),
            entities: entity_views(self.entities@),
        }
    }
}

impl Default for Tile {
    fn default() -> (t: Self)
        ensures
            t@ == (TileView { attributes: EntityView::blank(), entities: Seq::empty() }),
    {
        let t = Tile { attributes: AttributesType::new(), entities: Vec::new() };
        assert(t@.entities =~= Seq::<EntityView>::empty());
        t
    }
}

impl Tile {
    /// A tile with the given entities and no attributes of its own.
    pub fn with_entities(entities: Vec<Entity>) -> (t: Self)
        ensures
            t.entities == entities,
            t.attributes == (AttributesType { container: None, count: None, fluid: None, item: None }),
            t@ == (TileView { attributes: EntityView::blank(), entities: entity_views(entities@) }),
    {
        Tile { attributes: AttributesType::new(), entities }
    }
}

} // verus!
