use vstd::prelude::*;
use super::attributes::{Container, Count, Fluid, Item};

verus! {

/// One typed value of an entity.
#[derive(Debug)]
pub enum Attribute {
    Container(Container),
    Count(Count),
    Fluid(Fluid),
    Item(Item),
}

/// The four kinds of attribute.
#[derive(Debug, Clone, Copy, PartialEq, Eq, Structural, Hash)]
pub enum AttributeKind {
    Container,
    Count,
    Fluid,
    Item,
}

impl AttributeKind {
    /// The name of the kind, in snake case.
    pub open spec fn name(self) -> Seq<char> {
        match self {
            AttributeKind::Container => "container"@,
            AttributeKind::Count => "count"@,
            AttributeKind::Fluid => "fluid"@,
            AttributeKind::Item => "item"@,
        }
    }

    /// The name of the kind, in snake case.
    pub fn as_name(self) -> (name: &'static str)
        ensures
            name@ == self.name(),
    {
        match self {
            AttributeKind::Container => "container",
            AttributeKind::Count => "count",
            AttributeKind::Fluid => "fluid",
            AttributeKind::Item => "item",
        }
    }
}

impl Attribute {
    /// The kind of the attribute.
    pub open spec fn kind_of(&self) -> AttributeKind {
        match self {
            Attribute::Container(_) => AttributeKind::Container,
            Attribute::Count(_) => AttributeKind::Count,
            Attribute::Fluid(_) => AttributeKind::Fluid,
            Attribute::Item(_) => AttributeKind::Item,
        }
    }

    /// The kind of the attribute.
    pub fn kind(&self) -> (k: AttributeKind)
        ensures
            k == self.kind_of(),
    {
        match self {
            Attribute::Container(_) => AttributeKind::Container,
            Attribute::Count(_) => AttributeKind::Count,
            Attribute::Fluid(_) => AttributeKind::Fluid,
            Attribute::Item(_) => AttributeKind::Item,
        }
    }

    /// The name under which the attribute stands in an entity.
    pub fn name(&self) -> (name: &'static str)
        ensures
            name@ == self.kind_of().name(),
    {
        self.kind().as_name()
    }
}

/// One typed value of an entity, under the name it has in a table of
/// attributes.
pub type AttributeType = Attribute;

/// The attributes of an entity or a tile: at most one of each kind.
#[derive(Debug)]
pub struct AttributesType {
    pub container: Option<Container>,
    pub count: Option<Count>,
    pub fluid: Option<Fluid>,
    pub item: Option<Item>,
}

impl AttributesType {
    /// No attribute of any kind.
    pub fn new() -> (a: Self)
        ensures
            a.container is None,
            a.count is None,
            a.fluid is None,
            a.item is None,
    {
        AttributesType { container: None, count: None, fluid: None, item: None }
    }

    /// Whether an attribute of the kind `kind` is there.
    pub open spec fn has(&self, kind: AttributeKind) -> bool {
        match kind {
            AttributeKind::Container => self.container is Some,
            AttributeKind::Count => self.count is Some,
            AttributeKind::Fluid => self.fluid is Some,
            AttributeKind::Item => self.item is Some,
        }
    }

    /// Whether an attribute of the kind `kind` is there.
    pub fn contains(&self, kind: AttributeKind) -> (b: bool)
        ensures
            b == self.has(kind),
    {
        match kind {
            AttributeKind::Container => self.container.is_some(),
            AttributeKind::Count => self.count.is_some(),
            AttributeKind::Fluid => self.fluid.is_some(),
            AttributeKind::Item => self.item.is_some(),
        }
    }

    /// The number of attributes.
    pub fn len(&self) -> (n: usize)
        ensures
            n == (if self.container is Some { 1int } else { 0 }) + (if self.count is Some {
                1int
            } else {
                0
            }) + (if self.fluid is Some { 1int } else { 0 }) + (if self.item is Some {
                1int
            } else {
                0
            }),
    {
        let mut n: usize = 0;
        if self.container.is_some() {
            n = n + 1;
        }
        if self.count.is_some() {
            n = n + 1;
        }
        if self.fluid.is_some() {
            n = n + 1;
        }
        if self.item.is_some() {
            n = n + 1;
        }
        n
    }

    /// Puts `attribute` in the place of its kind; an attribute of that kind
    /// that was there is replaced. The other kinds stay as they are.
    pub fn insert(&mut self, attribute: Attribute)
        ensures
            match attribute {
                Attribute::Container(c) => *final(self) == (AttributesType {
                    container: Some(c),
                    ..*old(self)
                }),
                Attribute::Count(c) => *final(self) == (AttributesType {
                    count: Some(c),
                    ..*old(self)
                }),
                Attribute::Fluid(f) => *final(self) == (AttributesType {
                    fluid: Some(f),
                    ..*old(self)
                }),
                Attribute::Item(i) => *final(self) == (AttributesType {
                    item: Some(i),
                    ..*old(self)
                }),
            },
    {
        match attribute {
            Attribute::Container(c) => {
                self.container = Some(c);
            },
            Attribute::Count(c) => {
                self.count = Some(c);
            },
            Attribute::Fluid(f) => {
                self.fluid = Some(f);
            },
            Attribute::Item(i) => {
                self.item = Some(i);
            },
        }
    }
}

} // verus!
