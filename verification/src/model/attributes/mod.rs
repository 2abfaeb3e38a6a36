//! The typed values that an entity can carry, one type for each kind.

pub mod container;
pub mod count;
pub mod fluid;
pub mod item;

pub use container::Container;
pub use count::Count;
pub use fluid::Fluid;
pub use item::Item;
