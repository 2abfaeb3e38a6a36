//! The four binary decoders and the byte cursor they share.

use vstd::prelude::*;

pub mod cursor;
pub mod dat;
pub mod otb;
pub mod otbm;
pub mod spr;
pub mod tree;

verus! {

/// Why a document could not be decoded.
#[derive(Debug, Clone, Copy, PartialEq, Eq, Structural)]
pub enum Error {
    /// The bytes ended where more were required.
    Truncated,
    /// Enough bytes, but a value breaks a structural rule of the format.
    Malformed,
    /// A map item names a server id that the item index does not hold.
    UnresolvedReference { id: u16, position: otbm::Position },
    /// The file could not be read at all.
    Io,
}

/// A source of bytes that decodes into a document of type `T`.
pub trait Parse<T>: Sized {
    /// Decodes the whole document, or says why it cannot be decoded.
    fn parse(self) -> Result<T, Error>;
}

} // verus!
