use vstd::prelude::*;

verus! {

/// A sprite by its id and its pixel bytes.
#[derive(Debug, Clone)]
pub struct Sprite {
    id: u16,
    pixels: Vec<u8>,
}

impl Sprite {
    /// The side of a sprite, in pixels.
    pub const SIZE: u16 = 32;

    /// The number of bytes of a sprite: four for each pixel.
    pub const BYTES: u16 = 4096;

    /// The id of the sprite.
    pub closed spec fn spec_id(&self) -> u16 {
        self.id
    }

    /// The pixel bytes of the sprite.
    pub closed spec fn spec_pixels(&self) -> Seq<u8> {
        self.pixels@
    }

    /// A sprite with the id `id` and the pixel bytes `pixels`.
    pub fn new(id: u16, pixels: Vec<u8>) -> (s: Self)
        ensures
            s.spec_id() == id,
            s.spec_pixels() == pixels@,
    {
        Sprite { id, pixels }
    }

    /// The id of the sprite.
    pub fn id(&self) -> (id: u16)
        ensures
            id == self.spec_id(),
    {
        self.id
    }

    /// The pixel bytes of the sprite.
    pub fn pixels(&self) -> (pixels: &[u8])
        ensures
            pixels@ == self.spec_pixels(),
    {
        self.pixels.as_slice()
    }
}

} // verus!
