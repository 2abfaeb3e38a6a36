//! The sprite atlas: a table of offsets, and behind each offset one sprite
//! of 32 by 32 pixels, stored as runs of transparent and coloured pixels.

use vstd::prelude::*;
use std::collections::HashMap;
use bytes::{BufMut, BytesMut};
use super::cursor::{decoded, le16, outcome, take_u16, take_u32, ByteCursor};
use super::Parse;

verus! {

/// The side of a sprite, in pixels.
pub const SPRITE_SIZE: usize = 32;

/// The number of pixels of a sprite.
pub const SPRITE_PIXELS: usize = 1024;

/// The number of bytes of one RGBA pixel.
pub const BYTES_PER_PIXEL: usize = 4;

/// The number of bytes of a decoded sprite.
pub const SPRITE_BYTES: usize = 4096;

/// The number of bytes that stand before a sprite's budget of run bytes.
pub const SPRITE_HEADER: usize = 3;

/// Why a sprite could not be decoded.
#[derive(Debug, Clone, Copy, PartialEq, Eq, Structural)]
pub enum Error {
    /// The sprite's bytes end too early, or its offset lies outside the
    /// atlas.
    Malformed,
}

impl From<Error> for super::Error {
    fn from(value: Error) -> (e: super::Error)
        ensures
            e == super::Error::Malformed,
    {
        super::Error::Malformed
    }
}

impl vstd::std_specs::convert::FromSpecImpl<Error> for super::Error {
    open spec fn obeys_from_spec() -> bool {
        true
    }

    open spec fn from_spec(value: Error) -> super::Error {
        super::Error::Malformed
    }
}

/// `bytes::BytesMut`, a growing buffer of bytes that is written at the
/// end. Nothing of its inside is known here; what it holds is named by
/// [`written`].
#[verifier::external_type_specification]
#[verifier::external_body]
pub struct ExBytesMut(bytes::BytesMut);

/// The bytes that were written to a `bytes::BytesMut`, in writing order.
pub uninterp spec fn written(b: BytesMut) -> Seq<u8>;

/// The four bytes of `n`, highest first.
pub open spec fn be32(n: u32) -> Seq<u8> {
    seq![
        (n / 16777216) as u8,
        ((n / 65536) % 256) as u8,
        ((n / 256) % 256) as u8,
        (n % 256) as u8,
    ]
}

/// `BytesMut::new`: an empty buffer.
#[verifier::external_body]
fn buffer_new() -> (b: BytesMut)
    ensures
        written(b) == Seq::<u8>::empty(),
{
    BytesMut::new()
}

/// `BufMut::put_u8` on `BytesMut`: appends one byte; the buffer grows as
/// needed.
#[verifier::external_body]
fn buffer_put_u8(b: &mut BytesMut, value: u8)
    ensures
        written(*final(b)) == written(*old(b)).push(value),
{
    b.put_u8(value)
}

/// `BufMut::put_u32` on `BytesMut`: appends the four bytes of `value`,
/// highest first; the buffer grows as needed.
#[verifier::external_body]
fn buffer_put_u32(b: &mut BytesMut, value: u32)
    ensures
        written(*final(b)) == written(*old(b)) + be32(value),
{
    b.put_u32(value)
}

/// `BufMut::put_slice` on `BytesMut`: appends the bytes of `data`; the
/// buffer grows as needed.
#[verifier::external_body]
fn buffer_put_slice(b: &mut BytesMut, data: &Vec<u8>)
    ensures
        written(*final(b)) == written(*old(b)) + data@,
{
    b.put_slice(data)
}

/// `to_vec` on the bytes of a `BytesMut`: a vector of what was written.
#[verifier::external_body]
fn buffer_to_vec(b: &BytesMut) -> (data: Vec<u8>)
    ensures
        data@ == written(*b),
{
    b.to_vec()
}

/// The pixels of one sprite: 4096 bytes, four (red, green, blue, alpha) for
/// each pixel, row by row.
#[derive(Debug)]
pub struct SpriteBytes {
    pixels: Vec<u8>,
}

impl View for SpriteBytes {
    type V = Seq<u8>;

    closed spec fn view(&self) -> Seq<u8> {
        self.pixels@
    }
}

impl SpriteBytes {
    #[verifier::type_invariant]
    spec fn well_formed(&self) -> bool {
        self.pixels@.len() == SPRITE_BYTES
    }

    /// The pixel bytes.
    pub fn as_vec(&self) -> (v: &Vec<u8>)
        ensures
            v@ == self@,
            v@.len() == SPRITE_BYTES,
    {
        proof {
            use_type_invariant(self);
        }
        &self.pixels
    }
}

impl TryFrom<Vec<u8>> for SpriteBytes {
    type Error = Error;

    /// Accepts a pixel buffer of exactly 4096 bytes; any other length is
    /// `Malformed`.
    fn try_from(value: Vec<u8>) -> (r: Result<SpriteBytes, Error>)
        ensures
            match r {
                Ok(s) => value@.len() == SPRITE_BYTES && s@ == value@,
                Err(e) => value@.len() != SPRITE_BYTES && e == Error::Malformed,
            },
    {
        if value.len() == SPRITE_BYTES {
            Ok(SpriteBytes { pixels: value })
        } else {
            Err(Error::Malformed)
        }
    }
}

impl vstd::std_specs::convert::TryFromSpecImpl<Vec<u8>> for SpriteBytes {
    open spec fn obeys_try_from_spec() -> bool {
        true
    }

    closed spec fn try_from_spec(value: Vec<u8>) -> Result<SpriteBytes, Error> {
        if value@.len() == SPRITE_BYTES {
            Ok(SpriteBytes { pixels: value })
        } else {
            Err(Error::Malformed)
        }
    }
}

impl vstd::std_specs::convert::FromSpecImpl<SpriteBytes> for Vec<u8> {
    open spec fn obeys_from_spec() -> bool {
        true
    }

    closed spec fn from_spec(value: SpriteBytes) -> Vec<u8> {
        value.pixels
    }
}

impl From<SpriteBytes> for Vec<u8> {
    /// The pixel bytes, given away.
    fn from(value: SpriteBytes) -> (v: Vec<u8>)
        ensures
            v@ == value@,
            v@.len() == SPRITE_BYTES,
    {
        proof {
            use_type_invariant(&value);
        }
        value.pixels
    }
}

impl Clone for SpriteBytes {
    fn clone(&self) -> (c: Self)
        ensures
            c@ == self@,
    {
        proof {
            use_type_invariant(self);
        }
        let pixels = self.pixels.clone();
        assert(pixels@ =~= self.pixels@);
        SpriteBytes { pixels }
    }
}

/// `n` fully transparent pixels.
pub open spec fn clear_pixels(n: int) -> Seq<u8> {
    Seq::new((4 * n) as nat, |i: int| 0u8)
}

/// The first `n` colour triples of `s` as opaque pixels.
pub open spec fn opaque_pixels(s: Seq<u8>, n: int) -> Seq<u8> {
    Seq::new(
        (4 * n) as nat,
        |i: int|
            if i % 4 == 3 {
                255u8
            } else {
                s[3 * (i / 4) + i % 4]
            },
    )
}

/// How many of `count` pixels still fit behind `len` bytes of pixels.
pub open spec fn fitting(count: int, len: int) -> int {
    if len + 4 * count <= SPRITE_BYTES {
        count
    } else {
        (SPRITE_BYTES - len) / 4
    }
}

/// What one run at the head of `s` adds to the pixels `out`. A run is a
/// `u16` count of transparent pixels, a `u16` count of coloured pixels and
/// three colour bytes for each coloured pixel. Pixels that no longer fit
/// into the sprite are neither stored nor read. Gives the new pixels, the
/// number of coloured pixels that the run announced, and the bytes after
/// the run.
pub open spec fn run(s: Seq<u8>, out: Seq<u8>) -> Result<((Seq<u8>, int), Seq<u8>), Error> {
    if s.len() < 2 {
        Err(Error::Malformed)
    } else {
        let clear = fitting(le16(s[0], s[1]), out.len() as int);
        let out1 = out + clear_pixels(clear);
        if s.len() < 4 {
            Err(Error::Malformed)
        } else {
            let announced = le16(s[2], s[3]);
            let coloured = fitting(announced, out1.len() as int);
            if s.len() < 4 + 3 * coloured {
                Err(Error::Malformed)
            } else {
                Ok(
                    (
                        (out1 + opaque_pixels(s.skip(4), coloured), announced),
                        s.skip(4 + 3 * coloured),
                    ),
                )
            }
        }
    }
}

/// The pixels that the runs at the head of `s` add to `out`. Runs are read
/// while fewer than `budget` run bytes were counted (four for each run and
/// three for each coloured pixel it announces) and the sprite is not full.
pub open spec fn runs(s: Seq<u8>, budget: int, counted: int, out: Seq<u8>) -> Result<Seq<u8>, Error>
    decreases
            if counted < budget {
                budget - counted
            } else {
                0
            },
{
    if counted < budget && out.len() < SPRITE_BYTES {
        match run(s, out) {
            Err(e) => Err(e),
            Ok(((out2, announced), rest)) => runs(rest, budget, counted + 4 + 3 * announced, out2),
        }
    } else {
        Ok(out)
    }
}

/// The sprite that starts `offset` bytes into the atlas `atlas`: three
/// bytes that are passed over, a `u16` budget of run bytes, the runs, and
/// transparent pixels for what the runs left unfilled.
pub open spec fn sprite_at(atlas: Seq<u8>, offset: int) -> Result<Seq<u8>, Error> {
    if offset < 0 || atlas.len() < offset + SPRITE_HEADER + 2 {
        Err(Error::Malformed)
    } else {
        let s = atlas.skip(offset);
        match runs(s.skip(5), le16(s[3], s[4]), 0, Seq::empty()) {
            Err(e) => Err(e),
            Ok(out) => Ok(out + clear_pixels((SPRITE_BYTES - out.len()) / 4)),
        }
    }
}

/// A decoded sprite atlas: its signature, the number of offsets it
/// declares, and the sprites that are present, by id (ids count from 1).
pub struct Document {
    pub signature: u32,
    pub count: u16,
    pub sprites: HashMap<u16, SpriteBytes>,
}

/// The mathematical value of a [`Document`].
pub struct DocumentView {
    pub signature: u32,
    pub count: u16,
    pub sprites: Map<u16, Seq<u8>>,
}

/// The sprites of a table, each by its pixels.
pub open spec fn sprite_views(sprites: Map<u16, SpriteBytes>) -> Map<u16, Seq<u8>> {
    Map::new(|id: u16| sprites.contains_key(id), |id: u16| sprites[id]@)
}

impl View for Document {
    type V = DocumentView;

    open spec fn view(&self) -> DocumentView {
        DocumentView {
            signature: self.signature,
            count: self.count,
            sprites: sprite_views(self.sprites@),
        }
    }
}

/// The offset with the index `index` in the table of an atlas: the table
/// starts six bytes in and has four bytes for each offset.
pub open spec fn offset_at(atlas: Seq<u8>, index: int) -> int {
    crate::parse::cursor::le32(
        atlas[6 + 4 * index],
        atlas[6 + 4 * index + 1],
        atlas[6 + 4 * index + 2],
        atlas[6 + 4 * index + 3],
    )
}

/// The table that the offsets `index..count` add to `sprites`: an offset of
/// zero adds nothing, any other the sprite that starts there, under the id
/// `index + 1`. A sprite that cannot be decoded makes the whole atlas
/// `Malformed`.
pub open spec fn sprites_from(atlas: Seq<u8>, index: int, count: int, sprites: Map<u16, Seq<u8>>) -> Result<
    Map<u16, Seq<u8>>,
    super::Error,
>
    decreases count - index,
{
    if index >= count {
        Ok(sprites)
    } else if offset_at(atlas, index) == 0 {
        sprites_from(atlas, index + 1, count, sprites)
    } else {
        match sprite_at(atlas, offset_at(atlas, index)) {
            Err(_) => Err(super::Error::Malformed),
            Ok(pixels) => sprites_from(
                atlas,
                index + 1,
                count,
                sprites.insert((index + 1) as u16, pixels),
            ),
        }
    }
}

/// The document that the bytes `atlas` spell: a `u32` signature, a `u16`
/// count, that many `u32` offsets, and the sprites behind them.
pub open spec fn document(atlas: Seq<u8>) -> Result<DocumentView, super::Error> {
    if atlas.len() < 6 {
        Err(super::Error::Truncated)
    } else {
        let signature = crate::parse::cursor::le32(atlas[0], atlas[1], atlas[2], atlas[3]) as u32;
        let count = le16(atlas[4], atlas[5]) as u16;
        if atlas.len() < 6 + 4 * count {
            Err(super::Error::Truncated)
        } else {
            match sprites_from(atlas, 0, count as int, Map::empty()) {
                Err(e) => Err(e),
                Ok(sprites) => Ok(DocumentView { signature, count, sprites }),
            }
        }
    }
}

/// Every whole pixel of `pixels` is either fully transparent and black, or
/// opaque.
pub open spec fn plain_pixels(pixels: Seq<u8>) -> bool {
    &&& pixels.len() % 4 == 0
    &&& pixels.len() <= SPRITE_BYTES
    &&& forall|i: int|
        0 <= i < pixels.len() / 4 ==> pixels[4 * i + 3] == 255 || (pixels[4 * i] == 0 && pixels[4
            * i + 1] == 0 && pixels[4 * i + 2] == 0 && #[trigger] pixels[4 * i + 3] == 0)
}

/// The run that spells the pixel `i` of `pixels` alone: one transparent
/// pixel, or one coloured pixel with its three colour bytes.
pub open spec fn pixel_run(pixels: Seq<u8>, i: int) -> Seq<u8> {
    if pixels[4 * i + 3] == 0 {
        seq![1u8, 0u8, 0u8, 0u8]
    } else {
        seq![0u8, 0u8, 1u8, 0u8, pixels[4 * i], pixels[4 * i + 1], pixels[4 * i + 2]]
    }
}

/// The runs that spell the pixels `from..` of a sprite, one run for each
/// pixel.
pub open spec fn pixel_runs(pixels: Seq<u8>, from: int) -> Seq<u8>
    decreases SPRITE_PIXELS - from,
{
    if from < 0 || from >= SPRITE_PIXELS {
        Seq::empty()
    } else {
        pixel_run(pixels, from) + pixel_runs(pixels, from + 1)
    }
}

/// A sprite written out again: three bytes of zero, the number of run
/// bytes as a little-endian `u16`, and one run for each pixel.
pub open spec fn encoded(pixels: Seq<u8>) -> Seq<u8> {
    let runs = pixel_runs(pixels, 0);
    seq![0u8, 0u8, 0u8, (runs.len() % 256) as u8, (runs.len() / 256) as u8] + runs
}

/// The runs of the pixels `from..` take between four and seven bytes for
/// each pixel.
pub proof fn lemma_pixel_runs_len(pixels: Seq<u8>, from: int)
    requires
        0 <= from <= SPRITE_PIXELS,
    ensures
        4 * (SPRITE_PIXELS - from) <= pixel_runs(pixels, from).len() <= 7 * (SPRITE_PIXELS - from),
    decreases SPRITE_PIXELS - from,
{
    if from < SPRITE_PIXELS {
        lemma_pixel_runs_len(pixels, from + 1);
    }
}

/// One run keeps pixels plain.
pub proof fn lemma_run_keeps_plain(s: Seq<u8>, out: Seq<u8>)
    requires
        plain_pixels(out),
    ensures
        run(s, out) matches Ok(((out2, _), _)) ==> plain_pixels(out2),
{
    if s.len() >= 4 {
        let clear = fitting(le16(s[0], s[1]), out.len() as int);
        let out1 = out + clear_pixels(clear);
        let announced = le16(s[2], s[3]);
        let coloured = fitting(announced, out1.len() as int);
        let out2 = out1 + opaque_pixels(s.skip(4), coloured);
        assert(plain_pixels(out1)) by {
            assert forall|i: int| 0 <= i < out1.len() / 4 implies out1[4 * i + 3] == 255 || (out1[4
                * i] == 0 && out1[4 * i + 1] == 0 && out1[4 * i + 2] == 0 && #[trigger] out1[4 * i
                + 3] == 0) by {
                if i < out.len() / 4 {
                    assert(out1[4 * i + 3] == out[4 * i + 3]);
                }
            }
        }
        if s.len() >= 4 + 3 * coloured {
            assert(plain_pixels(out2)) by {
                assert forall|i: int| 0 <= i < out2.len() / 4 implies out2[4 * i + 3] == 255 || (
                out2[4 * i] == 0 && out2[4 * i + 1] == 0 && out2[4 * i + 2] == 0
                    && #[trigger] out2[4 * i + 3] == 0) by {
                    if i < out1.len() / 4 {
                        assert(out2[4 * i + 3] == out1[4 * i + 3]);
                    } else {
                        let k = 4 * i + 3 - out1.len();
                        assert(out2[4 * i + 3] == opaque_pixels(s.skip(4), coloured)[k]);
                        assert(k % 4 == 3);
                    }
                }
            }
        }
    }
}

/// Runs keep pixels plain.
pub proof fn lemma_runs_keep_plain(s: Seq<u8>, budget: int, counted: int, out: Seq<u8>)
    requires
        plain_pixels(out),
    ensures
        runs(s, budget, counted, out) matches Ok(all) ==> plain_pixels(all),
    decreases
            if counted < budget {
                budget - counted
            } else {
                0
            },
{
    if counted < budget && out.len() < SPRITE_BYTES {
        lemma_run_keeps_plain(s, out);
        match run(s, out) {
            Ok(((out2, announced), rest)) => {
                lemma_runs_keep_plain(rest, budget, counted + 4 + 3 * announced, out2);
            },
            Err(_) => {},
        }
    }
}

/// Every decoded sprite has 4096 bytes, and each of its pixels is either
/// fully transparent and black, or opaque.
pub proof fn lemma_decoded_is_plain(atlas: Seq<u8>, offset: int)
    ensures
        sprite_at(atlas, offset) matches Ok(pixels) ==> pixels.len() == SPRITE_BYTES
            && plain_pixels(pixels),
{
    if 0 <= offset && atlas.len() >= offset + SPRITE_HEADER + 2 {
        let s = atlas.skip(offset);
        let none = Seq::<u8>::empty();
        assert(plain_pixels(none));
        lemma_runs_keep_plain(s.skip(5), le16(s[3], s[4]), 0, none);
        match runs(s.skip(5), le16(s[3], s[4]), 0, none) {
            Ok(out) => {
                let all = out + clear_pixels((SPRITE_BYTES - out.len()) / 4);
                assert forall|i: int| 0 <= i < all.len() / 4 implies all[4 * i + 3] == 255 || (all[4
                    * i] == 0 && all[4 * i + 1] == 0 && all[4 * i + 2] == 0 && #[trigger] all[4 * i
                    + 3] == 0) by {
                    if i < out.len() / 4 {
                        assert(all[4 * i + 3] == out[4 * i + 3]);
                    }
                }
            },
            Err(_) => {},
        }
    }
}

/// The runs of the pixels `from..` decode to those pixels: with the pixels
/// before them already there, and the run bytes before them already
/// counted, the result is the whole sprite.
pub proof fn lemma_pixel_runs_decode(pixels: Seq<u8>, from: int)
    requires
        pixels.len() == SPRITE_BYTES,
        plain_pixels(pixels),
        0 <= from <= SPRITE_PIXELS,
    ensures
        runs(
            pixel_runs(pixels, from),
            pixel_runs(pixels, 0).len() as int,
            pixel_runs(pixels, 0).len() - pixel_runs(pixels, from).len(),
            pixels.take(4 * from),
        ) == Ok::<Seq<u8>, Error>(pixels),
    decreases SPRITE_PIXELS - from,
{
    let budget = pixel_runs(pixels, 0).len() as int;
    let s = pixel_runs(pixels, from);
    let counted = budget - s.len();
    let out = pixels.take(4 * from);
    lemma_pixel_runs_len(pixels, from);
    if from == SPRITE_PIXELS {
        assert(out =~= pixels);
    } else {
        lemma_pixel_runs_decode(pixels, from + 1);
        lemma_pixel_runs_len(pixels, from + 1);
        let next = pixel_runs(pixels, from + 1);
        let this = pixel_run(pixels, from);
        assert(s == this + next);
        assert(pixels[4 * from + 3] == 255 || (pixels[4 * from] == 0 && pixels[4 * from + 1] == 0
            && pixels[4 * from + 2] == 0 && pixels[4 * from + 3] == 0));
        if pixels[4 * from + 3] == 0 {
            assert(s.skip(4) =~= next);
            assert(out + clear_pixels(1) =~= pixels.take(4 * (from + 1)));
            assert(opaque_pixels(s.skip(4), 0) =~= Seq::<u8>::empty());
            assert(out + clear_pixels(1) + opaque_pixels(s.skip(4), 0) =~= pixels.take(
                4 * (from + 1),
            ));
            assert(run(s, out) == Ok::<((Seq<u8>, int), Seq<u8>), Error>(
                ((pixels.take(4 * (from + 1)), 0int), next),
            ));
        } else {
            assert(s.skip(7) =~= next);
            assert(clear_pixels(0) =~= Seq::<u8>::empty());
            assert(out + clear_pixels(0) =~= out);
            assert(out + opaque_pixels(s.skip(4), 1) =~= pixels.take(4 * (from + 1)));
            assert(run(s, out) == Ok::<((Seq<u8>, int), Seq<u8>), Error>(
                ((pixels.take(4 * (from + 1)), 1int), next),
            ));
        }
    }
}

/// A plain sprite that is written out and decoded again is the same
/// sprite.
pub proof fn lemma_encoded_decodes(pixels: Seq<u8>)
    requires
        pixels.len() == SPRITE_BYTES,
        plain_pixels(pixels),
    ensures
        sprite_at(encoded(pixels), 0) == Ok::<Seq<u8>, Error>(pixels),
{
    let all = pixel_runs(pixels, 0);
    let s = encoded(pixels);
    lemma_pixel_runs_len(pixels, 0);
    lemma_pixel_runs_decode(pixels, 0);
    assert(s.skip(0) =~= s);
    assert(s.skip(5) =~= all);
    assert(le16(s[3], s[4]) == all.len());
    assert(pixels.take(0) =~= Seq::<u8>::empty());
    assert(pixels + clear_pixels(0) =~= pixels);
}

/// Decoding, writing out and decoding again gives the same pixels: a
/// sprite that was decoded from any atlas, written out with [`encoded`]
/// and decoded again, is byte for byte the sprite that was decoded first.
pub proof fn lemma_round_trip(atlas: Seq<u8>, offset: int)
    ensures
        sprite_at(atlas, offset) matches Ok(pixels) ==> sprite_at(encoded(pixels), 0) == Ok::<
            Seq<u8>,
            Error,
        >(pixels),
{
    lemma_decoded_is_plain(atlas, offset);
    match sprite_at(atlas, offset) {
        Ok(pixels) => {
            lemma_encoded_decodes(pixels);
        },
        Err(_) => {},
    }
}

/// The sprite with the id `id` is there: the id lies in the table and its
/// offset is not zero.
pub open spec fn present(atlas: Seq<u8>, count: int, id: int) -> bool {
    1 <= id <= count && offset_at(atlas, id - 1) != 0
}

/// What the offsets `index..count` add to a table: exactly the sprites that
/// are present with an id above `index`, each decoded from the atlas and
/// its own offset alone. What the table held stays.
pub proof fn lemma_sprites_from(atlas: Seq<u8>, index: int, count: int, sprites: Map<u16, Seq<u8>>)
    requires
        0 <= index,
        count <= 65535,
        forall|id: u16| #[trigger] sprites.contains_key(id) ==> id <= index,
    ensures
        sprites_from(atlas, index, count, sprites) matches Ok(all) ==> forall|id: u16|
            #![trigger all.contains_key(id)]
            {
                &&& all.contains_key(id) <==> sprites.contains_key(id) || (index < id && present(
                    atlas,
                    count,
                    id as int,
                ))
                &&& sprites.contains_key(id) ==> all[id] == sprites[id]
                &&& index < id && present(atlas, count, id as int) ==> sprite_at(
                    atlas,
                    offset_at(atlas, id - 1),
                ) == Ok::<Seq<u8>, Error>(all[id])
            },
    decreases count - index,
{
    if index < count {
        if offset_at(atlas, index) == 0 {
            lemma_sprites_from(atlas, index + 1, count, sprites);
        } else {
            match sprite_at(atlas, offset_at(atlas, index)) {
                Ok(pixels) => {
                    lemma_sprites_from(
                        atlas,
                        index + 1,
                        count,
                        sprites.insert((index + 1) as u16, pixels),
                    );
                },
                Err(_) => {},
            }
        }
    }
}

/// Sprites decode independently of each other: in an atlas that decodes,
/// the sprite under an id is what [`sprite_at`] gives for the atlas and
/// that id's own offset, whatever the other sprites are and in whatever
/// order they are decoded; and the ids in the table are exactly those with
/// an offset other than zero.
pub proof fn lemma_sprites_decode_independently(atlas: Seq<u8>)
    ensures
        document(atlas) matches Ok(d) ==> forall|id: u16|
            #![trigger d.sprites.contains_key(id)]
            {
                &&& d.sprites.contains_key(id) <==> present(atlas, d.count as int, id as int)
                &&& d.sprites.contains_key(id) ==> sprite_at(atlas, offset_at(atlas, id - 1))
                    == Ok::<Seq<u8>, Error>(d.sprites[id])
            },
{
    if atlas.len() >= 6 {
        let count = le16(atlas[4], atlas[5]) as u16;
        lemma_sprites_from(atlas, 0, count as int, Map::empty());
    }
}

/// Reads one byte of a sprite; the end of the bytes is `Malformed`.
fn sprite_u8(cursor: &mut ByteCursor) -> (r: Result<u8, Error>)
    ensures
        old(cursor)@.len() >= 1 ==> r == Ok::<u8, Error>(old(cursor)@[0])
            && final(cursor)@ == old(cursor)@.skip(1),
        old(cursor)@.len() < 1 ==> r is Err,
{
    match cursor.read_u8() {
        Ok(v) => Ok(v),
        Err(_) => Err(Error::Malformed),
    }
}

/// Reads a little-endian `u16` of a sprite; the end of the bytes is
/// `Malformed`.
fn sprite_u16(cursor: &mut ByteCursor) -> (r: Result<u16, Error>)
    ensures
        old(cursor)@.len() >= 2 ==> r == Ok::<u16, Error>(
            le16(old(cursor)@[0], old(cursor)@[1]) as u16,
        ) && final(cursor)@ == old(cursor)@.skip(2),
        old(cursor)@.len() < 2 ==> r is Err,
{
    match cursor.read_u16_le() {
        Ok(v) => Ok(v),
        Err(_) => Err(Error::Malformed),
    }
}

/// Appends as many of `announced` transparent pixels as still fit.
fn put_clear(pixels: &mut BytesMut, announced: u16, bytes_put: usize) -> (put: usize)
    requires
        bytes_put == written(*old(pixels)).len(),
        bytes_put <= SPRITE_BYTES,
        bytes_put % 4 == 0,
    ensures
        written(*final(pixels)) == written(*old(pixels)) + clear_pixels(
            fitting(announced as int, bytes_put as int),
        ),
        put == written(*final(pixels)).len(),
        put <= SPRITE_BYTES,
        put % 4 == 0,
{
    let mut put = bytes_put;
    let mut k: u16 = 0;
    while k < announced && put < SPRITE_BYTES
        invariant
            put == written(*pixels).len(),
            put == bytes_put + 4 * k,
            put <= SPRITE_BYTES,
            put % 4 == 0,
            bytes_put % 4 == 0,
            k <= announced,
            written(*pixels) == written(*old(pixels)) + clear_pixels(k as int),
        decreases announced - k,
    {
        buffer_put_u32(pixels, 0);
        put = put + 4;
        k = k + 1;
        assert(written(*pixels) =~= written(*old(pixels)) + clear_pixels(k as int));
    }
    put
}

/// Reads as many of `announced` colour triples as still fit and appends
/// them as opaque pixels.
fn put_opaque(cursor: &mut ByteCursor, pixels: &mut BytesMut, announced: u16, bytes_put: usize) -> (r:
    Result<usize, Error>)
    requires
        bytes_put == written(*old(pixels)).len(),
        bytes_put <= SPRITE_BYTES,
        bytes_put % 4 == 0,
    ensures
        match r {
            Ok(put) => {
                let n = fitting(announced as int, bytes_put as int);
                &&& old(cursor)@.len() >= 3 * n
                &&& final(cursor)@ == old(cursor)@.skip(3 * n)
                &&& written(*final(pixels)) == written(*old(pixels)) + opaque_pixels(
                    old(cursor)@,
                    n,
                )
                &&& put == written(*final(pixels)).len()
                &&& put <= SPRITE_BYTES
                &&& put % 4 == 0
            },
            Err(_) => old(cursor)@.len() < 3 * fitting(announced as int, bytes_put as int),
        },
{
    let mut put = bytes_put;
    let mut j: u16 = 0;
    while j < announced && put < SPRITE_BYTES
        invariant
            put == written(*pixels).len(),
            put == bytes_put + 4 * j,
            put <= SPRITE_BYTES,
            put % 4 == 0,
            bytes_put % 4 == 0,
            j <= announced,
            old(cursor)@.len() >= 3 * j,
            cursor@ == old(cursor)@.skip(3 * j),
            written(*pixels) == written(*old(pixels)) + opaque_pixels(old(cursor)@, j as int),
        decreases announced - j,
    {
        let red = sprite_u8(cursor)?;
        let green = sprite_u8(cursor)?;
        let blue = sprite_u8(cursor)?;
        buffer_put_u8(pixels, red);
        buffer_put_u8(pixels, green);
        buffer_put_u8(pixels, blue);
        buffer_put_u8(pixels, 0xFF);
        put = put + 4;
        j = j + 1;
        assert(cursor@ =~= old(cursor)@.skip(3 * j));
        assert(written(*pixels) =~= written(*old(pixels)) + opaque_pixels(old(cursor)@, j as int));
    }
    Ok(put)
}

/// Reads one run and appends its pixels: see [`run`].
fn read_run(cursor: &mut ByteCursor, pixels: &mut BytesMut, bytes_put: usize) -> (r: Result<
    (usize, u16),
    Error,
>)
    requires
        bytes_put == written(*old(pixels)).len(),
        bytes_put <= SPRITE_BYTES,
        bytes_put % 4 == 0,
    ensures
        match (run(old(cursor)@, written(*old(pixels))), r) {
            (Ok(((out, announced), rest)), Ok((put, count))) => {
                &&& written(*final(pixels)) == out
                &&& count == announced
                &&& final(cursor)@ == rest
                &&& put == out.len()
                &&& put <= SPRITE_BYTES
                &&& put % 4 == 0
            },
            (Err(e), Err(x)) => x == e,
            _ => false,
        },
{
    let transparent = sprite_u16(cursor)?;
    let put = put_clear(pixels, transparent, bytes_put);
    let announced = sprite_u16(cursor)?;
    assert(cursor@ =~= old(cursor)@.skip(4));
    let put = put_opaque(cursor, pixels, announced, put)?;
    assert(cursor@ =~= old(cursor)@.skip(
        4 + 3 * fitting(announced as int, written(*old(pixels)).len() + 4 * fitting(
            transparent as int,
            bytes_put as int,
        )),
    ));
    Ok((put, announced))
}

impl Document {
    /// Decodes the sprite that starts `offset` bytes behind the cursor
    /// `atlas`, which stands at the start of the atlas: see [`sprite_at`].
    /// The sprite is read through a cursor of its own, so that nothing it
    /// holds can move the place from which another sprite is read.
    pub fn parse_sprite(atlas: &ByteCursor, offset: u32) -> (r: Result<SpriteBytes, Error>)
        ensures
            match (sprite_at(atlas@, offset as int), r) {
                (Ok(pixels), Ok(sprite)) => sprite@ == pixels,
                (Err(e), Err(x)) => x == e,
                _ => false,
            },
    {
        let mut cursor = atlas.fork();
        if cursor.remaining() < offset as usize {
            return Err(Error::Malformed);
        }
        match cursor.skip(offset as usize) {
            Ok(_) => {},
            Err(_) => {
                return Err(Error::Malformed);
            },
        }
        let ghost s = cursor@;
        sprite_u8(&mut cursor)?;
        sprite_u8(&mut cursor)?;
        sprite_u8(&mut cursor)?;
        let budget: u32 = sprite_u16(&mut cursor)? as u32;
        assert(cursor@ =~= s.skip(5));
        let mut bytes_put: usize = 0;
        let mut counted: u32 = 0;
        let mut pixels = buffer_new();
        while counted < budget && bytes_put < SPRITE_BYTES
            invariant
                bytes_put == written(pixels).len(),
                bytes_put <= SPRITE_BYTES,
                bytes_put % 4 == 0,
                budget <= 65535,
                counted < budget + 4 + 3 * 65535,
                s == atlas@.skip(offset as int),
                atlas@.len() >= offset + 5,
                budget == le16(s[3], s[4]),
                runs(cursor@, budget as int, counted as int, written(pixels)) == runs(
                    s.skip(5),
                    budget as int,
                    0,
                    Seq::empty(),
                ),
            decreases budget + 4 + 3 * 65535 - counted,
        {
            let (put, announced) = read_run(&mut cursor, &mut pixels, bytes_put)?;
            bytes_put = put;
            counted = counted + 4 + 3 * (announced as u32);
        }
        let padding: usize = SPRITE_BYTES - bytes_put;
        let ghost out = written(pixels);
        if padding > 0 {
            let zeros = zeroes(padding);
            buffer_put_slice(&mut pixels, &zeros);
        }
        assert(written(pixels) =~= out + clear_pixels((SPRITE_BYTES - out.len()) / 4));
        SpriteBytes::try_from(buffer_to_vec(&pixels))
    }
}

/// The header and the table of offsets of an atlas: the signature, the
/// number of offsets and the offsets. `Truncated` where the atlas ends
/// before the end of the table.
pub open spec fn table(atlas: Seq<u8>) -> Result<(u32, u16, Seq<u32>), super::Error> {
    if atlas.len() < 6 {
        Err(super::Error::Truncated)
    } else {
        let signature = crate::parse::cursor::le32(atlas[0], atlas[1], atlas[2], atlas[3]) as u32;
        let count = le16(atlas[4], atlas[5]) as u16;
        if atlas.len() < 6 + 4 * count {
            Err(super::Error::Truncated)
        } else {
            Ok((signature, count, Seq::new(count as nat, |i: int| offset_at(atlas, i) as u32)))
        }
    }
}

/// Reads the header and the table of offsets of the atlas that `atlas`
/// stands at the start of: see [`table`]. The cursor itself stays in
/// place.
pub fn read_table(atlas: &ByteCursor) -> (r: Result<(u32, u16, Vec<u32>), super::Error>)
    ensures
        match (table(atlas@), r) {
            (Ok((signature, count, offsets)), Ok((s, c, o))) => s == signature && c == count
                && o@ == offsets,
            (Err(e), Err(x)) => x == e,
            _ => false,
        },
{
    let mut cursor = atlas.fork();
    let signature = cursor.read_u32_le()?;
    let count = cursor.read_u16_le()?;
    assert(cursor@ =~= atlas@.skip(6));
    let mut offsets: Vec<u32> = Vec::new();
    let mut i: u16 = 0;
    while i < count
        invariant
            i <= count,
            atlas@.len() >= 6 + 4 * i,
            count == le16(atlas@[4], atlas@[5]),
            cursor@ == atlas@.skip(6 + 4 * i),
            offsets@.len() == i,
            forall|k: int| 0 <= k < i ==> offsets@[k] == offset_at(atlas@, k),
        decreases count - i,
    {
        let offset = cursor.read_u32_le()?;
        offsets.push(offset);
        i = i + 1;
        assert(cursor@ =~= atlas@.skip(6 + 4 * i));
    }
    assert(offsets@ =~= Seq::new(count as nat, |k: int| offset_at(atlas@, k) as u32));
    Ok((signature, count, offsets))
}

impl Parse<Document> for Vec<u8> {
    /// Decodes a sprite atlas, one sprite after the other. The result is
    /// the one that [`document`] defines.
    fn parse(self) -> (r: Result<Document, super::Error>)
        ensures
            decoded::<Document>(document(self@), r),
    {
        let atlas = ByteCursor::new(self);
        let (signature, count, offsets) = read_table(&atlas)?;
        let mut sprites: HashMap<u16, SpriteBytes> = HashMap::new();
        let mut index: u16 = 0;
        assert(sprite_views(sprites@) =~= Map::<u16, Seq<u8>>::empty());
        while index < count
            invariant
                index <= count,
                offsets@.len() == count,
                atlas@ == self@,
                forall|i: int| 0 <= i < count ==> offsets@[i] == offset_at(atlas@, i),
                sprites_from(atlas@, index as int, count as int, sprite_views(sprites@))
                    == sprites_from(atlas@, 0, count as int, Map::empty()),
                document(self@) == match sprites_from(atlas@, 0, count as int, Map::empty()) {
                    Err(e) => Err(e),
                    Ok(sprites) => Ok(DocumentView { signature, count, sprites }),
                },
            decreases count - index,
        {
            let offset = offsets[index as usize];
            if offset != 0 {
                match Document::parse_sprite(&atlas, offset) {
                    Ok(sprite) => {
                        let ghost before = sprites@;
                        let ghost pixels = sprite@;
                        sprites.insert(index + 1, sprite);
                        assert(sprite_views(sprites@) =~= sprite_views(before).insert(
                            (index + 1) as u16,
                            pixels,
                        ));
                    },
                    Err(e) => {
                        return Err(super::Error::from(e));
                    },
                }
            }
            index = index + 1;
        }
        Ok(Document { signature, count, sprites })
    }
}

/// A vector of `n` zero bytes.
fn zeroes(n: usize) -> (v: Vec<u8>)
    ensures
        v@ == Seq::new(n as nat, |i: int| 0u8),
{
    let mut v: Vec<u8> = Vec::new();
    let mut i: usize = 0;
    while i < n
        invariant
            i <= n,
            v@ == Seq::new(i as nat, |k: int| 0u8),
        decreases n - i,
    {
        v.push(0);
        i = i + 1;
        assert(v@ =~= Seq::new(i as nat, |k: int| 0u8));
    }
    v
}

} // verus!
