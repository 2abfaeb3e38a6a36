//! Compositing and encoding of RGBA images.

use vstd::prelude::*;
use base64::engine::general_purpose;
use base64::Engine;
use image::imageops::overlay;
use image::{DynamicImage, ImageOutputFormat, RgbaImage};
use std::io::Cursor;

verus! {

/// The bottom image after `image::imageops::overlay` has laid the top image
/// over it with the top image's upper left corner at (`x`, `y`): both
/// images as RGBA bytes, row by row, with their sizes in pixels. Where the
/// top image covers the bottom one, each pixel is blended by the alpha of
/// the top pixel; elsewhere the bottom image stays.
pub uninterp spec fn overlaid(
    bottom: Seq<u8>,
    width: u32,
    height: u32,
    top: Seq<u8>,
    top_width: u32,
    top_height: u32,
    x: u32,
    y: u32,
) -> Seq<u8>;

/// The bytes that the `image` crate writes when it is asked for the PNG
/// file of an RGBA image of the given size. Where it refuses the image (one
/// without pixels), these are the bytes it had written by then.
pub uninterp spec fn png_bytes(rgba: Seq<u8>, width: u32, height: u32) -> Seq<u8>;

/// The standard base64 text, with padding, of `data`.
pub uninterp spec fn base64_text(data: Seq<u8>) -> Seq<char>;

/// `image::imageops::overlay` on two RGBA images held as bytes: the result
/// is a function of the two images and the place alone, named
/// [`overlaid`], and has as many bytes as the bottom image had. The
/// buffers must hold four bytes for each pixel, and the bytes of one row
/// must be countable on this machine, or the outside code panics.
#[verifier::external_body]
pub(crate) fn overlay_rgba(
    bottom: &mut Vec<u8>,
    width: u32,
    height: u32,
    top: &Vec<u8>,
    top_width: u32,
    top_height: u32,
    x: u32,
    y: u32,
)
    requires
        old(bottom)@.len() == 4 * (width * height),
        top@.len() == 4 * (top_width * top_height),
        4 * width <= usize::MAX,
        4 * top_width <= usize::MAX,
    ensures
        final(bottom)@ == overlaid(old(bottom)@, width, height, top@, top_width, top_height, x, y),
        final(bottom)@.len() == old(bottom)@.len(),
{
    let below = RgbaImage::from_raw(width, height, std::mem::take(bottom)).unwrap();
    let above = RgbaImage::from_raw(top_width, top_height, top.clone()).unwrap();
    let mut image = DynamicImage::ImageRgba8(below);
    overlay(&mut image, &DynamicImage::ImageRgba8(above), i64::from(x), i64::from(y));
    *bottom = image.into_bytes();
}

/// `DynamicImage::write_to` with the PNG format, into a fresh buffer: the
/// bytes written are a function of the image alone, named [`png_bytes`].
/// The buffer must hold four bytes for each pixel, and the bytes of one
/// row must be countable on this machine, or the outside code panics.
#[verifier::external_body]
pub(crate) fn encode_png(rgba: &Vec<u8>, width: u32, height: u32) -> (png: Vec<u8>)
    requires
        rgba@.len() == 4 * (width * height),
        4 * width <= usize::MAX,
    ensures
        png@ == png_bytes(rgba@, width, height),
{
    let image = DynamicImage::ImageRgba8(RgbaImage::from_raw(width, height, rgba.clone()).unwrap());
    let mut buffer = Cursor::new(Vec::new());
    let _ = image.write_to(&mut buffer, ImageOutputFormat::Png);
    buffer.into_inner()
}

/// `Engine::encode` of `base64::engine::general_purpose::STANDARD`: the
/// text is a function of the bytes alone, named [`base64_text`]. The
/// outside code panics where the length of the text overflows, which
/// `requires` rules out.
#[verifier::external_body]
pub(crate) fn encode_base64(data: &Vec<u8>) -> (text: String)
    requires
        (data@.len() / 3) * 4 + 4 <= usize::MAX,
    ensures
        text@ == base64_text(data@),
{
    general_purpose::STANDARD.encode(data)
}

/// Whether `len` bytes can be written as base64 text on this machine.
pub open spec fn encodable(len: int) -> bool {
    (len / 3) * 4 + 4 <= usize::MAX
}

/// The preview of an RGBA image: its PNG file as base64 text, or `None`
/// where that file has too many bytes to be written as text.
pub open spec fn preview_of(rgba: Seq<u8>, width: u32, height: u32) -> Option<Seq<char>> {
    let png = png_bytes(rgba, width, height);
    if encodable(png.len() as int) {
        Some(base64_text(png))
    } else {
        None
    }
}

/// Encodes the preview of an RGBA image: see [`preview_of`]. The buffer
/// must hold four bytes for each pixel, and the bytes of one row must be
/// countable on this machine.
pub fn preview(rgba: &Vec<u8>, width: u32, height: u32) -> (text: Option<String>)
    requires
        rgba@.len() == 4 * (width * height),
        4 * width <= usize::MAX,
    ensures
        match (preview_of(rgba@, width, height), text) {
            (Some(v), Some(t)) => t@ == v,
            (None, None) => true,
            _ => false,
        },
{
    let png = encode_png(rgba, width, height);
    if png.len() / 3 > (usize::MAX - 4) / 4 {
        None
    } else {
        Some(encode_base64(&png))
    }
}

} // verus!
