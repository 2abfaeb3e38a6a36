use vstd::prelude::*;
use vstd::arithmetic::div_mod::lemma_fundamental_div_mod_converse;

verus! {

/// One RGBA pixel.
#[derive(Debug, Clone, Copy, PartialEq, Eq, Structural)]
pub struct Pixel {
    pub red: u8,
    pub green: u8,
    pub blue: u8,
    pub alpha: u8,
}

impl From<[u8; 4]> for Pixel {
    /// The pixel that four bytes spell: red, green, blue, alpha.
    fn from(bytes: [u8; 4]) -> (p: Pixel)
        ensures
            p == (Pixel { red: bytes[0], green: bytes[1], blue: bytes[2], alpha: bytes[3] }),
    {
        Pixel { red: bytes[0], green: bytes[1], blue: bytes[2], alpha: bytes[3] }
    }
}

impl vstd::std_specs::convert::FromSpecImpl<[u8; 4]> for Pixel {
    open spec fn obeys_from_spec() -> bool {
        true
    }

    open spec fn from_spec(bytes: [u8; 4]) -> Pixel {
        Pixel { red: bytes[0], green: bytes[1], blue: bytes[2], alpha: bytes[3] }
    }
}

impl Pixel {
    /// The four bytes of the pixel: red, green, blue, alpha.
    pub fn into_bytes(self) -> (bytes: [u8; 4])
        ensures
            bytes@ == seq![self.red, self.green, self.blue, self.alpha],
    {
        let bytes = [self.red, self.green, self.blue, self.alpha];
        assert(bytes@ =~= seq![self.red, self.green, self.blue, self.alpha]);
        bytes
    }
}

/// A composited image: its size in pixels, a preview of it as text, and
/// its RGBA bytes, row by row.
#[derive(Debug)]
pub struct Texture {
    pub width: u16,
    pub height: u16,
    pub image: String,
    pub rgba_bytes: Vec<u8>,
}

/// The mathematical value of a [`Texture`].
pub struct TextureView {
    pub width: u16,
    pub height: u16,
    pub image: Seq<char>,
    pub rgba_bytes: Seq<u8>,
}

impl View for Texture {
    type V = TextureView;

    open spec fn view(&self) -> TextureView {
        TextureView {
            width: self.width,
            height: self.height,
            image: self.image@,
            rgba_bytes: self.rgba_bytes@,
        }
    }
}

/// The values of a list of textures.
pub open spec fn texture_views(textures: Seq<Texture>) -> Seq<TextureView> {
    Seq::new(textures.len(), |i: int| textures[i]@)
}

/// `v`, moved into the range from 0 to `last`.
pub open spec fn clamped(v: int, last: int) -> int {
    if v < 0 {
        0
    } else if v > last {
        last
    } else {
        v
    }
}

/// The image `src` of `w` by `h` pixels with a border of `p` pixels on
/// every side, in which each pixel repeats the nearest pixel of the image.
pub open spec fn padded(src: Seq<u8>, w: int, h: int, p: int) -> Seq<u8> {
    Seq::new(
        (4 * ((h + 2 * p) * (w + 2 * p))) as nat,
        |i: int|
            src[4 * (clamped((i / 4) / (w + 2 * p) - p, h - 1) * w + clamped(
                (i / 4) % (w + 2 * p) - p,
                w - 1,
            )) + i % 4],
    )
}

impl TextureView {
    /// The image is not empty and has four bytes for each of its pixels.
    pub open spec fn wf(self) -> bool {
        &&& self.width > 0
        &&& self.height > 0
        &&& self.rgba_bytes.len() == 4 * (self.height * self.width)
    }
}

impl Clone for Texture {
    fn clone(&self) -> (t: Self)
        ensures
            t@ == self@,
    {
        let rgba_bytes = self.rgba_bytes.clone();
        assert(rgba_bytes@ =~= self.rgba_bytes@);
        Texture { width: self.width, height: self.height, image: self.image.clone(), rgba_bytes }
    }
}

impl Texture {
    /// Whether the image is not empty and has four bytes for each of its
    /// pixels.
    pub fn is_well_formed(&self) -> (b: bool)
        ensures
            b == self@.wf(),
    {
        proof {
            assert(self.height * self.width <= 65535 * 65535) by (nonlinear_arith)
                requires
                    0 <= self.height <= 65535,
                    0 <= self.width <= 65535,
            ;
        }
        self.width > 0 && self.height > 0 && self.rgba_bytes.len() as u64 == 4 * (
        self.height as u64 * self.width as u64)
    }

    /// The pixels of the image, row by row. The bytes must come in fours.
    pub fn pixels(&self) -> (pixels: Vec<Pixel>)
        requires
            self.rgba_bytes@.len() % 4 == 0,
        ensures
            pixels@.len() * 4 == self.rgba_bytes@.len(),
            forall|i: int|
                0 <= i < pixels@.len() ==> #[trigger] pixels@[i] == (Pixel {
                    red: self.rgba_bytes@[4 * i],
                    green: self.rgba_bytes@[4 * i + 1],
                    blue: self.rgba_bytes@[4 * i + 2],
                    alpha: self.rgba_bytes@[4 * i + 3],
                }),
    {
        let mut pixels: Vec<Pixel> = Vec::new();
        let mut i: usize = 0;
        let n = self.rgba_bytes.len();
        while i < n
            invariant
                n == self.rgba_bytes@.len(),
                n % 4 == 0,
                i % 4 == 0,
                i <= n,
                pixels@.len() * 4 == i,
                forall|k: int|
                    0 <= k < pixels@.len() ==> #[trigger] pixels@[k] == (Pixel {
                        red: self.rgba_bytes@[4 * k],
                        green: self.rgba_bytes@[4 * k + 1],
                        blue: self.rgba_bytes@[4 * k + 2],
                        alpha: self.rgba_bytes@[4 * k + 3],
                    }),
            decreases n - i,
        {
            pixels.push(
                Pixel {
                    red: self.rgba_bytes[i],
                    green: self.rgba_bytes[i + 1],
                    blue: self.rgba_bytes[i + 2],
                    alpha: self.rgba_bytes[i + 3],
                },
            );
            i = i + 4;
        }
        pixels
    }

    /// The bytes of the image with a border of `padding` pixels on every
    /// side, in which each pixel repeats the nearest pixel of the image:
    /// see [`padded`]. The image must not be empty, and the result must fit
    /// into memory.
    pub fn rgba_bytes(&self, padding: usize) -> (bytes: Vec<u8>)
        requires
            self@.wf(),
            4 * ((self.height + 2 * padding) * (self.width + 2 * padding)) <= usize::MAX,
        ensures
            bytes@ == padded(self.rgba_bytes@, self.width as int, self.height as int, padding as int),
    {
        let w: usize = self.width as usize;
        let h: usize = self.height as usize;
        proof {
            assert((h + 2 * padding) * (w + 2 * padding) >= (h + 2 * padding) * 1) by (nonlinear_arith)
                requires
                    w >= 1,
                    h >= 1,
                    padding >= 0,
            ;
            assert((h + 2 * padding) * (w + 2 * padding) >= 1 * (w + 2 * padding)) by (nonlinear_arith)
                requires
                    w >= 1,
                    h >= 1,
                    padding >= 0,
            ;
        }
        let total_w: usize = w + 2 * padding;
        let total_h: usize = h + 2 * padding;
        let length: usize = self.rgba_bytes.len();
        let ghost src = self.rgba_bytes@;
        let ghost want = padded(src, w as int, h as int, padding as int);
        let mut bytes: Vec<u8> = Vec::new();
        let mut row: usize = 0;
        while row < total_h
            invariant
                self@.wf(),
                w == self.width,
                h == self.height,
                src == self.rgba_bytes@,
                length == src.len(),
                total_w == w + 2 * padding,
                total_h == h + 2 * padding,
                4 * (total_h * total_w) <= usize::MAX,
                row <= total_h,
                want == padded(src, w as int, h as int, padding as int),
                want.len() == 4 * (total_h * total_w),
                bytes@.len() == 4 * (row * total_w),
                bytes@.len() <= want.len(),
                forall|i: int| 0 <= i < bytes@.len() ==> bytes@[i] == want[i],
            decreases total_h - row,
        {
            let source_row: usize = if row < padding {
                0
            } else if row - padding > h - 1 {
                h - 1
            } else {
                row - padding
            };
            let mut col: usize = 0;
            while col < total_w
                invariant
                    self@.wf(),
                    w == self.width,
                    h == self.height,
                    src == self.rgba_bytes@,
                    length == src.len(),
                    total_w == w + 2 * padding,
                    total_h == h + 2 * padding,
                    4 * (total_h * total_w) <= usize::MAX,
                    row < total_h,
                    col <= total_w,
                    source_row == clamped(row - padding, h - 1),
                    want == padded(src, w as int, h as int, padding as int),
                    want.len() == 4 * (total_h * total_w),
                    bytes@.len() == 4 * (row * total_w + col),
                    bytes@.len() <= want.len(),
                    forall|i: int| 0 <= i < bytes@.len() ==> bytes@[i] == want[i],
                decreases total_w - col,
            {
                let source_col: usize = if col < padding {
                    0
                } else if col - padding > w - 1 {
                    w - 1
                } else {
                    col - padding
                };
                proof {
                    assert(source_row * w + source_col < h * w) by (nonlinear_arith)
                        requires
                            0 <= source_row < h,
                            0 <= source_col < w,
                    ;
                    assert(row * total_w + col < total_h * total_w) by (nonlinear_arith)
                        requires
                            0 <= row < total_h,
                            0 <= col < total_w,
                    ;
                    assert(0 <= source_row * w <= h * w) by (nonlinear_arith)
                        requires
                            0 <= source_row < h,
                            w >= 0,
                    ;
                    assert(self.rgba_bytes@.len() == 4 * (h * w));
                }
                let base: usize = 4 * (source_row * w + source_col);
                let ghost at = bytes@.len() as int;
                let ghost pixel = row * total_w + col;
                proof {
                    lemma_fundamental_div_mod_converse(
                        pixel as int,
                        total_w as int,
                        row as int,
                        col as int,
                    );
                }
                bytes.push(self.rgba_bytes[base]);
                bytes.push(self.rgba_bytes[base + 1]);
                bytes.push(self.rgba_bytes[base + 2]);
                bytes.push(self.rgba_bytes[base + 3]);
                proof {
                    assert forall|i: int| 0 <= i < bytes@.len() implies bytes@[i] == want[i] by {
                        if i >= at {
                            let k = i - at;
                            assert(i == 4 * pixel + k);
                            assert(i / 4 == pixel);
                            assert(i % 4 == k);
                        }
                    }
                }
                col = col + 1;
                assert(4 * (row * total_w + col) == 4 * (row * total_w + (col - 1)) + 4);
                assert(row * total_w + col <= total_h * total_w) by (nonlinear_arith)
                    requires
                        0 <= row < total_h,
                        0 <= col <= total_w,
                ;
            }
            row = row + 1;
            assert(row * total_w == (row - 1) * total_w + total_w) by (nonlinear_arith);
            assert(row * total_w <= total_h * total_w) by (nonlinear_arith)
                requires
                    0 <= row <= total_h,
                    total_w >= 0,
            ;
        }
        assert(bytes@ =~= want);
        bytes
    }
}

} // verus!
