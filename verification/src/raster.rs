//! The image data model: a rectangular grid of RGB triples, stored as a flat
//! row-major byte buffer with three channel bytes per pixel.

use vstd::prelude::*;

verus! {

/// Mathematical model of an image: its dimensions and the flat byte buffer.
pub struct ImageView {
    pub width: nat,
    pub height: nat,
    pub pixels: Seq<u8>,
}

impl ImageView {
    /// Well-formed: three channel bytes per pixel, and the whole buffer
    /// small enough that byte offsets fit comfortably in fixed-width
    /// arithmetic on any supported platform.
    pub open spec fn wf(self) -> bool {
        &&& self.pixels.len() == 3 * (self.width * self.height)
        &&& 3 * (self.width * self.height) <= u32::MAX
    }

    pub open spec fn pixel_count(self) -> nat {
        self.width * self.height
    }

    /// Channel byte `c` (0 = red, 1 = green, 2 = blue) of the pixel with
    /// flat row-major index `p`.
    pub open spec fn chan(self, p: int, c: int) -> u8 {
        self.pixels[3 * p + c]
    }

    pub open spec fn same_dims(self, other: ImageView) -> bool {
        self.width == other.width && self.height == other.height
    }
}

/// A pixel with flat index `y * w + x` lies strictly inside a `w` by `h` grid.
pub proof fn lemma_pixel_index_in_range(x: int, y: int, w: int, h: int)
    by (nonlinear_arith)
    requires
        0 <= x < w,
        0 <= y < h,
    ensures
        0 <= y * w + x < w * h,
{
}

/// The three channel bytes of pixel `q` in a flat buffer hold one fixed color.
spec fn solid_pixel(s: Seq<u8>, q: int, red: u8, green: u8, blue: u8) -> bool {
    s[3 * q] == red && s[3 * q + 1] == green && s[3 * q + 2] == blue
}

/// An image: a fixed-size grid of RGB pixels, immutable once constructed.
pub struct Image {
    width: u32,
    height: u32,
    pixels: Vec<u8>,
}

impl View for Image {
    type V = ImageView;

    closed spec fn view(&self) -> ImageView {
        ImageView {
            width: self.width as nat,
            height: self.height as nat,
            pixels: self.pixels@,
        }
    }
}

impl Image {
    /// Builds an image from a flat row-major RGB byte buffer.
    pub fn from_pixels(width: u32, height: u32, pixels: Vec<u8>) -> (r: Image)
        requires
            3 * (width * height) <= u32::MAX,
            pixels@.len() == 3 * (width * height),
        ensures
            r@ == (ImageView { width: width as nat, height: height as nat, pixels: pixels@ }),
            r@.wf(),
    {
        Image { width, height, pixels }
    }

    /// Builds a solid-color image of the given dimensions.
    pub fn new_filled(width: u32, height: u32, red: u8, green: u8, blue: u8) -> (r: Image)
        requires
            3 * (width * height) <= u32::MAX,
        ensures
            r@.wf(),
            r@.width == width,
            r@.height == height,
            forall|p: int|
                0 <= p < r@.pixel_count() ==> r@.chan(p, 0) == red && r@.chan(p, 1) == green
                    && r@.chan(p, 2) == blue,
    {
        proof {
            assert(width * height <= u32::MAX);
        }
        let area: u64 = (width as u64) * (height as u64);
        let count: usize = area as usize;
        let mut pixels: Vec<u8> = Vec::new();
        let mut p: usize = 0;
        while p < count
            invariant
                p <= count,
                count == width * height,
                3 * count <= u32::MAX,
                pixels@.len() == 3 * p,
                forall|q: int| 0 <= q < p ==> #[trigger] solid_pixel(pixels@, q, red, green, blue),
            decreases count - p,
        {
            let ghost pre = pixels@;
            pixels.push(red);
            pixels.push(green);
            pixels.push(blue);
            proof {
                assert forall|q: int| 0 <= q < p + 1 implies #[trigger] solid_pixel(
                    pixels@,
                    q,
                    red,
                    green,
                    blue,
                ) by {
                    if q < p {
                        assert(solid_pixel(pre, q, red, green, blue));
                        assert(3 * q + 2 < pre.len());
                    } else {
                        assert(pixels@[3 * q] == red);
                    }
                }
            }
            p = p + 1;
        }
        let r = Image { width, height, pixels };
        proof {
            assert(r@.pixels.len() == 3 * (width * height));
            assert forall|p: int| 0 <= p < r@.pixel_count() implies r@.chan(p, 0) == red
                && r@.chan(p, 1) == green && r@.chan(p, 2) == blue by {
                assert(solid_pixel(r@.pixels, p, red, green, blue));
            }
        }
        r
    }

    pub fn width(&self) -> (r: u32)
        ensures
            r == self@.width,
    {
        self.width
    }

    pub fn height(&self) -> (r: u32)
        ensures
            r == self@.height,
    {
        self.height
    }

    /// Number of bytes in the flat buffer.
    pub fn byte_len(&self) -> (r: usize)
        ensures
            r == self@.pixels.len(),
    {
        self.pixels.len()
    }

    /// The channel byte at flat buffer offset `i`.
    pub fn byte_at(&self, i: usize) -> (r: u8)
        requires
            i < self@.pixels.len(),
        ensures
            r == self@.pixels[i as int],
    {
        self.pixels[i]
    }

    /// The RGB triple of the pixel at column `x`, row `y`.
    pub fn get_pixel(&self, x: u32, y: u32) -> (r: (u8, u8, u8))
        requires
            self@.wf(),
            x < self@.width,
            y < self@.height,
        ensures
            ({
                let p = y * self@.width + x;
                r.0 == self@.chan(p, 0) && r.1 == self@.chan(p, 1) && r.2 == self@.chan(p, 2)
            }),
    {
        proof {
            lemma_pixel_index_in_range(x as int, y as int, self.width as int, self.height as int);
            assert(self.width * self.height <= u32::MAX);
        }
        let p: usize = (y as usize) * (self.width as usize) + (x as usize);
        proof {
            assert(3 * (p as int) + 2 < 3 * ((self.width * self.height) as int));
        }
        (self.pixels[3 * p], self.pixels[3 * p + 1], self.pixels[3 * p + 2])
    }

    /// A copy of the flat row-major RGB byte buffer.
    pub fn clone_pixels(&self) -> (r: Vec<u8>)
        ensures
            r@ == self@.pixels,
    {
        let mut out: Vec<u8> = Vec::new();
        let mut i: usize = 0;
        while i < self.pixels.len()
            invariant
                i <= self.pixels@.len(),
                out@ == self.pixels@.take(i as int),
            decreases self.pixels@.len() - i,
        {
            out.push(self.pixels[i]);
            proof {
                assert(out@ =~= self.pixels@.take(i + 1));
            }
            i = i + 1;
        }
        proof {
            assert(out@ =~= self.pixels@);
        }
        out
    }
}

impl Clone for Image {
    fn clone(&self) -> (r: Self)
        ensures
            r@ == self@,
    {
        Image { width: self.width, height: self.height, pixels: self.clone_pixels() }
    }
}

} // verus!
