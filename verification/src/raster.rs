//! In-memory RGBA rasters: the pixel type and the image buffer that every
//! pixel operation in this crate works on.

use vstd::prelude::*;

verus! {

/// Largest width or height the engine accepts, so that pixel counts and
/// byte counts stay well inside `usize` and `u32` ranges.
pub const MAX_DIM: u32 = 16384;

/// One pixel: straight (non-premultiplied) RGBA, eight bits per channel.
#[derive(Clone, Copy, PartialEq, Eq, Structural, Debug)]
pub struct Rgba {
    pub r: u8,
    pub g: u8,
    pub b: u8,
    pub a: u8,
}

/// A width x height RGBA raster stored row-major, top-left origin.
pub struct Raster {
    pub width: u32,
    pub height: u32,
    pub pixels: Vec<Rgba>,
}

impl Raster {
    /// The buffer holds exactly one pixel per coordinate and the
    /// dimensions are inside the supported range.
    pub open spec fn wf(&self) -> bool {
        &&& self.pixels@.len() == self.width * self.height
        &&& self.width <= MAX_DIM
        &&& self.height <= MAX_DIM
    }

    /// Index of (x, y) in the row-major pixel buffer.
    pub open spec fn spec_index_of(&self, x: int, y: int) -> int {
        y * self.width + x
    }

    /// The pixel at (x, y).
    pub open spec fn spec_pixel(&self, x: int, y: int) -> Rgba {
        self.pixels@[y * self.width + x]
    }

    /// A raster of the given size with every pixel equal to `fill`.
    pub fn filled(width: u32, height: u32, fill: Rgba) -> (r: Raster)
        requires
            width <= MAX_DIM,
            height <= MAX_DIM,
        ensures
            r.wf(),
            r.width == width,
            r.height == height,
            forall|i: int| 0 <= i < r.pixels@.len() ==> r.pixels@[i] == fill,
    {
        proof {
            lemma_dims_bound(width as int, height as int);
        }
        let n: usize = (width as usize) * (height as usize);
        let mut pixels: Vec<Rgba> = Vec::new();
        let mut i: usize = 0;
        while i < n
            invariant
                i <= n,
                pixels@.len() == i,
                forall|j: int| 0 <= j < i ==> pixels@[j] == fill,
            decreases n - i,
        {
            pixels.push(fill);
            i = i + 1;
        }
        Raster { width, height, pixels }
    }

    /// Read the pixel at (x, y).
    pub fn pixel(&self, x: u32, y: u32) -> (p: Rgba)
        requires
            self.wf(),
            x < self.width,
            y < self.height,
        ensures
            p == self.spec_pixel(x as int, y as int),
    {
        proof {
            lemma_dims_bound(self.width as int, self.height as int);
            lemma_row_major_index_in_range(
                self.width as int,
                self.height as int,
                x as int,
                y as int,
            );
        }
        let idx: usize = (y as usize) * (self.width as usize) + (x as usize);
        self.pixels[idx]
    }

    /// Overwrite the pixel at (x, y).
    pub fn set_pixel(&mut self, x: u32, y: u32, p: Rgba)
        requires
            old(self).wf(),
            x < old(self).width,
            y < old(self).height,
        ensures
            final(self).wf(),
            final(self).width == old(self).width,
            final(self).height == old(self).height,
            final(self).pixels@ == old(self).pixels@.update(
                old(self).spec_index_of(x as int, y as int),
                p,
            ),
    {
        proof {
            lemma_dims_bound(self.width as int, self.height as int);
            lemma_row_major_index_in_range(
                self.width as int,
                self.height as int,
                x as int,
                y as int,
            );
        }
        let idx: usize = (y as usize) * (self.width as usize) + (x as usize);
        self.pixels.set(idx, p);
    }
}

/// Channel `k` (0..4 meaning r, g, b, a) of a pixel.
pub open spec fn spec_chan(p: Rgba, k: int) -> u8 {
    if k == 0 {
        p.r
    } else if k == 1 {
        p.g
    } else if k == 2 {
        p.b
    } else {
        p.a
    }
}

/// A pixel sequence flattened to interleaved RGBA bytes.
pub open spec fn spec_pixels_bytes(s: Seq<Rgba>) -> Seq<u8> {
    Seq::new(4 * s.len(), |i: int| spec_chan(s[i / 4], i % 4))
}

/// Interleaved RGBA bytes grouped back into pixels.
pub open spec fn spec_bytes_pixels(b: Seq<u8>) -> Seq<Rgba> {
    Seq::new(b.len() / 4, |i: int| Rgba { r: b[4 * i], g: b[4 * i + 1], b: b[4 * i + 2], a: b[4 * i + 3] })
}

impl Raster {
    /// Flatten the pixel buffer to interleaved RGBA bytes.
    pub fn to_bytes(&self) -> (b: Vec<u8>)
        requires
            self.wf(),
        ensures
            b@.len() == 4 * self.pixels@.len(),
            b@ == spec_pixels_bytes(self.pixels@),
    {
        proof {
            lemma_dims_bound(self.width as int, self.height as int);
        }
        let n: usize = self.pixels.len();
        let mut b: Vec<u8> = Vec::new();
        let mut i: usize = 0;
        while i < n
            invariant
                i <= n,
                n == self.pixels@.len(),
                b@.len() == 4 * i,
                forall|j: int| 0 <= j < 4 * i ==> b@[j] == spec_chan(self.pixels@[j / 4], j % 4),
            decreases n - i,
        {
            let p = self.pixels[i];
            b.push(p.r);
            b.push(p.g);
            b.push(p.b);
            b.push(p.a);
            proof {
                assert forall|j: int| 0 <= j < 4 * (i + 1) implies b@[j] == spec_chan(
                    self.pixels@[j / 4],
                    j % 4,
                ) by {
                    if j >= 4 * i {
                        vstd::arithmetic::div_mod::lemma_fundamental_div_mod_converse(
                            j,
                            4,
                            i as int,
                            j - 4 * i,
                        );
                    }
                }
            }
            i = i + 1;
        }
        proof {
            assert(b@ =~= spec_pixels_bytes(self.pixels@));
        }
        b
    }

    /// Group interleaved RGBA bytes into a raster of the given size.
    pub fn from_bytes(bytes: &Vec<u8>, width: u32, height: u32) -> (r: Raster)
        requires
            width <= MAX_DIM,
            height <= MAX_DIM,
            bytes@.len() == 4 * (width * height),
        ensures
            r.wf(),
            r.width == width,
            r.height == height,
            r.pixels@ == spec_bytes_pixels(bytes@),
    {
        proof {
            lemma_dims_bound(width as int, height as int);
        }
        let n: usize = bytes.len() / 4;
        let mut pixels: Vec<Rgba> = Vec::new();
        let mut i: usize = 0;
        while i < n
            invariant
                i <= n,
                n <= 0x1000_0000,
                n == bytes@.len() / 4,
                4 * n == bytes@.len(),
                pixels@.len() == i,
                forall|j: int|
                    0 <= j < i ==> pixels@[j] == (Rgba {
                        r: bytes@[4 * j],
                        g: bytes@[4 * j + 1],
                        b: bytes@[4 * j + 2],
                        a: bytes@[4 * j + 3],
                    }),
            decreases n - i,
        {
            let p = Rgba {
                r: bytes[4 * i],
                g: bytes[4 * i + 1],
                b: bytes[4 * i + 2],
                a: bytes[4 * i + 3],
            };
            pixels.push(p);
            i = i + 1;
        }
        proof {
            assert(pixels@ =~= spec_bytes_pixels(bytes@));
        }
        Raster { width, height, pixels }
    }
}

/// Row-major indexing stays inside the buffer: for x < w and y < h,
/// y * w + x < w * h.
pub proof fn lemma_row_major_index_in_range(w: int, h: int, x: int, y: int)
    requires
        0 <= x < w,
        0 <= y < h,
    ensures
        0 <= y * w + x < w * h,
{
    assert(y * w + x < w * h) by (nonlinear_arith)
        requires
            0 <= x < w,
            0 <= y < h,
    ;
    assert(y * w + x >= 0) by (nonlinear_arith)
        requires
            0 <= x,
            0 <= y,
            w > 0,
    ;
}

/// A pixel count within the supported dimensions fits comfortably in a
/// `u32` and in `usize`.
pub proof fn lemma_dims_bound(w: int, h: int)
    requires
        0 <= w <= MAX_DIM,
        0 <= h <= MAX_DIM,
    ensures
        w * h <= 0x1000_0000,
{
    assert(w * h <= 0x1000_0000) by (nonlinear_arith)
        requires
            0 <= w <= 0x4000,
            0 <= h <= 0x4000,
    ;
}

} // verus!
