//! The pixel-surface capability contract, and an owned in-memory surface.

use vstd::prelude::*;
use vstd::arithmetic::div_mod::lemma_fundamental_div_mod_converse;
use vstd::arithmetic::mul::lemma_mul_upper_bound;
use vstd::pervasive::VecAdditionalExecFns;

use crate::color::Color;
use crate::tileset::Tileset;

verus! {

/// The row-major index of an in-bounds coordinate lies inside the rectangle's
/// pixel count.
pub proof fn lemma_rowmajor_in_range(x: int, y: int, w: int, h: int)
    requires
        0 <= x < w,
        0 <= y < h,
    ensures
        0 <= y * w + x < w * h,
{
    assert(0 <= y * w + x < w * h) by (nonlinear_arith)
        requires
            0 <= x < w,
            0 <= y < h,
    ;
}

/// Read capability over a rectangle of pixels: width, height, and the pixel
/// at any in-bounds coordinate. The surface's contents are modelled as one
/// row-major sequence of colors.
pub trait PixelSurface: Sized {
    /// The structural invariant the surface maintains.
    spec fn surface_wf(&self) -> bool;

    /// Width in pixels.
    spec fn spec_width(&self) -> int;

    /// Height in pixels.
    spec fn spec_height(&self) -> int;

    /// The pixels, row-major: index `y * width + x` holds the pixel at (x, y).
    spec fn pixels(&self) -> Seq<Color>;

    /// The model is coherent: dimensions fit `u32` and the sequence covers
    /// the whole rectangle.
    proof fn surface_size_ok(&self)
        requires
            self.surface_wf(),
        ensures
            0 <= self.spec_width() <= u32::MAX,
            0 <= self.spec_height() <= u32::MAX,
            self.pixels().len() == self.spec_width() * self.spec_height(),
    ;

    /// Width in pixels.
    fn width(&self) -> (r: u32)
        requires
            self.surface_wf(),
        ensures
            r == self.spec_width(),
    ;

    /// Height in pixels.
    fn height(&self) -> (r: u32)
        requires
            self.surface_wf(),
        ensures
            r == self.spec_height(),
    ;

    /// Read the pixel at (x, y).
    fn get(&self, x: u32, y: u32) -> (c: Color)
        requires
            self.surface_wf(),
            x < self.spec_width(),
            y < self.spec_height(),
        ensures
            c == self.pixels()[y * self.spec_width() + x],
    ;
}

/// Write capability on top of [`PixelSurface`]: overwrite one pixel,
/// leaving every other pixel and the dimensions alone.
pub trait PixelSurfaceMut: PixelSurface {
    /// Overwrite the pixel at (x, y).
    fn set(&mut self, x: u32, y: u32, c: Color)
        requires
            old(self).surface_wf(),
            x < old(self).spec_width(),
            y < old(self).spec_height(),
        ensures
            final(self).surface_wf(),
            final(self).spec_width() == old(self).spec_width(),
            final(self).spec_height() == old(self).spec_height(),
            final(self).pixels() == old(self).pixels().update(
                y * old(self).spec_width() + x,
                c,
            ),
    ;
}

/// An owned rectangle of pixels, row-major; the plain destination surface
/// for rendering.
#[derive(Debug)]
pub struct Canvas {
    /// The pixels, row-major: index `y * width + x` holds the pixel at (x, y).
    pub pixels: Vec<Color>,
    /// Width in pixels.
    pub width: u32,
    /// Height in pixels.
    pub height: u32,
}

impl Canvas {
    /// Well-formedness: the buffer covers the whole rectangle.
    pub open spec fn wf(self) -> bool {
        self.pixels@.len() == self.width * self.height
    }

    /// Create a canvas of `width` x `height` pixels, every one `fill`.
    pub fn new(width: u32, height: u32, fill: Color) -> (r: Canvas)
        ensures
            r.wf(),
            r.width == width,
            r.height == height,
            forall|k: int| 0 <= k < r.pixels@.len() ==> r.pixels@[k] == fill,
    {
        proof {
            lemma_mul_upper_bound(width as int, 0xffff_ffff, height as int, 0xffff_ffff);
        }
        let n: u64 = width as u64 * height as u64;
        let mut pixels: Vec<Color> = Vec::new();
        let mut k: u64 = 0;
        while k < n
            invariant
                k <= n,
                pixels@.len() == k,
                forall|j: int| 0 <= j < k ==> pixels@[j] == fill,
            decreases n - k,
        {
            pixels.push(fill);
            k = k + 1;
        }
        Canvas { pixels, width, height }
    }
}

impl PixelSurface for Canvas {
    open spec fn surface_wf(&self) -> bool {
        self.wf()
    }

    open spec fn spec_width(&self) -> int {
        self.width as int
    }

    open spec fn spec_height(&self) -> int {
        self.height as int
    }

    open spec fn pixels(&self) -> Seq<Color> {
        self.pixels@
    }

    proof fn surface_size_ok(&self) {
    }

    fn width(&self) -> (r: u32) {
        self.width
    }

    fn height(&self) -> (r: u32) {
        self.height
    }

    fn get(&self, x: u32, y: u32) -> (c: Color) {
        let _n: usize = self.pixels.len();
        proof {
            lemma_mul_upper_bound(y as int, 0xffff_ffff, self.width as int, 0xffff_ffff);
            lemma_rowmajor_in_range(x as int, y as int, self.width as int, self.height as int);
        }
        let i: usize = (y as u64 * self.width as u64 + x as u64) as usize;
        self.pixels[i]
    }
}

impl PixelSurfaceMut for Canvas {
    fn set(&mut self, x: u32, y: u32, c: Color) {
        let _n: usize = self.pixels.len();
        proof {
            lemma_mul_upper_bound(y as int, 0xffff_ffff, self.width as int, 0xffff_ffff);
            lemma_rowmajor_in_range(x as int, y as int, self.width as int, self.height as int);
        }
        let i: usize = (y as u64 * self.width as u64 + x as u64) as usize;
        self.pixels.set(i, c);
    }
}

/// A tileset is itself a readable pixel surface over its backing image.
impl PixelSurface for Tileset {
    open spec fn surface_wf(&self) -> bool {
        self.wf()
    }

    open spec fn spec_width(&self) -> int {
        self.width as int
    }

    open spec fn spec_height(&self) -> int {
        self.height as int
    }

    open spec fn pixels(&self) -> Seq<Color> {
        Seq::new((self.width * self.height) as nat, |k: int| self.pixel_at(k % (self.width as int), k / (self.width as int)))
    }

    proof fn surface_size_ok(&self) {
    }

    fn width(&self) -> (r: u32) {
        self.width
    }

    fn height(&self) -> (r: u32) {
        self.height
    }

    fn get(&self, x: u32, y: u32) -> (c: Color) {
        let c = Tileset::get(self, x, y);
        proof {
            lemma_rowmajor_in_range(x as int, y as int, self.width as int, self.height as int);
            lemma_fundamental_div_mod_converse(y as int * self.width as int + x as int,
                self.width as int, y as int, x as int);
        }
        c
    }
}

} // verus!
