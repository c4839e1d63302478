//! Tileset layout options and tile-to-rectangle addressing.

use vstd::prelude::*;
use vstd::arithmetic::mul::lemma_mul_upper_bound;
use vstd::pervasive::VecAdditionalExecFns;

use crate::color::Color;

verus! {

/// Id of a tile in a tileset.
/// Tiles in a tileset are counted left-to-right then top-to-bottom.
pub type TileId = u32;

/// Options used when creating a tileset: pure layout configuration.
#[derive(Debug, PartialEq, Eq)]
pub struct TilesetOptions {
    /// Size (width x height) of a single tile.
    pub tile_size: (u32, u32),
    /// Offset (x, y) - first tile's top left corner.
    pub offset: (u32, u32),
    /// Margin (x, y) - distance between tiles.
    pub margin: (u32, u32),
    /// Key color aka mask/background color. Gets ignored when rendering the tile.
    pub key_color: Option<Color>,
}

impl Clone for TilesetOptions {
    fn clone(&self) -> (r: Self)
        ensures
            r == *self,
    {
        TilesetOptions {
            tile_size: self.tile_size,
            offset: self.offset,
            margin: self.margin,
            key_color: self.key_color,
        }
    }
}

impl TilesetOptions {
    /// Create a new `TilesetOptions` with no offset, no margin and no key color.
    pub fn new(tile_width: u32, tile_height: u32) -> (r: TilesetOptions)
        ensures
            r.tile_size == (tile_width, tile_height),
            r.offset == (0u32, 0u32),
            r.margin == (0u32, 0u32),
            r.key_color is None,
    {
        TilesetOptions {
            tile_size: (tile_width, tile_height),
            offset: (0, 0),
            margin: (0, 0),
            key_color: None,
        }
    }

    /// Specify offset.
    pub fn with_offset(self, offset_x: u32, offset_y: u32) -> (r: TilesetOptions)
        ensures
            r == (TilesetOptions { offset: (offset_x, offset_y), ..self }),
    {
        TilesetOptions { offset: (offset_x, offset_y), ..self }
    }

    /// Specify margin.
    pub fn with_margin(self, margin_x: u32, margin_y: u32) -> (r: TilesetOptions)
        ensures
            r == (TilesetOptions { margin: (margin_x, margin_y), ..self }),
    {
        TilesetOptions { margin: (margin_x, margin_y), ..self }
    }

    /// Specify key color.
    pub fn with_key_color(self, key_color: Color) -> (r: TilesetOptions)
        ensures
            r == (TilesetOptions { key_color: Some(key_color), ..self }),
    {
        TilesetOptions { key_color: Some(key_color), ..self }
    }

    /// The horizontal stride between tiles must be a positive `u32`, or the
    /// tile-count derivation below would divide by zero or overflow;
    /// likewise vertically.
    pub open spec fn strides_usable(self) -> bool {
        &&& 0 < self.tile_size.0 + self.margin.0 <= u32::MAX
        &&& 0 < self.tile_size.1 + self.margin.1 <= u32::MAX
    }
}

/// One wrapping step of 32-bit unsigned arithmetic: the value of
/// `w - o + m` as `u32` operations compute it, for operands that stay
/// within one wrap of the `u32` range.
pub open spec fn wrap32(n: int) -> int {
    if n < 0 {
        n + 0x1_0000_0000
    } else if n >= 0x1_0000_0000 {
        n - 0x1_0000_0000
    } else {
        n
    }
}

/// How many whole tiles fit horizontally and vertically:
/// `(width - offset + margin) / (tile_size + margin)` per axis, with the
/// numerator wrapping as 32-bit arithmetic does and the division a floor
/// division. A degenerate layout (offset past the image edge, say) is not
/// rejected; it merely yields zero or outlandish counts, and addressing
/// rejects the ids.
pub open spec fn spec_tile_counts(width: u32, height: u32, opts: TilesetOptions) -> (int, int) {
    (
        wrap32(width - opts.offset.0 + opts.margin.0) / (opts.tile_size.0 + opts.margin.0),
        wrap32(height - opts.offset.1 + opts.margin.1) / (opts.tile_size.1 + opts.margin.1),
    )
}

/// Derive the tile counts of an atlas of `width` x `height` pixels under
/// layout `opts`.
pub fn calc_tile_counts(width: u32, height: u32, opts: &TilesetOptions) -> (r: (u32, u32))
    requires
        opts.strides_usable(),
    ensures
        r.0 == spec_tile_counts(width, height, *opts).0,
        r.1 == spec_tile_counts(width, height, *opts).1,
{
    let nx: i64 = width as i64 - opts.offset.0 as i64 + opts.margin.0 as i64;
    let ny: i64 = height as i64 - opts.offset.1 as i64 + opts.margin.1 as i64;
    let nx: u64 = if nx < 0 {
        (nx + 0x1_0000_0000) as u64
    } else if nx >= 0x1_0000_0000 {
        (nx - 0x1_0000_0000) as u64
    } else {
        nx as u64
    };
    let ny: u64 = if ny < 0 {
        (ny + 0x1_0000_0000) as u64
    } else if ny >= 0x1_0000_0000 {
        (ny - 0x1_0000_0000) as u64
    } else {
        ny as u64
    };
    let dx: u64 = opts.tile_size.0 as u64 + opts.margin.0 as u64;
    let dy: u64 = opts.tile_size.1 as u64 + opts.margin.1 as u64;
    ((nx / dx) as u32, (ny / dy) as u32)
}

/// Tileset holds a collection of tiles stored as their pixel data.
///
/// The backing image is packed RGBA, 8 bits per channel, row-major,
/// so exactly `width * height * 4` bytes.
///
/// Tiles are counted left-to-right then top-to-bottom.
#[derive(Debug)]
pub struct Tileset {
    /// Raw pixel bytes, 4 per pixel, row-major.
    pub data: Vec<u8>,
    /// Width of the backing image in pixels.
    pub width: u32,
    /// Height of the backing image in pixels.
    pub height: u32,
    /// Derived at construction: how many tiles fit on each axis.
    pub tile_counts: (u32, u32),
    /// The layout the tileset was built with.
    pub opts: TilesetOptions,
}

impl Clone for Tileset {
    fn clone(&self) -> (r: Self)
        ensures
            r.data@ == self.data@,
            r.width == self.width,
            r.height == self.height,
            r.tile_counts == self.tile_counts,
            r.opts == self.opts,
    {
        Tileset {
            data: self.data.clone(),
            width: self.width,
            height: self.height,
            tile_counts: self.tile_counts,
            opts: self.opts.clone(),
        }
    }
}

impl Tileset {
    /// Well-formedness: the byte length matches the pixel dimensions and
    /// the cached tile counts are the derived ones.
    pub open spec fn wf(self) -> bool {
        &&& self.data@.len() == self.width * self.height * 4
        &&& self.opts.strides_usable()
        &&& self.tile_counts.0 == spec_tile_counts(self.width, self.height, self.opts).0
        &&& self.tile_counts.1 == spec_tile_counts(self.width, self.height, self.opts).1
    }

    /// Construct a new tileset.
    /// `width` and `height` are `data`'s size in pixels.
    ///
    /// Succeeds exactly when `data` holds `width * height * 4` bytes;
    /// a mis-sized buffer yields `None`.
    pub fn new(data: Vec<u8>, width: u32, height: u32, opts: TilesetOptions) -> (r: Option<
        Tileset,
    >)
        requires
            opts.strides_usable(),
        ensures
            r is Some <==> data@.len() == width * height * 4,
            r matches Some(ts) ==> {
                &&& ts.wf()
                &&& ts.data@ == data@
                &&& ts.width == width
                &&& ts.height == height
                &&& ts.opts == opts
            },
    {
        proof {
            lemma_mul_upper_bound(width as int, 0xffff_ffff, height as int, 0xffff_ffff);
        }
        let need: u128 = width as u128 * height as u128 * 4;
        if data.len() as u128 == need {
            let tile_counts = calc_tile_counts(width, height, &opts);
            Some(Tileset { data, width, height, tile_counts, opts })
        } else {
            None
        }
    }

    /// Total amount of tiles in the tileset: the product of the two
    /// derived per-axis counts.
    pub fn tile_count(&self) -> (r: u64)
        ensures
            r == self.tile_counts.0 * self.tile_counts.1,
    {
        proof {
            lemma_mul_upper_bound(self.tile_counts.0 as int, 0xffff_ffff, self.tile_counts.1 as int,
                0xffff_ffff);
        }
        self.tile_counts.0 as u64 * self.tile_counts.1 as u64
    }

    /// Whether `id` is a valid tile id for this tileset.
    ///
    /// Basically `id < self.tile_count()`.
    pub fn contains(&self, id: TileId) -> (r: bool)
        ensures
            r == (id < self.tile_counts.0 * self.tile_counts.1),
    {
        (id as u64) < self.tile_count()
    }

    /// Tileset options used when creating the tileset.
    pub fn options(&self) -> (r: &TilesetOptions)
        ensures
            *r == self.opts,
    {
        &self.opts
    }

    /// Pixel x coordinate of tile `id`'s top-left corner, before any
    /// bounds check: column times horizontal stride, plus the offset.
    pub open spec fn tile_pos_x(self, id: TileId) -> int {
        (id % self.tile_counts.0) * (self.opts.tile_size.0 + self.opts.margin.0)
            + self.opts.offset.0
    }

    /// Pixel y coordinate of tile `id`'s top-left corner, before any
    /// bounds check: row times vertical stride, plus the offset.
    pub open spec fn tile_pos_y(self, id: TileId) -> int {
        (id / self.tile_counts.0) * (self.opts.tile_size.1 + self.opts.margin.1)
            + self.opts.offset.1
    }

    /// The bounds gate of [`Tileset::get_tile_pos`]: the tile's rectangle
    /// must end strictly before the image edge on both axes. A tile flush
    /// with the right or bottom edge is rejected; keep that exact boundary.
    pub open spec fn addressable(self, id: TileId) -> bool {
        &&& self.tile_pos_x(id) + self.opts.tile_size.0 < self.width
        &&& self.tile_pos_y(id) + self.opts.tile_size.1 < self.height
    }

    /// Get the position of a tile in the tileset.
    /// Useful if you need to render a single tile.
    ///
    /// The position is purely arithmetic from the id, the layout and the
    /// per-axis tile counts; the result is `Some` exactly when the tile's
    /// rectangle passes the strict bounds check. A tileset with zero tile
    /// columns has no position to compute (the id's column would be
    /// `id % 0`), so the caller must rule that out; rendering skips such
    /// a tileset wholesale.
    pub fn get_tile_pos(&self, id: TileId) -> (r: Option<(u32, u32)>)
        requires
            self.wf(),
            self.tile_counts.0 > 0,
        ensures
            r is Some <==> self.addressable(id),
            r matches Some(pos) ==> pos.0 == self.tile_pos_x(id) && pos.1 == self.tile_pos_y(id),
    {
        let col: u128 = (id % self.tile_counts.0) as u128;
        let row: u128 = (id / self.tile_counts.0) as u128;
        proof {
            lemma_mul_upper_bound(col as int, 0xffff_ffff, (self.opts.tile_size.0
                + self.opts.margin.0) as int, 0x1_ffff_fffe);
            lemma_mul_upper_bound(row as int, 0xffff_ffff, (self.opts.tile_size.1
                + self.opts.margin.1) as int, 0x1_ffff_fffe);
        }
        let x: u128 = col * (self.opts.tile_size.0 as u128 + self.opts.margin.0 as u128)
            + self.opts.offset.0 as u128;
        let y: u128 = row * (self.opts.tile_size.1 as u128 + self.opts.margin.1 as u128)
            + self.opts.offset.1 as u128;

        let tw: u128 = self.opts.tile_size.0 as u128;
        let th: u128 = self.opts.tile_size.1 as u128;
        if x + tw < self.width as u128 && y + th < self.height as u128 {
            Some((x as u32, y as u32))
        } else {
            None
        }
    }

    /// Under a layout with zero margin and offset whose tile size exactly
    /// tiles the image, every valid tile id that is not in the last tile
    /// column or row addresses a rectangle lying strictly inside
    /// `[0, width) x [0, height)`. (Tiles of the last column and row are
    /// flush with the image edge, and the strict bounds gate rejects
    /// those; see [`Tileset::addressable`].)
    pub proof fn lemma_full_tiling_inner_tile_in_bounds(self, id: TileId)
        requires
            self.wf(),
            self.opts.offset == (0u32, 0u32),
            self.opts.margin == (0u32, 0u32),
            self.opts.tile_size.0 > 0,
            self.opts.tile_size.1 > 0,
            self.tile_counts.0 * self.opts.tile_size.0 == self.width,
            self.tile_counts.1 * self.opts.tile_size.1 == self.height,
            id < self.tile_counts.0 * self.tile_counts.1,
            (id % self.tile_counts.0) + 1 < self.tile_counts.0,
            (id / self.tile_counts.0) + 1 < self.tile_counts.1,
        ensures
            self.addressable(id),
            0 <= self.tile_pos_x(id),
            self.tile_pos_x(id) + self.opts.tile_size.0 < self.width,
            0 <= self.tile_pos_y(id),
            self.tile_pos_y(id) + self.opts.tile_size.1 < self.height,
    {
        let c0 = self.tile_counts.0 as int;
        let c1 = self.tile_counts.1 as int;
        let tw = self.opts.tile_size.0 as int;
        let th = self.opts.tile_size.1 as int;
        let col = (id % self.tile_counts.0) as int;
        let row = (id / self.tile_counts.0) as int;
        assert(col * tw + tw < c0 * tw) by (nonlinear_arith)
            requires
                0 <= col,
                col + 1 < c0,
                tw > 0,
        ;
        assert(row * th + th < c1 * th) by (nonlinear_arith)
            requires
                0 <= row,
                row + 1 < c1,
                th > 0,
        ;
    }

    /// Index of the first byte of the pixel at (x, y).
    pub open spec fn pixel_index(self, x: int, y: int) -> int {
        (y * self.width + x) * 4
    }

    /// The color stored at pixel (x, y), read from the four bytes of the
    /// packed row-major RGBA buffer.
    pub open spec fn pixel_at(self, x: int, y: int) -> Color {
        Color {
            r: self.data@[self.pixel_index(x, y)],
            g: self.data@[self.pixel_index(x, y) + 1],
            b: self.data@[self.pixel_index(x, y) + 2],
            a: self.data@[self.pixel_index(x, y) + 3],
        }
    }

    proof fn lemma_pixel_index_in_range(self, x: int, y: int)
        requires
            self.wf(),
            0 <= x < self.width,
            0 <= y < self.height,
        ensures
            0 <= self.pixel_index(x, y),
            self.pixel_index(x, y) + 3 < self.data@.len(),
    {
        assert((y * self.width + x) * 4 + 3 < self.width * self.height * 4) by (nonlinear_arith)
            requires
                0 <= x < self.width,
                0 <= y < self.height,
        ;
    }

    /// Read the pixel at (x, y).
    pub fn get(&self, x: u32, y: u32) -> (c: Color)
        requires
            self.wf(),
            x < self.width,
            y < self.height,
        ensures
            c == self.pixel_at(x as int, y as int),
    {
        let _n: usize = self.data.len();
        proof {
            self.lemma_pixel_index_in_range(x as int, y as int);
            lemma_mul_upper_bound(y as int, 0xffff_ffff, self.width as int, 0xffff_ffff);
        }
        let i: usize = ((y as u64 * self.width as u64 + x as u64) * 4) as usize;
        Color::new(self.data[i], self.data[i + 1], self.data[i + 2], self.data[i + 3])
    }

    /// Overwrite the pixel at (x, y), bypassing tile semantics.
    pub fn set(&mut self, x: u32, y: u32, c: Color)
        requires
            old(self).wf(),
            x < old(self).width,
            y < old(self).height,
        ensures
            final(self).wf(),
            final(self).width == old(self).width,
            final(self).height == old(self).height,
            final(self).tile_counts == old(self).tile_counts,
            final(self).opts == old(self).opts,
            final(self).pixel_at(x as int, y as int) == c,
            forall|px: int, py: int|
                0 <= px < old(self).width && 0 <= py < old(self).height && !(px == x && py == y)
                    ==> final(self).pixel_at(px, py) == old(self).pixel_at(px, py),
    {
        let _n: usize = self.data.len();
        proof {
            self.lemma_pixel_index_in_range(x as int, y as int);
            lemma_mul_upper_bound(y as int, 0xffff_ffff, self.width as int, 0xffff_ffff);
        }
        let i: usize = ((y as u64 * self.width as u64 + x as u64) * 4) as usize;
        self.data.set(i, c.r);
        self.data.set(i + 1, c.g);
        self.data.set(i + 2, c.b);
        self.data.set(i + 3, c.a);
        proof {
            assert forall|px: int, py: int|
                0 <= px < self.width && 0 <= py < self.height && !(px == x && py == y)
                    implies self.pixel_at(px, py) == old(self).pixel_at(px, py) by {
                old(self).lemma_pixel_index_in_range(px, py);
                let w = old(self).width as int;
                let h = old(self).height as int;
                let xi = x as int;
                let yi = y as int;
                assert((py * w + px) * 4 + 3 < (yi * w + xi) * 4 || (yi * w + xi) * 4 + 3 < (py * w
                    + px) * 4) by (nonlinear_arith)
                    requires
                        0 <= px < w,
                        0 <= py < h,
                        0 <= xi < w,
                        0 <= yi < h,
                        !(px == xi && py == yi),
                ;
            }
        }
    }
}

} // verus!

