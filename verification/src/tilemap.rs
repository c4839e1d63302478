//! Tiles, the tile grid, and the compositing render pass.

use vstd::prelude::*;
use vstd::arithmetic::div_mod::{
    lemma_div_pos_is_pos, lemma_fundamental_div_mod, lemma_fundamental_div_mod_converse,
    lemma_mod_bound, lemma_multiply_divide_lt,
};
use vstd::arithmetic::mul::lemma_mul_upper_bound;

use crate::color::{tint_color, tinted, Color};
use crate::surface::{lemma_rowmajor_in_range, PixelSurface, PixelSurfaceMut};
use crate::tileset::{TileId, Tileset};

verus! {

/// Transformations applied to a tile when it is drawn.
#[derive(Clone, Copy, Debug, PartialEq, Eq)]
pub enum BlitOptions {
    /// Draw the tile as it is stored.
    Plain,
    /// Mirror the tile left-to-right.
    FlipHorizontal,
    /// Mirror the tile top-to-bottom.
    FlipVertical,
    /// Mirror the tile both ways.
    FlipBoth,
}

/// The source-local pixel that lands on destination-local position (i, j)
/// of a `tw` x `th` tile drawn under `opts`.
pub open spec fn source_coord(opts: BlitOptions, i: int, j: int, tw: int, th: int) -> (int, int) {
    match opts {
        BlitOptions::Plain => (i, j),
        BlitOptions::FlipHorizontal => (tw - 1 - i, j),
        BlitOptions::FlipVertical => (i, th - 1 - j),
        BlitOptions::FlipBoth => (tw - 1 - i, th - 1 - j),
    }
}

/// The per-pixel compositing rule: a source pixel equal to the key color
/// leaves the destination untouched; any other source pixel replaces it
/// with the gamma-aware product of source and tint.
pub open spec fn composite(dst: Color, src: Color, tint: Color, key: Option<Color>) -> Color {
    if key == Some(src) {
        dst
    } else {
        tinted(src, tint)
    }
}

/// Value of destination pixel `k` (row-major in a surface `dw` wide) after
/// the `tile_size` rectangle of `ts` at (sx, sy) is drawn at (dx, dy) with
/// tint `tint` under `opts`: pixels outside the placed rectangle keep
/// `dst`, pixels inside follow [`composite`].
pub open spec fn blit_pixel(
    ts: Tileset,
    sx: int,
    sy: int,
    tint: Color,
    opts: BlitOptions,
    dx: int,
    dy: int,
    dw: int,
    dst: Color,
    k: int,
) -> Color {
    let i = k % dw - dx;
    let j = k / dw - dy;
    let tw = ts.opts.tile_size.0 as int;
    let th = ts.opts.tile_size.1 as int;
    if 0 <= i < tw && 0 <= j < th {
        let sc = source_coord(opts, i, j, tw, th);
        composite(dst, ts.pixel_at(sx + sc.0, sy + sc.1), tint, ts.opts.key_color)
    } else {
        dst
    }
}

/// The whole destination after one tile is drawn: [`blit_pixel`] at every
/// index.
pub open spec fn blit_rect(
    ts: Tileset,
    sx: int,
    sy: int,
    tint: Color,
    opts: BlitOptions,
    dx: int,
    dy: int,
    dw: int,
    dest: Seq<Color>,
) -> Seq<Color> {
    Seq::new(dest.len(), |k: int| blit_pixel(ts, sx, sy, tint, opts, dx, dy, dw, dest[k], k))
}

/// Whether destination index `k` lies under the placed tile rectangle and
/// strictly before tile-local position (i, j) in row-major order.
spec fn visited_before(dx: int, dy: int, tw: int, th: int, dw: int, i: int, j: int, k: int) -> bool {
    let ii = k % dw - dx;
    let jj = k / dw - dy;
    0 <= ii < tw && 0 <= jj < th && (jj < j || (jj == j && ii < i))
}

/// Destination pixel `k` in the middle of drawing a tile: already-visited
/// positions show their composited value, the rest still show `base`.
spec fn partial_pix(
    ts: Tileset,
    sx: int,
    sy: int,
    tint: Color,
    opts: BlitOptions,
    dx: int,
    dy: int,
    dw: int,
    base: Seq<Color>,
    i: int,
    j: int,
    k: int,
) -> Color {
    if visited_before(dx, dy, ts.opts.tile_size.0 as int, ts.opts.tile_size.1 as int, dw, i, j, k) {
        blit_pixel(ts, sx, sy, tint, opts, dx, dy, dw, base[k], k)
    } else {
        base[k]
    }
}

/// Row-major index decomposition: an index below `w * h` splits into a
/// column below `w` and a row below `h`.
proof fn lemma_rowmajor_decompose(w: int, h: int, k: int)
    requires
        w > 0,
        h > 0,
        0 <= k < w * h,
    ensures
        0 <= k % w < w,
        0 <= k / w < h,
        k == (k / w) * w + (k % w),
{
    lemma_fundamental_div_mod(k, w);
    lemma_mod_bound(k, w);
    lemma_div_pos_is_pos(k, w);
    assert(k < w * h) by (nonlinear_arith)
        requires
            0 <= k < w * h,
    ;
    lemma_multiply_divide_lt(k, w, h);
    assert(k == w * (k / w) + (k % w));
    assert(w * (k / w) == (k / w) * w) by (nonlinear_arith);
}

/// Drawing a tile placed wholly outside the destination changes nothing.
pub proof fn lemma_blit_rect_offscreen(
    ts: Tileset,
    sx: int,
    sy: int,
    tint: Color,
    opts: BlitOptions,
    dx: int,
    dy: int,
    dw: int,
    dh: int,
    dest: Seq<Color>,
)
    requires
        dw > 0,
        dh > 0,
        dest.len() == dw * dh,
        dx >= dw || dy >= dh || dx + ts.opts.tile_size.0 <= 0 || dy + ts.opts.tile_size.1 <= 0,
    ensures
        blit_rect(ts, sx, sy, tint, opts, dx, dy, dw, dest) == dest,
{
    assert forall|k: int| 0 <= k < dest.len() implies blit_rect(
        ts,
        sx,
        sy,
        tint,
        opts,
        dx,
        dy,
        dw,
        dest,
    )[k] == dest[k] by {
        lemma_rowmajor_decompose(dw, dh, k);
    }
    assert(blit_rect(ts, sx, sy, tint, opts, dx, dy, dw, dest) =~= dest);
}

/// Key-color pixels are never written: if the source pixel feeding
/// destination index `k` equals the key color (or no tile pixel lands on
/// `k` at all), drawing the tile leaves that destination pixel as it was.
pub proof fn lemma_key_pixel_never_written(
    ts: Tileset,
    sx: int,
    sy: int,
    tint: Color,
    opts: BlitOptions,
    dx: int,
    dy: int,
    dw: int,
    dest: Seq<Color>,
    k: int,
)
    requires
        dw > 0,
        0 <= k < dest.len(),
        ({
            let i = k % dw - dx;
            let j = k / dw - dy;
            let tw = ts.opts.tile_size.0 as int;
            let th = ts.opts.tile_size.1 as int;
            let sc = source_coord(opts, i, j, tw, th);
            0 <= i < tw && 0 <= j < th ==> ts.opts.key_color == Some(
                ts.pixel_at(sx + sc.0, sy + sc.1),
            )
        }),
    ensures
        blit_rect(ts, sx, sy, tint, opts, dx, dy, dw, dest)[k] == dest[k],
{
}

/// Tile in a [`Tilemap`]: a reference into the tileset plus how to draw it.
#[derive(Clone, Copy, Debug, PartialEq, Eq)]
pub struct Tile {
    /// Id of the tile.
    pub id: TileId,
    /// Color of the tile.
    /// Will be multiplied by the tile's 'original' color (the one in the tileset).
    pub color: Color,
    /// Blit options.
    pub opts: BlitOptions,
}

/// The tile a fresh map cell holds: id 0, opaque white (so the tileset
/// pixels come through unchanged), drawn plainly.
pub open spec fn default_tile() -> Tile {
    Tile { id: 0, color: Color { r: 255, g: 255, b: 255, a: 255 }, opts: BlitOptions::Plain }
}

impl Default for Tile {
    fn default() -> (r: Tile)
        ensures
            r == default_tile(),
    {
        Tile {
            id: 0,
            color: Color { r: 255, g: 255, b: 255, a: 255 },
            opts: BlitOptions::Plain,
        }
    }
}

impl Tile {
    /// Construct a new tile with an opaque white tint and no transform.
    pub fn new(id: TileId) -> (r: Tile)
        ensures
            r == (Tile { id, ..default_tile() }),
    {
        Tile {
            id,
            color: Color { r: 255, g: 255, b: 255, a: 255 },
            opts: BlitOptions::Plain,
        }
    }

    /// Set tile color.
    ///
    /// Allows for chaining tile creation.
    pub fn with_color(self, color: Color) -> (r: Tile)
        ensures
            r == (Tile { color, ..self }),
    {
        Tile { color, ..self }
    }

    /// Set tile color through a mutable reference.
    pub fn set_color(&mut self, color: Color)
        ensures
            *final(self) == (Tile { color, ..*old(self) }),
    {
        self.color = color;
    }

    /// Specify the blit options.
    ///
    /// Allows for chaining tile creation.
    pub fn with_blit_options(self, opts: BlitOptions) -> (r: Tile)
        ensures
            r == (Tile { opts, ..self }),
    {
        Tile { opts, ..self }
    }

    /// Set the tile's blit options through a mutable reference.
    pub fn set_blit_options(&mut self, opts: BlitOptions)
        ensures
            *final(self) == (Tile { opts, ..*old(self) }),
    {
        self.opts = opts;
    }
}

/// Draw the `tile_size` rectangle of `ts` whose top-left pixel is (sx, sy)
/// onto `dest` at (dx, dy), tinting with `tint` and skipping key-color
/// pixels, under transform `opts`. The rectangle is clipped to `dest`.
pub fn draw_tile<S: PixelSurfaceMut>(
    ts: &Tileset,
    sx: u32,
    sy: u32,
    tint: Color,
    opts: BlitOptions,
    dest: &mut S,
    dx: i64,
    dy: i64,
)
    requires
        ts.wf(),
        sx + ts.opts.tile_size.0 <= ts.width,
        sy + ts.opts.tile_size.1 <= ts.height,
        old(dest).surface_wf(),
        -0x1_0000_0000 <= dx <= 0x1_0000_0000,
        -0x1_0000_0000 <= dy <= 0x1_0000_0000,
    ensures
        final(dest).surface_wf(),
        final(dest).spec_width() == old(dest).spec_width(),
        final(dest).spec_height() == old(dest).spec_height(),
        final(dest).pixels() == blit_rect(
            *ts,
            sx as int,
            sy as int,
            tint,
            opts,
            dx as int,
            dy as int,
            old(dest).spec_width(),
            old(dest).pixels(),
        ),
{
    let ghost base = old(dest).pixels();
    let ghost bw = old(dest).spec_width();
    let ghost bh = old(dest).spec_height();
    proof {
        dest.surface_size_ok();
    }
    let tw: u32 = ts.opts.tile_size.0;
    let th: u32 = ts.opts.tile_size.1;
    let dw: u32 = dest.width();
    let dh: u32 = dest.height();
    let mut j: u32 = 0;
    while j < th
        invariant
            ts.wf(),
            tw == ts.opts.tile_size.0,
            th == ts.opts.tile_size.1,
            sx + tw <= ts.width,
            sy + th <= ts.height,
            -0x1_0000_0000 <= dx <= 0x1_0000_0000,
            -0x1_0000_0000 <= dy <= 0x1_0000_0000,
            dw == bw,
            dh == bh,
            base.len() == bw * bh,
            j <= th,
            dest.surface_wf(),
            dest.spec_width() == bw,
            dest.spec_height() == bh,
            dest.pixels().len() == base.len(),
            forall|k: int|
                0 <= k < base.len() ==> #[trigger] dest.pixels()[k] == partial_pix(
                    *ts,
                    sx as int,
                    sy as int,
                    tint,
                    opts,
                    dx as int,
                    dy as int,
                    bw,
                    base,
                    0,
                    j as int,
                    k,
                ),
        decreases th - j,
    {
        let mut i: u32 = 0;
        while i < tw
            invariant
                ts.wf(),
                tw == ts.opts.tile_size.0,
                th == ts.opts.tile_size.1,
                sx + tw <= ts.width,
                sy + th <= ts.height,
                -0x1_0000_0000 <= dx <= 0x1_0000_0000,
                -0x1_0000_0000 <= dy <= 0x1_0000_0000,
                dw == bw,
                dh == bh,
                base.len() == bw * bh,
                i <= tw,
                j < th,
                dest.surface_wf(),
                dest.spec_width() == bw,
                dest.spec_height() == bh,
                dest.pixels().len() == base.len(),
                forall|k: int|
                    0 <= k < base.len() ==> #[trigger] dest.pixels()[k] == partial_pix(
                        *ts,
                        sx as int,
                        sy as int,
                        tint,
                        opts,
                        dx as int,
                        dy as int,
                        bw,
                        base,
                        i as int,
                        j as int,
                        k,
                    ),
            decreases tw - i,
        {
            let ghost before = dest.pixels();
            let px: i64 = dx + i as i64;
            let py: i64 = dy + j as i64;
            if 0 <= px && px < dw as i64 && 0 <= py && py < dh as i64 {
                let si: u32 = match opts {
                    BlitOptions::Plain => i,
                    BlitOptions::FlipHorizontal => tw - 1 - i,
                    BlitOptions::FlipVertical => i,
                    BlitOptions::FlipBoth => tw - 1 - i,
                };
                let sj: u32 = match opts {
                    BlitOptions::Plain => j,
                    BlitOptions::FlipHorizontal => j,
                    BlitOptions::FlipVertical => th - 1 - j,
                    BlitOptions::FlipBoth => th - 1 - j,
                };
                let s: Color = ts.get(sx + si, sy + sj);
                let write: bool = match &ts.opts.key_color {
                    Some(kc) => !(*kc == s),
                    None => true,
                };
                if write {
                    let c = tint_color(s, tint);
                    dest.set(px as u32, py as u32, c);
                    proof {
                        assert(c == tinted(s, tint));
                    }
                }
                proof {
                    let u = (py as int) * bw + (px as int);
                    lemma_rowmajor_in_range(px as int, py as int, bw, bh);
                    lemma_fundamental_div_mod_converse(u, bw, py as int, px as int);
                    assert forall|k: int| 0 <= k < base.len() implies dest.pixels()[k]
                        == partial_pix(
                        *ts,
                        sx as int,
                        sy as int,
                        tint,
                        opts,
                        dx as int,
                        dy as int,
                        bw,
                        base,
                        i as int + 1,
                        j as int,
                        k,
                    ) by {
                        lemma_rowmajor_decompose(bw, bh, k);
                        if k != u {
                            assert(before[k] == partial_pix(
                                *ts,
                                sx as int,
                                sy as int,
                                tint,
                                opts,
                                dx as int,
                                dy as int,
                                bw,
                                base,
                                i as int,
                                j as int,
                                k,
                            ));
                        }
                    }
                }
            } else {
                proof {
                    assert forall|k: int| 0 <= k < base.len() implies dest.pixels()[k]
                        == partial_pix(
                        *ts,
                        sx as int,
                        sy as int,
                        tint,
                        opts,
                        dx as int,
                        dy as int,
                        bw,
                        base,
                        i as int + 1,
                        j as int,
                        k,
                    ) by {
                        lemma_rowmajor_decompose(bw, bh, k);
                    }
                }
            }
            i = i + 1;
        }
        j = j + 1;
    }
    proof {
        assert(dest.pixels() =~= blit_rect(
            *ts,
            sx as int,
            sy as int,
            tint,
            opts,
            dx as int,
            dy as int,
            bw,
            base,
        ));
    }
}

/// The tile held at grid cell (x, y), or nothing when the coordinate is
/// out of bounds.
pub open spec fn grid_get(tiles: Seq<Tile>, w: int, h: int, x: int, y: int) -> Option<Tile> {
    if 0 <= x < w && 0 <= y < h {
        Some(tiles[y * w + x])
    } else {
        None
    }
}

/// The grid after cell (x, y) is overwritten with `t`; an out-of-bounds
/// coordinate leaves the grid unchanged.
pub open spec fn grid_set(tiles: Seq<Tile>, w: int, h: int, x: int, y: int, t: Tile) -> Seq<
    Tile,
> {
    if 0 <= x < w && 0 <= y < h {
        tiles.update(y * w + x, t)
    } else {
        tiles
    }
}

/// Setting a cell then reading it gives the tile back for any in-bounds
/// coordinate; for an out-of-bounds coordinate the write is a no-op and
/// the read yields nothing.
pub proof fn lemma_grid_set_then_get(tiles: Seq<Tile>, w: int, h: int, x: int, y: int, t: Tile)
    requires
        tiles.len() == w * h,
    ensures
        0 <= x < w && 0 <= y < h ==> grid_get(grid_set(tiles, w, h, x, y, t), w, h, x, y)
            == Some(t),
        !(0 <= x < w && 0 <= y < h) ==> grid_set(tiles, w, h, x, y, t) == tiles && grid_get(
            tiles,
            w,
            h,
            x,
            y,
        ) is None,
{
    if 0 <= x < w && 0 <= y < h {
        lemma_rowmajor_in_range(x, y, w, h);
    }
}

/// A map that holds a tileset and a dense grid of tiles.
#[derive(Debug)]
pub struct Tilemap {
    /// The tileset the grid's tile ids refer to.
    pub tileset: Tileset,
    /// The tiles, row-major: index `y * width + x` holds cell (x, y).
    pub tiles: Vec<Tile>,
    /// Map's width in tiles.
    pub width: u32,
    /// Map's height in tiles.
    pub height: u32,
}

/// The destination after the first `n` cells of the map (in row-major
/// order) have been drawn at pixel offset (ox, oy): each cell whose tile
/// id has an addressable rectangle blits that rectangle at the cell's
/// grid position scaled by the tile size; every other cell draws nothing.
/// A tileset with no tile columns draws nothing at all.
pub open spec fn render_upto(
    m: Tilemap,
    base: Seq<Color>,
    dw: int,
    ox: int,
    oy: int,
    n: int,
) -> Seq<Color>
    decreases n,
{
    if n <= 0 || m.tileset.tile_counts.0 == 0 {
        base
    } else {
        let prev = render_upto(m, base, dw, ox, oy, n - 1);
        let cell = n - 1;
        let t = m.tiles@[cell];
        if m.tileset.addressable(t.id) {
            blit_rect(
                m.tileset,
                m.tileset.tile_pos_x(t.id),
                m.tileset.tile_pos_y(t.id),
                t.color,
                t.opts,
                ox + (cell % (m.width as int)) * m.tileset.opts.tile_size.0,
                oy + (cell / (m.width as int)) * m.tileset.opts.tile_size.1,
                dw,
                prev,
            )
        } else {
            prev
        }
    }
}

impl Clone for Tilemap {
    fn clone(&self) -> (r: Self)
        ensures
            r.tileset.data@ == self.tileset.data@,
            r.tileset.width == self.tileset.width,
            r.tileset.height == self.tileset.height,
            r.tileset.tile_counts == self.tileset.tile_counts,
            r.tileset.opts == self.tileset.opts,
            r.tiles@ == self.tiles@,
            r.width == self.width,
            r.height == self.height,
    {
        let tiles = self.tiles.clone();
        proof {
            assert(tiles@ =~= self.tiles@);
        }
        Tilemap {
            tileset: self.tileset.clone(),
            tiles,
            width: self.width,
            height: self.height,
        }
    }
}

impl Tilemap {
    /// Well-formedness: the tileset is coherent and the grid covers the
    /// whole rectangle.
    pub open spec fn wf(self) -> bool {
        &&& self.tileset.wf()
        &&& self.tiles@.len() == self.width * self.height
    }

    /// Construct a new tilemap of `width` x `height` cells, every one the
    /// default tile.
    pub fn new(width: u32, height: u32, tileset: Tileset) -> (r: Tilemap)
        requires
            tileset.wf(),
            width * height <= u32::MAX,
        ensures
            r.wf(),
            r.width == width,
            r.height == height,
            r.tileset == tileset,
            forall|k: int| 0 <= k < r.tiles@.len() ==> r.tiles@[k] == default_tile(),
    {
        let n: u64 = width as u64 * height as u64;
        let mut tiles: Vec<Tile> = Vec::new();
        let mut k: u64 = 0;
        while k < n
            invariant
                k <= n,
                tiles@.len() == k,
                forall|q: int| 0 <= q < k ==> tiles@[q] == default_tile(),
            decreases n - k,
        {
            tiles.push(Tile::default());
            k = k + 1;
        }
        Tilemap { tileset, tiles, width, height }
    }

    /// Map's width in tiles.
    pub fn width(&self) -> (r: u32)
        ensures
            r == self.width,
    {
        self.width
    }

    /// Map's height in tiles.
    pub fn height(&self) -> (r: u32)
        ensures
            r == self.height,
    {
        self.height
    }

    /// Tileset used by this map.
    pub fn tileset(&self) -> (r: &Tileset)
        ensures
            r == self.tileset,
    {
        &self.tileset
    }

    /// Map's tiles, row-major.
    pub fn tiles(&self) -> (r: &Vec<Tile>)
        ensures
            r@ == self.tiles@,
    {
        &self.tiles
    }

    /// Get a tile at (x, y); `None` when (x, y) is out of bounds.
    pub fn get_tile(&self, x: u32, y: u32) -> (r: Option<Tile>)
        requires
            self.wf(),
        ensures
            r == grid_get(self.tiles@, self.width as int, self.height as int, x as int, y as int),
    {
        if x < self.width && y < self.height {
            proof {
                lemma_rowmajor_in_range(x as int, y as int, self.width as int, self.height as int);
                lemma_mul_upper_bound(y as int, 0xffff_ffff, self.width as int, 0xffff_ffff);
            }
            let _n: usize = self.tiles.len();
            let i: usize = (y as u64 * self.width as u64 + x as u64) as usize;
            Some(self.tiles[i])
        } else {
            None
        }
    }

    /// Set a tile at (x, y); a no-op when (x, y) is out of bounds.
    pub fn set_tile(&mut self, x: u32, y: u32, tile: Tile)
        requires
            old(self).wf(),
        ensures
            final(self).wf(),
            final(self).tileset == old(self).tileset,
            final(self).width == old(self).width,
            final(self).height == old(self).height,
            final(self).tiles@ == grid_set(
                old(self).tiles@,
                old(self).width as int,
                old(self).height as int,
                x as int,
                y as int,
                tile,
            ),
    {
        if x < self.width && y < self.height {
            proof {
                lemma_rowmajor_in_range(x as int, y as int, self.width as int, self.height as int);
                lemma_mul_upper_bound(y as int, 0xffff_ffff, self.width as int, 0xffff_ffff);
            }
            let _n: usize = self.tiles.len();
            let i: usize = (y as u64 * self.width as u64 + x as u64) as usize;
            self.tiles.set(i, tile);
        }
    }

    /// Render the map onto `dest` at pixel offset (offset_x, offset_y).
    ///
    /// Cells are drawn in row-major order; a cell whose tile id has no
    /// addressable rectangle is skipped silently, and everything is
    /// clipped to `dest`. Nothing here can fail.
    pub fn render<S: PixelSurfaceMut>(&self, dest: &mut S, offset_x: i32, offset_y: i32)
        requires
            self.wf(),
            old(dest).surface_wf(),
        ensures
            final(dest).surface_wf(),
            final(dest).spec_width() == old(dest).spec_width(),
            final(dest).spec_height() == old(dest).spec_height(),
            final(dest).pixels() == render_upto(
                *self,
                old(dest).pixels(),
                old(dest).spec_width(),
                offset_x as int,
                offset_y as int,
                self.width * self.height,
            ),
    {
        let ghost base = old(dest).pixels();
        let ghost bw = old(dest).spec_width();
        let ghost bh = old(dest).spec_height();
        let ghost total = (self.width * self.height) as int;
        proof {
            dest.surface_size_ok();
            lemma_mul_upper_bound(self.width as int, 0xffff_ffff, self.height as int, 0xffff_ffff);
        }
        if self.tileset.tile_counts.0 == 0 || self.width == 0 {
            return ;
        }
        let w: u32 = self.width;
        let tw: u32 = self.tileset.opts.tile_size.0;
        let th: u32 = self.tileset.opts.tile_size.1;
        let len: usize = self.tiles.len();
        let n: u64 = w as u64 * self.height as u64;
        let mut cell: u64 = 0;
        while cell < n
            invariant
                self.wf(),
                self.tileset.tile_counts.0 > 0,
                w == self.width,
                tw == self.tileset.opts.tile_size.0,
                th == self.tileset.opts.tile_size.1,
                n == self.width * self.height,
                n == len,
                len == self.tiles@.len(),
                cell <= n,
                w > 0,
                0 <= bw <= 0xffff_ffff,
                0 <= bh <= 0xffff_ffff,
                base.len() == bw * bh,
                dest.surface_wf(),
                dest.spec_width() == bw,
                dest.spec_height() == bh,
                dest.pixels().len() == base.len(),
                dest.pixels() == render_upto(
                    *self,
                    base,
                    bw,
                    offset_x as int,
                    offset_y as int,
                    cell as int,
                ),
            decreases n - cell,
        {
            proof {
                lemma_div_pos_is_pos(cell as int, w as int);
                lemma_multiply_divide_lt(cell as int, w as int, self.height as int);
            }
            let tx: u32 = (cell % w as u64) as u32;
            let ty: u32 = (cell / w as u64) as u32;
            let t: Tile = self.tiles[cell as usize];
            let ghost prev = dest.pixels();
            match self.tileset.get_tile_pos(t.id) {
                Some(pos) => {
                    let (sx, sy): (u32, u32) = pos;
                    proof {
                        lemma_mul_upper_bound(tx as int, 0xffff_ffff, tw as int, 0xffff_ffff);
                        lemma_mul_upper_bound(ty as int, 0xffff_ffff, th as int, 0xffff_ffff);
                    }
                    let dx: i128 = offset_x as i128 + tx as i128 * tw as i128;
                    let dy: i128 = offset_y as i128 + ty as i128 * th as i128;
                    if dx <= 0x1_0000_0000 && dy <= 0x1_0000_0000 {
                        draw_tile(&self.tileset, sx, sy, t.color, t.opts, dest, dx as i64,
                            dy as i64);
                    } else {
                        proof {
                            if bw > 0 && bh > 0 {
                                lemma_blit_rect_offscreen(
                                    self.tileset,
                                    sx as int,
                                    sy as int,
                                    t.color,
                                    t.opts,
                                    dx as int,
                                    dy as int,
                                    bw,
                                    bh,
                                    prev,
                                );
                            } else {
                                assert(blit_rect(
                                    self.tileset,
                                    sx as int,
                                    sy as int,
                                    t.color,
                                    t.opts,
                                    dx as int,
                                    dy as int,
                                    bw,
                                    prev,
                                ) =~= prev);
                            }
                        }
                    }
                },
                None => {},
            }
            cell = cell + 1;
        }
    }
}

} // verus!
