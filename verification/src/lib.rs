//! Tile addressing and compositing for packed RGBA8 pixel atlases.
//!
//! A [`Tileset`](tileset::Tileset) addresses same-sized tiles inside one
//! atlas image; a [`Tilemap`](tilemap::Tilemap) holds a dense grid of tile
//! references and composites them onto a destination surface with
//! gamma-aware tinting and key-color transparency.

mod color;
mod surface;
mod tilemap;
mod tileset;

pub use color::{tint, tint_channel_of, tinted, Color};
pub use surface::{Canvas, PixelSurface, PixelSurfaceMut};
pub use tilemap::{
    blit_pixel, blit_rect, composite, default_tile, draw_tile, grid_get, grid_set,
    lemma_blit_rect_offscreen, lemma_grid_set_then_get, lemma_key_pixel_never_written,
    render_upto, source_coord, BlitOptions, Tile, Tilemap,
};
pub use tileset::{calc_tile_counts, spec_tile_counts, wrap32, TileId, Tileset, TilesetOptions};
