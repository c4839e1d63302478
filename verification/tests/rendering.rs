use tilemap::{
    draw_tile, tint, BlitOptions, Canvas, Color, PixelSurface, PixelSurfaceMut, Tile, Tilemap,
    Tileset, TilesetOptions,
};

const SENTINEL: Color = Color { r: 10, g: 20, b: 30, a: 40 };

fn white() -> Color {
    Color::new(255, 255, 255, 255)
}

/// An 8x8 atlas whose pixel (x, y) holds (x * 16, y * 16, 5, 255).
fn gradient_atlas(opts: TilesetOptions) -> Tileset {
    let mut data = Vec::with_capacity(256);
    for y in 0..8u8 {
        for x in 0..8u8 {
            data.extend_from_slice(&[x * 16, y * 16, 5, 255]);
        }
    }
    Tileset::new(data, 8, 8, opts).unwrap()
}

fn atlas_pixel(x: u8, y: u8) -> Color {
    Color::new(x * 16, y * 16, 5, 255)
}

#[test]
fn tint_round_trips_at_the_extremes() {
    let src = Color::new(200, 100, 50, 255);
    // Identity tint: every channel decodes, multiplies by 1.0 and
    // round-trips to itself.
    assert_eq!(tint(src, white()), src);
    // Black opaque tint: color channels collapse, alpha is kept.
    assert_eq!(tint(src, Color::new(0, 0, 0, 255)), Color::new(0, 0, 0, 255));
    assert_eq!(
        tint(Color::new(9, 9, 9, 123), Color::new(0, 0, 0, 255)),
        Color::new(0, 0, 0, 123)
    );
    // A full-white source takes the tint's value, channel by channel.
    let t = Color::new(128, 7, 200, 40);
    assert_eq!(tint(white(), t), t);
    // Zero stays zero whichever side it is on.
    assert_eq!(tint(Color::new(0, 0, 0, 0), t), Color::new(0, 0, 0, 0));
}

#[test]
fn tile_builders() {
    let t = Tile::new(7);
    assert_eq!(t.id, 7);
    assert_eq!(t.color, white());
    assert_eq!(t.opts, BlitOptions::Plain);
    assert_eq!(Tile::default(), Tile::new(0));

    let c = Color::new(1, 2, 3, 4);
    let t = Tile::new(7).with_color(c).with_blit_options(BlitOptions::FlipBoth);
    assert_eq!(t.color, c);
    assert_eq!(t.opts, BlitOptions::FlipBoth);

    let mut t = Tile::new(1);
    t.set_color(c);
    t.set_blit_options(BlitOptions::FlipVertical);
    assert_eq!(t, Tile::new(1).with_color(c).with_blit_options(BlitOptions::FlipVertical));
}

#[test]
fn canvas_fill_get_set() {
    let mut c = Canvas::new(3, 2, SENTINEL);
    assert_eq!(c.width(), 3);
    assert_eq!(c.height(), 2);
    for y in 0..2 {
        for x in 0..3 {
            assert_eq!(c.get(x, y), SENTINEL);
        }
    }
    let v = Color::new(1, 1, 1, 1);
    c.set(2, 1, v);
    assert_eq!(c.get(2, 1), v);
    assert_eq!(c.get(1, 1), SENTINEL);
}

#[test]
fn grid_accessors_in_and_out_of_bounds() {
    let ts = gradient_atlas(TilesetOptions::new(4, 4));
    let mut map = Tilemap::new(2, 2, ts);
    assert_eq!(map.width(), 2);
    assert_eq!(map.height(), 2);
    assert_eq!(map.tiles().len(), 4);
    for t in map.tiles() {
        assert_eq!(*t, Tile::default());
    }

    let t = Tile::new(3).with_color(Color::new(9, 9, 9, 9));
    map.set_tile(1, 0, t);
    assert_eq!(map.get_tile(1, 0), Some(t));
    assert_eq!(map.get_tile(0, 0), Some(Tile::default()));

    // Out of bounds: reads give nothing, writes change nothing. In
    // particular (2, 0) must not alias cell (0, 1).
    assert_eq!(map.get_tile(2, 0), None);
    assert_eq!(map.get_tile(0, 2), None);
    let before = map.tiles().clone();
    map.set_tile(2, 0, t);
    map.set_tile(0, 7, t);
    assert_eq!(*map.tiles(), before);
}

#[test]
fn identity_tint_reproduces_source() {
    // An opaque white tint must reproduce every source pixel exactly.
    let ts = gradient_atlas(TilesetOptions::new(4, 4));
    let mut dest = Canvas::new(4, 4, SENTINEL);
    draw_tile(&ts, 0, 0, white(), BlitOptions::Plain, &mut dest, 0, 0);
    for y in 0..4u32 {
        for x in 0..4u32 {
            assert_eq!(dest.get(x, y), atlas_pixel(x as u8, y as u8));
        }
    }
}

#[test]
fn black_tint_collapses_color_channels() {
    // A (0, 0, 0, 255) tint zeroes red, green and blue; alpha follows the
    // same multiplicative rule, so an opaque source stays opaque.
    let mut data = vec![0u8; 256];
    data[0..4].copy_from_slice(&[200, 100, 50, 255]);
    data[4..8].copy_from_slice(&[7, 250, 33, 123]);
    let ts = Tileset::new(data, 8, 8, TilesetOptions::new(4, 4)).unwrap();
    let mut dest = Canvas::new(4, 4, SENTINEL);
    draw_tile(&ts, 0, 0, Color::new(0, 0, 0, 255), BlitOptions::Plain, &mut dest, 0, 0);
    assert_eq!(dest.get(0, 0), Color::new(0, 0, 0, 255));
    assert_eq!(dest.get(1, 0), Color::new(0, 0, 0, 123));
}

#[test]
fn white_source_takes_tint_value() {
    // Tinting a full-white source pixel gives the tint itself back:
    // the conversion tables round-trip every byte.
    let data = vec![255u8; 256];
    let ts = Tileset::new(data, 8, 8, TilesetOptions::new(4, 4)).unwrap();
    let tint = Color::new(128, 7, 200, 255);
    let mut dest = Canvas::new(4, 4, SENTINEL);
    draw_tile(&ts, 0, 0, tint, BlitOptions::Plain, &mut dest, 0, 0);
    assert_eq!(dest.get(0, 0), tint);
    assert_eq!(dest.get(3, 3), tint);
}

#[test]
fn key_color_pixels_are_never_written() {
    let key = Color::new(1, 2, 3, 4);
    let mut data = vec![0u8; 256];
    data[0..4].copy_from_slice(&[1, 2, 3, 4]); // pixel (0,0) is the key
    data[4..8].copy_from_slice(&[50, 60, 70, 255]);
    let ts = Tileset::new(data, 8, 8, TilesetOptions::new(4, 4).with_key_color(key)).unwrap();
    let mut dest = Canvas::new(4, 4, SENTINEL);
    draw_tile(&ts, 0, 0, white(), BlitOptions::Plain, &mut dest, 0, 0);
    assert_eq!(dest.get(0, 0), SENTINEL);
    assert_eq!(dest.get(1, 0), Color::new(50, 60, 70, 255));
}

#[test]
fn render_skips_out_of_range_tiles() {
    // A 2x2-tile map: cell (1, 1) holds tile 0 with a white tint, every
    // other cell an out-of-range id. Only cell (1, 1)'s 4x4 pixel block
    // is drawn; the rest of the destination keeps the sentinel.
    let ts = gradient_atlas(TilesetOptions::new(4, 4));
    let mut map = Tilemap::new(2, 2, ts);
    map.set_tile(0, 0, Tile::new(99));
    map.set_tile(1, 0, Tile::new(99));
    map.set_tile(0, 1, Tile::new(99));
    map.set_tile(1, 1, Tile::new(0));
    let mut dest = Canvas::new(8, 8, SENTINEL);
    map.render(&mut dest, 0, 0);
    for y in 0..8u32 {
        for x in 0..8u32 {
            if x >= 4 && y >= 4 {
                assert_eq!(dest.get(x, y), atlas_pixel((x - 4) as u8, (y - 4) as u8));
            } else {
                assert_eq!(dest.get(x, y), SENTINEL);
            }
        }
    }
}

#[test]
fn render_clips_to_destination() {
    // One cell drawn at offset (6, 6) on an 8x8 canvas: only the tile's
    // top-left 2x2 corner lands inside.
    let ts = gradient_atlas(TilesetOptions::new(4, 4));
    let map = Tilemap::new(1, 1, ts);
    let mut dest = Canvas::new(8, 8, SENTINEL);
    map.render(&mut dest, 6, 6);
    for y in 0..8u32 {
        for x in 0..8u32 {
            if x >= 6 && y >= 6 {
                assert_eq!(dest.get(x, y), atlas_pixel((x - 6) as u8, (y - 6) as u8));
            } else {
                assert_eq!(dest.get(x, y), SENTINEL);
            }
        }
    }

    // A negative offset clips the other corner.
    let ts = gradient_atlas(TilesetOptions::new(4, 4));
    let map = Tilemap::new(1, 1, ts);
    let mut dest = Canvas::new(8, 8, SENTINEL);
    map.render(&mut dest, -2, -3);
    assert_eq!(dest.get(0, 0), atlas_pixel(2, 3));
    assert_eq!(dest.get(1, 0), atlas_pixel(3, 3));
    assert_eq!(dest.get(2, 0), SENTINEL);
    assert_eq!(dest.get(0, 1), SENTINEL);
}

#[test]
fn flips_mirror_the_tile() {
    let ts = gradient_atlas(TilesetOptions::new(4, 4));

    let mut dest = Canvas::new(4, 4, SENTINEL);
    draw_tile(&ts, 0, 0, white(), BlitOptions::FlipHorizontal, &mut dest, 0, 0);
    for y in 0..4u32 {
        for x in 0..4u32 {
            assert_eq!(dest.get(x, y), atlas_pixel((3 - x) as u8, y as u8));
        }
    }

    let mut dest = Canvas::new(4, 4, SENTINEL);
    draw_tile(&ts, 0, 0, white(), BlitOptions::FlipVertical, &mut dest, 0, 0);
    for y in 0..4u32 {
        for x in 0..4u32 {
            assert_eq!(dest.get(x, y), atlas_pixel(x as u8, (3 - y) as u8));
        }
    }

    let mut dest = Canvas::new(4, 4, SENTINEL);
    draw_tile(&ts, 0, 0, white(), BlitOptions::FlipBoth, &mut dest, 0, 0);
    for y in 0..4u32 {
        for x in 0..4u32 {
            assert_eq!(dest.get(x, y), atlas_pixel((3 - x) as u8, (3 - y) as u8));
        }
    }
}

#[test]
fn render_uses_per_cell_tint_and_transform() {
    // Cell (0, 0) black-tinted, cell (1, 0) flipped horizontally.
    let ts = gradient_atlas(TilesetOptions::new(4, 4));
    let mut map = Tilemap::new(2, 1, ts);
    map.set_tile(0, 0, Tile::new(0).with_color(Color::new(0, 0, 0, 255)));
    map.set_tile(1, 0, Tile::new(0).with_blit_options(BlitOptions::FlipHorizontal));
    let mut dest = Canvas::new(8, 4, SENTINEL);
    map.render(&mut dest, 0, 0);
    assert_eq!(dest.get(0, 0), Color::new(0, 0, 0, 255));
    assert_eq!(dest.get(3, 3), Color::new(0, 0, 0, 255));
    for y in 0..4u32 {
        for x in 0..4u32 {
            assert_eq!(dest.get(4 + x, y), atlas_pixel((3 - x) as u8, y as u8));
        }
    }
}

#[test]
fn tileset_reads_as_a_surface() {
    let ts = gradient_atlas(TilesetOptions::new(4, 4));
    assert_eq!(PixelSurface::width(&ts), 8);
    assert_eq!(PixelSurface::height(&ts), 8);
    assert_eq!(PixelSurface::get(&ts, 2, 5), atlas_pixel(2, 5));
}
