//! Tests for the column rasterizer and the frame buffer: color lookup
//! and shading, exact pixel output, column independence, resize
//! idempotence, and render determinism.

use raymarch::camera::Camera;
use raymarch::column::{draw_column, shade_channel, wall_color};
use raymarch::framebuffer::Renderer;
use raymarch::raycast::raycast;
use raymarch::tilemap::TileMap;

const SCALE: u64 = 65536;

fn channel_at(pixels: &[u8], width: usize, x: usize, y: usize, c: usize) -> u8 {
    pixels[(y * width + x) * 4 + c]
}

#[test]
fn wall_colors_by_material() {
    let blue = wall_color(1, 0);
    assert_eq!((blue.r, blue.g, blue.b, blue.a), (0, 0, 255, 255));
    let green = wall_color(2, 0);
    assert_eq!((green.r, green.g, green.b, green.a), (0, 255, 0, 255));
    let red = wall_color(3, 0);
    assert_eq!((red.r, red.g, red.b, red.a), (255, 0, 0, 255));
    // Unknown materials fall back to the loud magenta sentinel.
    let magenta = wall_color(7, 0);
    assert_eq!((magenta.r, magenta.g, magenta.b, magenta.a), (255, 0, 255, 255));
}

#[test]
fn wall_shading_darkens_y_side() {
    // A hit across a y grid line is darkened by 0xC0/0x100 on all three
    // color channels; alpha stays opaque.
    assert_eq!(shade_channel(255), 191);
    assert_eq!(shade_channel(0x40), 0x30);
    assert_eq!(shade_channel(0), 0);
    let shaded = wall_color(1, 1);
    assert_eq!((shaded.r, shaded.g, shaded.b, shaded.a), (0, 0, 191, 255));
    let unshaded = wall_color(1, 0);
    assert_eq!(unshaded.b, 255);
}

#[test]
fn renderer_new_is_zeroed() {
    let r = Renderer::new(3, 2);
    assert_eq!(r.width, 3);
    assert_eq!(r.height, 2);
    assert_eq!(r.pixels.len(), 3 * 2 * 4);
    assert!(r.pixels.iter().all(|&b| b == 0));
}

#[test]
fn render_exact_column_pixels() {
    // Straight-west view from (5.5, 5.5): the center column hits the
    // west wall 4.5 tiles away, so the strip is 133 rows high, centered:
    // ceiling above row 234, blue wall up to row 366, floor below.
    let map = TileMap::reference();
    let cam = Camera::new(360448, 360448, -65536, 0, 0, 43254);
    let mut fb = Renderer::new(800, 600);
    fb.render(&map, &cam);
    let px = fb.pixels();
    for c in 0..4 {
        assert_eq!(channel_at(px, 800, 400, 0, c), [0x20, 0x20, 0x20, 0xFF][c]);
        assert_eq!(channel_at(px, 800, 400, 233, c), [0x20, 0x20, 0x20, 0xFF][c]);
        assert_eq!(channel_at(px, 800, 400, 234, c), [0x00, 0x00, 0xFF, 0xFF][c]);
        assert_eq!(channel_at(px, 800, 400, 365, c), [0x00, 0x00, 0xFF, 0xFF][c]);
        assert_eq!(channel_at(px, 800, 400, 366, c), [0x40, 0x40, 0x40, 0xFF][c]);
        assert_eq!(channel_at(px, 800, 400, 599, c), [0x40, 0x40, 0x40, 0xFF][c]);
    }
}

#[test]
fn draw_column_touches_only_its_column() {
    // Drawing one column over a canary-filled buffer leaves every other
    // column's bytes exactly as they were.
    let map = TileMap::reference();
    let cam = Camera::new(360448, 360448, -65536, 0, 0, 43254);
    let hit = raycast(&map, &cam, 10, 64).expect("not degenerate");
    let mut pixels = vec![7u8; 64 * 32 * 4];
    draw_column(&mut pixels, 64, 32, 10, &hit);
    for y in 0..32 {
        for x in 0..64 {
            for c in 0..4 {
                if x != 10 {
                    assert_eq!(channel_at(&pixels, 64, x, y, c), 7);
                }
            }
        }
        // The drawn column no longer holds the canary anywhere.
        assert_ne!(channel_at(&pixels, 64, 10, y, 3), 7);
    }
}

#[test]
fn render_columns_in_reverse_order_matches() {
    // Columns are independent: rendering them back to front produces the
    // same frame as the renderer's front-to-back pass.
    let map = TileMap::reference();
    let cam = Camera::new(5 * SCALE, 5 * SCALE, -65536, 6554, 0, 43254);
    let mut forward = Renderer::new(320, 200);
    forward.render(&map, &cam);
    let mut backward = Renderer::new(320, 200);
    for x in (0..320).rev() {
        let hit = raycast(&map, &cam, x, 320).expect("not degenerate");
        draw_column(&mut backward.pixels, 320, 200, x, &hit);
    }
    assert_eq!(forward.pixels, backward.pixels);
}

#[test]
fn resize_is_idempotent() {
    // Resizing twice to the same size gives the same zeroed buffer, and
    // a render afterwards gives the same frame a single resize would.
    let map = TileMap::reference();
    let cam = Camera::new(5 * SCALE, 5 * SCALE, -65536, 6554, 0, 43254);
    let mut once = Renderer::new(800, 600);
    once.resize(640, 480);
    let mut twice = Renderer::new(800, 600);
    twice.resize(640, 480);
    twice.resize(640, 480);
    assert_eq!(once.width, twice.width);
    assert_eq!(once.height, twice.height);
    assert_eq!(once.pixels, twice.pixels);
    once.render(&map, &cam);
    twice.render(&map, &cam);
    assert_eq!(once.pixels, twice.pixels);
}

#[test]
fn resize_to_zero_is_a_no_op() {
    let mut fb = Renderer::new(8, 4);
    fb.resize(0, 4);
    assert_eq!((fb.width, fb.height), (8, 4));
    assert_eq!(fb.pixels.len(), 8 * 4 * 4);
    fb.resize(8, 0);
    assert_eq!((fb.width, fb.height), (8, 4));
}

#[test]
fn render_is_deterministic() {
    let map = TileMap::reference();
    let cam = Camera::new(5 * SCALE, 5 * SCALE, -65536, 6554, 0, 43254);
    let mut a = Renderer::new(256, 128);
    let mut b = Renderer::new(256, 128);
    a.render(&map, &cam);
    b.render(&map, &cam);
    assert_eq!(a.pixels, b.pixels);
    // A second pass over the same state repaints the same frame.
    let first = a.pixels.clone();
    a.render(&map, &cam);
    assert_eq!(a.pixels, first);
}

#[test]
fn render_overwrites_every_byte() {
    // A render pass is a pure function of map and camera: starting from
    // a canary-filled buffer and from a zeroed one gives byte-identical
    // frames, even when every column's ray is degenerate (zero facing
    // direction and view plane). Degenerate columns get the defined
    // blank fill: ceiling above the center line, floor below it.
    let map = TileMap::reference();
    let cam = Camera::new(360448, 360448, 0, 0, 0, 0);
    let mut clean = Renderer::new(800, 600);
    let mut dirty = Renderer::new(800, 600);
    for b in dirty.pixels.iter_mut() {
        *b = 0xAB;
    }
    clean.render(&map, &cam);
    dirty.render(&map, &cam);
    assert_eq!(clean.pixels, dirty.pixels);
    for c in 0..4 {
        assert_eq!(channel_at(&clean.pixels, 800, 123, 0, c), [0x20, 0x20, 0x20, 0xFF][c]);
        assert_eq!(channel_at(&clean.pixels, 800, 123, 299, c), [0x20, 0x20, 0x20, 0xFF][c]);
        assert_eq!(channel_at(&clean.pixels, 800, 123, 300, c), [0x40, 0x40, 0x40, 0xFF][c]);
        assert_eq!(channel_at(&clean.pixels, 800, 123, 599, c), [0x40, 0x40, 0x40, 0xFF][c]);
    }
}

#[test]
fn render_single_degenerate_column_gets_blank_fill() {
    // With facing (0, 100/65536) and view plane (0, 200/65536), column
    // 200 of 800 has a zero ray (so does 199, by truncation); such
    // columns are painted with the blank fill while others show their
    // own hits, and no canary byte survives anywhere.
    let map = TileMap::reference();
    let cam = Camera::new(360448, 360448, 0, 100, 0, 200);
    let mut fb = Renderer::new(800, 600);
    for b in fb.pixels.iter_mut() {
        *b = 0xAB;
    }
    assert!(raycast(&map, &cam, 200, 800).is_none());
    assert!(raycast(&map, &cam, 198, 800).is_some());
    fb.render(&map, &cam);
    for c in 0..4 {
        assert_eq!(channel_at(&fb.pixels, 800, 200, 0, c), [0x20, 0x20, 0x20, 0xFF][c]);
        assert_eq!(channel_at(&fb.pixels, 800, 200, 599, c), [0x40, 0x40, 0x40, 0xFF][c]);
    }
    assert!(fb.pixels.iter().all(|&b| b != 0xAB));
}

#[test]
fn render_zero_size_skips() {
    let map = TileMap::reference();
    let cam = Camera::new(5 * SCALE, 5 * SCALE, -65536, 6554, 0, 43254);
    let mut fb = Renderer::new(0, 600);
    fb.render(&map, &cam);
    assert_eq!(fb.pixels.len(), 0);
}
