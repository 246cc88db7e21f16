use mandelbrot::escape::escape_time;
use mandelbrot::grid::{init_og_space, Grid};
use mandelbrot::palette::{random_color_space, Color};
use mandelbrot::render::{clear, mandelbrot, select_color};
use mandelbrot::{MAX_ITERATION, NUM_COLORS, SCALE, SCREEN_HEIGHT, SCREEN_WIDTH};

fn opaque_palette() -> Vec<Color> {
    let mut colors = Vec::new();
    for k in 0..NUM_COLORS {
        let v = (25 * k) as u8;
        colors.push(Color { r: v, g: 255 - v, b: v / 2, a: 255 });
    }
    colors
}

#[test]
fn origin_reaches_iteration_cap() {
    assert_eq!(escape_time(0, 0), MAX_ITERATION);
}

#[test]
fn point_two_two_escapes_immediately() {
    assert_eq!(escape_time(2 * SCALE, 2 * SCALE), 1);
}

#[test]
fn escape_counts_are_bounded() {
    let g = init_og_space();
    for &cx in &[0usize, 500, 960, 1500, SCREEN_WIDTH - 1] {
        for &cy in &[0usize, 300, 540, 900, SCREEN_HEIGHT - 1] {
            let n = escape_time(g.x[cx], g.y[cy]);
            assert!(n <= MAX_ITERATION);
        }
    }
}

#[test]
fn color_wraps_around_at_the_cap() {
    let colors = random_color_space();
    // 1000 % 10 == 0: the capped count always selects slot 0, opaque black.
    let c = select_color(&colors, MAX_ITERATION);
    assert_eq!(c, Color { r: 0, g: 0, b: 0, a: 255 });
    let c = select_color(&colors, 13);
    assert_eq!(c, colors[3]);
    let c = select_color(&colors, 7);
    assert_eq!(c, colors[7]);
}

#[test]
fn random_palette_starts_black() {
    let colors = random_color_space();
    assert_eq!(colors.len(), NUM_COLORS);
    assert_eq!(colors[0], Color { r: 0, g: 0, b: 0, a: 255 });
}

#[test]
fn clear_zeroes_and_opaque_alpha() {
    let mut buf = vec![7u8; 32];
    clear(&mut buf);
    assert_eq!(buf.len(), 32);
    for (k, &b) in buf.iter().enumerate() {
        if k % 4 == 3 {
            assert_eq!(b, 255);
        } else {
            assert_eq!(b, 0);
        }
    }
}

#[test]
fn clear_keeps_full_screen_buffer_length() {
    let mut buf = vec![0u8; SCREEN_WIDTH * SCREEN_HEIGHT * 4];
    clear(&mut buf);
    assert_eq!(buf.len(), SCREEN_WIDTH * SCREEN_HEIGHT * 4);
}

#[test]
fn render_small_grid_pixels_match_escape_counts() {
    // A 3x2 viewport: one column inside the set, one escaping slowly, one
    // escaping at once.
    let g = Grid { x: vec![0, 350_000_000, 2 * SCALE], y: vec![0, 100_000_000] };
    let colors = opaque_palette();
    let mut buf = vec![0u8; 3 * 2 * 4];
    mandelbrot(&g, &mut buf, &colors);
    assert_eq!(buf.len(), 3 * 2 * 4);
    for j in 0..2 {
        for i in 0..3 {
            let n = escape_time(g.x[i], g.y[j]);
            let c = colors[(n as usize) % NUM_COLORS];
            let off = (j * 3 + i) * 4;
            assert_eq!(buf[off], c.r);
            assert_eq!(buf[off + 1], c.g);
            assert_eq!(buf[off + 2], c.b);
            assert_eq!(buf[off + 3], c.a);
        }
    }
}

#[test]
fn render_full_screen_buffer_is_opaque() {
    // A full-resolution grid placed entirely outside the escape radius, so
    // every pixel escapes on its first step and the render stays fast.
    let g = Grid {
        x: vec![2 * SCALE + 5; SCREEN_WIDTH],
        y: vec![2 * SCALE + 5; SCREEN_HEIGHT],
    };
    let colors = opaque_palette();
    let mut buf = vec![0u8; SCREEN_WIDTH * SCREEN_HEIGHT * 4];
    mandelbrot(&g, &mut buf, &colors);
    assert_eq!(buf.len(), SCREEN_WIDTH * SCREEN_HEIGHT * 4);
    for k in (3..buf.len()).step_by(4) {
        assert_eq!(buf[k], 255);
    }
    // Every pixel escaped at count 1, so the whole image is colors[1].
    assert_eq!(buf[0], colors[1].r);
    assert_eq!(buf[1], colors[1].g);
    assert_eq!(buf[2], colors[1].b);
}

#[test]
fn render_uses_palette_entries_as_given() {
    // A translucent palette entry shows up in the buffer unchanged: the
    // renderer copies the full RGBA value of the selected color.
    let mut colors = opaque_palette();
    colors[1] = Color { r: 9, g: 8, b: 7, a: 6 };
    let g = Grid { x: vec![2 * SCALE, 2 * SCALE], y: vec![2 * SCALE, 2 * SCALE] };
    let mut buf = vec![0u8; 2 * 2 * 4];
    mandelbrot(&g, &mut buf, &colors);
    for p in 0..4 {
        assert_eq!(buf[p * 4], 9);
        assert_eq!(buf[p * 4 + 1], 8);
        assert_eq!(buf[p * 4 + 2], 7);
        assert_eq!(buf[p * 4 + 3], 6);
    }
}
