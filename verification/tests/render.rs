//! Frame rendering: buffer layout and end-to-end pixel classification.

use mandelbrot::color::{create_palette, Color, PaletteKind};
use mandelbrot::escape::{escape_time, is_in_cardioid, MAX_ITER};
use mandelbrot::render::{new_buffer, pixel_color, point_color, render_frame};
use mandelbrot::viewport::Viewport;

fn black() -> Color {
    Color { r: 0, g: 0, b: 0 }
}

#[test]
fn buffer_is_row_major_with_fixed_coordinates() {
    let buf = new_buffer(4, 3);
    assert_eq!(buf.len(), 12);
    for (j, p) in buf.iter().enumerate() {
        assert_eq!(p.x, (j % 4) as u32);
        assert_eq!(p.y, (j / 4) as u32);
        assert_eq!(p.color, black());
    }
}

#[test]
fn corner_pixel_escapes_immediately_and_center_is_interior() {
    // The classic framing over a 1050x600 buffer.
    let vp = Viewport::new(1050, 600);
    let palette = create_palette(MAX_ITER, PaletteKind::HsvGradient).unwrap();

    // Top-left pixel maps near (-2.5, -1.0), far outside the set: it
    // escapes right away and takes the first palette entry.
    let (r0, i0) = vp.pixel_to_plane(0, 0);
    assert_eq!(escape_time(r0, i0, MAX_ITER), 0);
    assert_eq!(pixel_color(&vp, &palette, 0, 0), palette[0]);

    // The center pixel maps near (-0.75, 0), inside the main cardioid:
    // the shortcut and the full evaluation both classify it interior.
    let (rc, ic) = vp.pixel_to_plane(525, 300);
    assert!(is_in_cardioid(rc, ic));
    assert_eq!(escape_time(rc, ic, MAX_ITER), MAX_ITER);
    assert_eq!(pixel_color(&vp, &palette, 525, 300), black());
}

#[test]
fn interior_points_are_background_colored() {
    let palette = create_palette(MAX_ITER, PaletteKind::PseudoRandom).unwrap();
    assert_eq!(point_color(0, 0, &palette), black());
    assert_eq!(point_color(-100_000_000, 0, &palette), black());
}

#[test]
fn render_pass_overwrites_every_pixel() {
    let vp = Viewport::new(8, 5);
    let palette = create_palette(MAX_ITER, PaletteKind::HsvGradient).unwrap();
    let mut buf = new_buffer(8, 5);
    render_frame(&mut buf, &vp, &palette);
    assert_eq!(buf.len(), 40);
    for (j, p) in buf.iter().enumerate() {
        assert_eq!(p.x, (j % 8) as u32);
        assert_eq!(p.y, (j / 8) as u32);
        assert_eq!(p.color, pixel_color(&vp, &palette, p.x, p.y));
    }
}

#[test]
fn rendering_twice_gives_the_same_frame() {
    let vp = Viewport::new(8, 5);
    let palette = create_palette(MAX_ITER, PaletteKind::PseudoRandom).unwrap();
    let mut a = new_buffer(8, 5);
    let mut b = new_buffer(8, 5);
    render_frame(&mut a, &vp, &palette);
    render_frame(&mut b, &vp, &palette);
    for (pa, pb) in a.iter().zip(b.iter()) {
        assert_eq!(pa, pb);
    }
}
