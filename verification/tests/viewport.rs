//! Viewport transforms: pan, zoom round trips, and the pixel-to-plane map.

use mandelbrot::viewport::Viewport;

#[test]
fn default_region() {
    let vp = Viewport::new(1050, 600);
    assert_eq!(vp.x, -250_000_000);
    assert_eq!(vp.y, -100_000_000);
    assert_eq!(vp.width, 350_000_000);
    assert_eq!(vp.height, 200_000_000);
    assert_eq!(vp.pixel_width, 1050);
    assert_eq!(vp.pixel_height, 600);
}

#[test]
fn pan_moves_by_fraction_of_extent() {
    let mut vp = Viewport::new(1050, 600);
    vp.offset_x(10_000_000); // 0.1 of the width = 0.35 plane units
    assert_eq!(vp.x, -215_000_000);
    vp.offset_x(-10_000_000);
    assert_eq!(vp.x, -250_000_000);
    vp.offset_y(-10_000_000); // 0.1 of the height = 0.2 plane units
    assert_eq!(vp.y, -120_000_000);
    assert_eq!(vp.width, 350_000_000);
    assert_eq!(vp.height, 200_000_000);
}

#[test]
fn zoom_in_shrinks_and_recenters() {
    let mut vp = Viewport::new(1050, 600);
    vp.zoom_in(20_000_000); // factor 0.2
    assert_eq!(vp.width, 280_000_000);
    assert_eq!(vp.height, 160_000_000);
    assert_eq!(vp.x, -215_000_000);
    assert_eq!(vp.y, -80_000_000);
}

#[test]
fn zoom_round_trip_exact_factor() {
    // With factor 0.2 every step divides exactly: the round trip is exact.
    let mut vp = Viewport::new(1050, 600);
    vp.zoom_in(20_000_000);
    vp.zoom_out(20_000_000);
    assert_eq!(vp.x, -250_000_000);
    assert_eq!(vp.y, -100_000_000);
    assert_eq!(vp.width, 350_000_000);
    assert_eq!(vp.height, 200_000_000);
}

#[test]
fn zoom_round_trip_inexact_factor() {
    // A factor without an exact fixed-point inverse: the round trip is
    // restored to within a couple of ticks (2e-8 plane units).
    let mut vp = Viewport::new(1050, 600);
    vp.zoom_in(33_333_333);
    vp.zoom_out(33_333_333);
    assert!(vp.width <= 350_000_000 && 350_000_000 - vp.width <= 2);
    assert!(vp.height <= 200_000_000 && 200_000_000 - vp.height <= 2);
    assert!(vp.x >= -250_000_000 && vp.x <= -249_999_999);
    assert!(vp.y >= -100_000_000 && vp.y <= -99_999_999);
}

#[test]
fn ten_zoom_steps_shrink_extents_to_a_tenth() {
    // Ten times factor 0.2 leaves 0.8^10 (about 0.107) of each extent.
    let mut vp = Viewport::new(1050, 600);
    for _ in 0..10 {
        vp.zoom_in(20_000_000);
    }
    assert_eq!(vp.width, 37_580_963);
    assert_eq!(vp.height, 21_474_836);
}

#[test]
fn pixel_map_hits_the_region_corners_and_center() {
    let vp = Viewport::new(1050, 600);
    let (r0, i0) = vp.pixel_to_plane(0, 0);
    // First pixel center: half a pixel in from the origin corner.
    assert_eq!(r0, -249_833_334);
    assert_eq!(i0, -99_833_334);
    let (rc, ic) = vp.pixel_to_plane(525, 300);
    // Buffer center: near (-0.75, 0), inside the main cardioid.
    assert_eq!(rc, -74_833_334);
    assert_eq!(ic, 166_666);
}

#[test]
fn pixel_map_is_strictly_monotonic() {
    let vp = Viewport::new(1050, 600);
    let mut prev_r = i64::MIN;
    for px in 0..1050 {
        let (r, _) = vp.pixel_to_plane(px, 0);
        assert!(r > prev_r);
        prev_r = r;
    }
    let mut prev_i = i64::MIN;
    for py in 0..600 {
        let (_, i) = vp.pixel_to_plane(0, py);
        assert!(i > prev_i);
        prev_i = i;
    }
}
