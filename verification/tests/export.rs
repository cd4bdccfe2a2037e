//! Animation export: the zoom-out trajectory, frame flattening, and the
//! encoded animated image.

use mandelbrot::color::{create_palette, PaletteKind};
use mandelbrot::escape::MAX_ITER;
use mandelbrot::export::{encode_animation, flatten_frame, render_zoom_frames};
use mandelbrot::render::{new_buffer, render_frame};
use mandelbrot::viewport::Viewport;

#[test]
fn flattening_interleaves_the_channels() {
    let vp = Viewport::new(4, 2);
    let palette = create_palette(MAX_ITER, PaletteKind::HsvGradient).unwrap();
    let mut buf = new_buffer(4, 2);
    render_frame(&mut buf, &vp, &palette);
    let bytes = flatten_frame(&buf);
    assert_eq!(bytes.len(), 3 * 8);
    for (j, p) in buf.iter().enumerate() {
        assert_eq!(bytes[3 * j], p.color.r);
        assert_eq!(bytes[3 * j + 1], p.color.g);
        assert_eq!(bytes[3 * j + 2], p.color.b);
    }
}

#[test]
fn export_from_default_region_yields_several_frames_and_stops() {
    // Zoom out by 0.1 per step until the height reaches 4.0: the heights
    // run 2.0, 2.22.., 2.46.., 2.74.., 3.04.., 3.38.., 3.76.. and stop.
    let vp = Viewport::new(16, 10);
    let palette = create_palette(MAX_ITER, PaletteKind::HsvGradient).unwrap();
    let frames = render_zoom_frames(&vp, &palette, 10_000_000, 400_000_000);
    assert_eq!(frames.len(), 7);
    for frame in &frames {
        assert_eq!(frame.len(), 3 * 16 * 10);
    }

    // The first frame is exactly the render of the starting snapshot.
    let mut buf = new_buffer(16, 10);
    render_frame(&mut buf, &vp, &palette);
    assert_eq!(frames[0], flatten_frame(&buf));
}

#[test]
fn export_starting_past_the_bound_is_empty() {
    let vp = Viewport::new(16, 10);
    let frames = render_zoom_frames(
        &vp,
        &create_palette(MAX_ITER, PaletteKind::PseudoRandom).unwrap(),
        10_000_000,
        150_000_000,
    );
    assert_eq!(frames.len(), 0);
}

#[test]
fn encoded_animation_decodes_to_the_same_frames() {
    let vp = Viewport::new(16, 10);
    let palette = create_palette(MAX_ITER, PaletteKind::HsvGradient).unwrap();
    let frames = render_zoom_frames(&vp, &palette, 10_000_000, 400_000_000);
    let bytes = encode_animation(16, 10, &frames).unwrap();
    assert!(bytes.len() > 1);

    let decoder = gif::DecodeOptions::new();
    let mut reader = decoder.read_info(&bytes[..]).unwrap();
    assert_eq!(reader.width(), 16);
    assert_eq!(reader.height(), 10);
    let mut decoded = 0;
    while let Some(_) = reader.read_next_frame().unwrap() {
        decoded += 1;
    }
    assert_eq!(decoded, 7);
}

#[test]
fn encoding_is_deterministic() {
    let vp = Viewport::new(8, 5);
    let palette = create_palette(MAX_ITER, PaletteKind::PseudoRandom).unwrap();
    let frames = render_zoom_frames(&vp, &palette, 10_000_000, 300_000_000);
    assert!(frames.len() > 1);
    let a = encode_animation(8, 5, &frames).unwrap();
    let b = encode_animation(8, 5, &frames).unwrap();
    assert_eq!(a, b);
}
