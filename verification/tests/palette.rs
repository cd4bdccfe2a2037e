//! Palette generation: determinism, exact entries, and the error case.

use mandelbrot::color::{create_palette, Color, PaletteError, PaletteKind};

#[test]
fn zero_length_is_refused() {
    assert_eq!(create_palette(0, PaletteKind::PseudoRandom), Err(PaletteError::Empty));
    assert_eq!(create_palette(0, PaletteKind::HsvGradient), Err(PaletteError::Empty));
}

#[test]
fn generation_is_deterministic() {
    for kind in [PaletteKind::PseudoRandom, PaletteKind::HsvGradient] {
        let a = create_palette(1000, kind).unwrap();
        let b = create_palette(1000, kind).unwrap();
        assert_eq!(a, b);
    }
}

#[test]
fn pseudo_random_entries_are_the_multiplier_residues() {
    let p = create_palette(1000, PaletteKind::PseudoRandom).unwrap();
    assert_eq!(p.len(), 1000);
    assert_eq!(p[0], Color { r: 0, g: 0, b: 0 });
    // 1337 % 256, 173 % 256, 6101 % 256
    assert_eq!(p[1], Color { r: 57, g: 173, b: 213 });
    // 2674 % 256, 346 % 256, 12202 % 256
    assert_eq!(p[2], Color { r: 114, g: 90, b: 170 });
}

#[test]
fn gradient_runs_from_cyan_ish_to_red() {
    let p = create_palette(1000, PaletteKind::HsvGradient).unwrap();
    assert_eq!(p.len(), 1000);
    // Hue 180 degrees at saturation 0.9, value 1.0.
    assert_eq!(p[0], Color { r: 25, g: 255, b: 255 });
    // Hue 0 degrees.
    assert_eq!(p[999], Color { r: 255, g: 25, b: 25 });
    // Near the middle: hue 180 * 500 / 999 of a degree, in the second
    // 60-degree sector.
    assert_eq!(p[499], Color { r: 139, g: 255, b: 25 });
}

#[test]
fn single_entry_gradient_is_the_start_hue() {
    let p = create_palette(1, PaletteKind::HsvGradient).unwrap();
    assert_eq!(p, vec![Color { r: 25, g: 255, b: 255 }]);
}
