//! Colors and palette generation.
//!
//! A palette is an ordered lookup table indexed by escape time. Both
//! supported families are bit-reproducible functions of the requested
//! length and kind alone.

use vstd::prelude::*;

use crate::fixed::lemma_mul_div_shrinks;

verus! {

/// An 8-bit RGB color.
#[derive(Clone, Copy, PartialEq, Eq, Structural, Debug)]
pub struct Color {
    pub r: u8,
    pub g: u8,
    pub b: u8,
}

/// The fixed background color used for interior (non-escaping) points.
pub open spec fn black() -> Color {
    Color { r: 0, g: 0, b: 0 }
}

/// The supported palette families: a closed set, dispatched once at
/// construction time.
#[derive(Clone, Copy, PartialEq, Eq, Structural, Debug)]
pub enum PaletteKind {
    /// Per-index arithmetic with small odd multipliers, reduced modulo 256
    /// per channel; chosen for visual variety only.
    PseudoRandom,
    /// Linear interpolation of hue from 180 to 0 degrees at fixed
    /// saturation 0.9 and value 1.0, converted to RGB channels.
    HsvGradient,
}

/// Why palette construction can be refused.
#[derive(Clone, Copy, PartialEq, Eq, Structural, Debug)]
pub enum PaletteError {
    /// The requested length was zero; a palette needs at least one entry.
    Empty,
}

/// Color of index `i` in the pseudo-random family.
pub open spec fn pseudo_random_color(i: int) -> Color {
    Color {
        r: (i * 1337 % 256) as u8,
        g: (i * 173 % 256) as u8,
        b: (i * 6101 % 256) as u8,
    }
}

/// Hue of index `i` in a gradient palette of length `n`, in thousandths of
/// a degree: evenly spaced from 180 degrees down to 0.
pub open spec fn hue_milli(i: int, n: int) -> int {
    if n <= 1 {
        180_000
    } else {
        180_000 * (n - 1 - i) / (n - 1)
    }
}

/// Ramp of the minor channel for hue `h` (thousandths of a degree), in
/// per-mille of full chroma: rises over the first half of each 120-degree
/// span and falls over the second half.
pub open spec fn ramp(h: int) -> int {
    let t = h % 120_000;
    if t <= 60_000 {
        900 * t / 60_000
    } else {
        900 * (120_000 - t) / 60_000
    }
}

/// A color from per-mille channel intensities.
pub open spec fn rgb_from_permille(rp: int, gp: int, bp: int) -> Color {
    Color { r: (rp * 255 / 1000) as u8, g: (gp * 255 / 1000) as u8, b: (bp * 255 / 1000) as u8 }
}

/// RGB color of hue `h` in [0, 180] degrees (given in thousandths) at
/// saturation 0.9 and value 1.0: chroma 0.9 on the major channel, 0.1
/// floor on every channel, and the ramp on the minor channel.
pub open spec fn hsv_color(h: int) -> Color {
    let x = ramp(h);
    if h < 60_000 {
        rgb_from_permille(1000, 100 + x, 100)
    } else if h < 120_000 {
        rgb_from_permille(100 + x, 1000, 100)
    } else {
        rgb_from_permille(100, 1000, 100 + x)
    }
}

/// Color at index `i` of a palette of length `n` of the given kind.
pub open spec fn palette_color(kind: PaletteKind, i: int, n: int) -> Color {
    match kind {
        PaletteKind::PseudoRandom => pseudo_random_color(i),
        PaletteKind::HsvGradient => hsv_color(hue_milli(i, n)),
    }
}

/// The full palette of length `n`: what `create_palette` returns.
pub open spec fn palette_spec(n: nat, kind: PaletteKind) -> Seq<Color> {
    Seq::new(n, |i: int| palette_color(kind, i, n as int))
}

/// Palette generation is deterministic: two palettes built from the same
/// length and kind are identical, entry for entry.
pub proof fn lemma_palette_deterministic(
    n: nat,
    kind: PaletteKind,
    p1: Seq<Color>,
    p2: Seq<Color>,
)
    requires
        p1 == palette_spec(n, kind),
        p2 == palette_spec(n, kind),
    ensures
        p1 == p2,
{
}

/// Color of index `i` in the pseudo-random family.
fn pseudo_random_color_at(i: u32) -> (c: Color)
    ensures
        c == pseudo_random_color(i as int),
{
    let r = ((i as u64 * 1337) % 256) as u8;
    let g = ((i as u64 * 173) % 256) as u8;
    let b = ((i as u64 * 6101) % 256) as u8;
    Color { r, g, b }
}

/// Color of index `i` in a gradient palette of length `n`.
fn gradient_color_at(i: u32, n: u32) -> (c: Color)
    requires
        i < n,
    ensures
        c == hsv_color(hue_milli(i as int, n as int)),
{
    let h: u64 = if n <= 1 {
        180_000
    } else {
        proof {
            lemma_mul_div_shrinks(180_000, n - 1 - i, n as int - 1);
        }
        (180_000u64 * ((n - 1 - i) as u64)) / ((n - 1) as u64)
    };
    assert(h == hue_milli(i as int, n as int));
    assert(0 <= h <= 180_000);
    let t: u64 = h % 120_000;
    let xfrac: u64 = if t <= 60_000 {
        t
    } else {
        120_000 - t
    };
    let x: u64 = (900 * xfrac) / 60_000;
    assert(100 + x == 100 + ramp(h as int));
    if h < 60_000 {
        Color { r: 255, g: (((100 + x) * 255) / 1000) as u8, b: 25 }
    } else if h < 120_000 {
        Color { r: (((100 + x) * 255) / 1000) as u8, g: 255, b: 25 }
    } else {
        Color { r: 25, g: 255, b: (((100 + x) * 255) / 1000) as u8 }
    }
}

/// Build the palette of length `n` of the given kind: index 0 corresponds
/// to the fastest escape. A zero length is refused.
pub fn create_palette(n: u32, kind: PaletteKind) -> (result: Result<Vec<Color>, PaletteError>)
    ensures
        match result {
            Ok(p) => n >= 1 && p@ == palette_spec(n as nat, kind),
            Err(e) => n == 0 && e == PaletteError::Empty,
        },
{
    if n == 0 {
        return Err(PaletteError::Empty);
    }
    let mut out: Vec<Color> = Vec::new();
    let mut i: u32 = 0;
    while i < n
        invariant
            i <= n,
            out@.len() == i as nat,
            forall|j: int| 0 <= j < i ==> out@[j] == palette_color(kind, j, n as int),
        decreases n - i,
    {
        let c = match kind {
            PaletteKind::PseudoRandom => pseudo_random_color_at(i),
            PaletteKind::HsvGradient => gradient_color_at(i, n),
        };
        out.push(c);
        i = i + 1;
    }
    proof {
        assert(out@ =~= palette_spec(n as nat, kind));
    }
    Ok(out)
}

} // verus!
