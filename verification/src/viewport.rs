//! The rectangular window over the complex plane that is mapped onto the
//! pixel buffer, with its pan and zoom transforms.

use vstd::prelude::*;
use vstd::arithmetic::div_mod::{
    lemma_div_is_ordered, lemma_div_plus_one, lemma_div_pos_is_pos, lemma_fundamental_div_mod,
    lemma_mod_division_less_than_divisor,
};
use vstd::arithmetic::mul::lemma_mul_nonnegative;

use crate::fixed::{mul_div, mul_div_i64, SCALE};

verus! {

/// Largest representable extent (width or height) of a viewport, in
/// fixed-point ticks: 10_000 plane units.
pub const EXTENT_LIMIT: i64 = 1_000_000_000_000;

/// Largest representable magnitude of a viewport origin coordinate, in
/// fixed-point ticks: 10_000_000 plane units.
pub const COORD_LIMIT: i64 = 1_000_000_000_000_000;

/// Largest pixel-buffer dimension; frames of that size are still encodable
/// in the animation export format.
pub const PIXEL_DIM_LIMIT: u32 = 65535;

/// Horizontal origin of the canonical start region (-2.5 plane units).
pub const DEFAULT_X: i64 = -250_000_000;

/// Vertical origin of the canonical start region (-1.0 plane units).
pub const DEFAULT_Y: i64 = -100_000_000;

/// Width of the canonical start region (3.5 plane units).
pub const DEFAULT_WIDTH: i64 = 350_000_000;

/// Height of the canonical start region (2.0 plane units).
pub const DEFAULT_HEIGHT: i64 = 200_000_000;

/// Mathematical model of a viewport: origin, extent and the fixed pixel
/// dimensions of the buffer it is mapped onto, all as unbounded integers in
/// fixed-point ticks.
pub ghost struct VpModel {
    pub x: int,
    pub y: int,
    pub width: int,
    pub height: int,
    pub pixel_width: int,
    pub pixel_height: int,
}

impl VpModel {
    /// Well-formedness: positive extents and every field inside the
    /// representable fixed-point range.
    pub open spec fn inv(self) -> bool {
        &&& 0 < self.width <= EXTENT_LIMIT
        &&& 0 < self.height <= EXTENT_LIMIT
        &&& -COORD_LIMIT <= self.x <= COORD_LIMIT
        &&& -COORD_LIMIT <= self.y <= COORD_LIMIT
        &&& 0 < self.pixel_width <= PIXEL_DIM_LIMIT
        &&& 0 < self.pixel_height <= PIXEL_DIM_LIMIT
    }
}

/// Shift the origin along x by `fraction` (in ticks per unit) of the width.
pub open spec fn pan_x_model(m: VpModel, fraction: int) -> VpModel {
    VpModel { x: m.x + mul_div(m.width, fraction, SCALE as int), ..m }
}

/// Shift the origin along y by `fraction` (in ticks per unit) of the height.
pub open spec fn pan_y_model(m: VpModel, fraction: int) -> VpModel {
    VpModel { y: m.y + mul_div(m.height, fraction, SCALE as int), ..m }
}

/// Shrink both extents by `1 - factor` and recenter by half the removed
/// extent on each axis, so the visible center is preserved.
pub open spec fn zoom_in_model(m: VpModel, factor: int) -> VpModel {
    VpModel {
        x: m.x + mul_div(m.width, factor, 2 * SCALE as int),
        y: m.y + mul_div(m.height, factor, 2 * SCALE as int),
        width: mul_div(m.width, SCALE - factor, SCALE as int),
        height: mul_div(m.height, SCALE - factor, SCALE as int),
        ..m
    }
}

/// Inverse transform of `zoom_in_model` up to fixed-point rounding: grow
/// both extents by `1 / (1 - factor)` and shift the origin back by half the
/// added extent on each axis.
pub open spec fn zoom_out_model(m: VpModel, factor: int) -> VpModel {
    let w = mul_div(m.width, SCALE as int, SCALE - factor);
    let h = mul_div(m.height, SCALE as int, SCALE - factor);
    VpModel {
        x: m.x - mul_div(w, factor, 2 * SCALE as int),
        y: m.y - mul_div(h, factor, 2 * SCALE as int),
        width: w,
        height: h,
        ..m
    }
}

/// Real component of the plane coordinate at the center of pixel column
/// `px`: `x + (px + 1/2) / pixel_width * width`, carried out in ticks.
pub open spec fn plane_re(m: VpModel, px: int) -> int {
    m.x + mul_div(2 * px + 1, m.width, 2 * m.pixel_width)
}

/// Imaginary component of the plane coordinate at the center of pixel row
/// `py`: `y + (py + 1/2) / pixel_height * height`, carried out in ticks.
pub open spec fn plane_im(m: VpModel, py: int) -> int {
    m.y + mul_div(2 * py + 1, m.height, 2 * m.pixel_height)
}

/// Zooming in by a factor and back out by the same factor restores the
/// viewport up to fixed-point rounding: the round trip loses at most
/// `(SCALE + (SCALE - f)) / (SCALE - f)` ticks of each extent (under
/// three ticks for factors up to one half) and regains at most half a
/// lost-extent share plus one tick on each origin coordinate, stated
/// below in denominator-cleared form.
pub proof fn lemma_zoom_round_trip(m: VpModel, f: int)
    requires
        m.inv(),
        0 < f < SCALE,
    ensures
        ({
            let rt = zoom_out_model(zoom_in_model(m, f), f);
            &&& rt.width <= m.width
            &&& (m.width - rt.width) * (SCALE - f) < SCALE + (SCALE - f)
            &&& rt.height <= m.height
            &&& (m.height - rt.height) * (SCALE - f) < SCALE + (SCALE - f)
            &&& m.x <= rt.x
            &&& 2 * SCALE * (rt.x - m.x) < (m.width - rt.width) * f + 2 * SCALE
            &&& m.y <= rt.y
            &&& 2 * SCALE * (rt.y - m.y) < (m.height - rt.height) * f + 2 * SCALE
            &&& rt.pixel_width == m.pixel_width
            &&& rt.pixel_height == m.pixel_height
        }),
{
    lemma_zoom_round_trip_axis(m.width, m.x, f);
    lemma_zoom_round_trip_axis(m.height, m.y, f);
}

/// The round-trip bounds of `lemma_zoom_round_trip` along one axis:
/// `w` is the extent and `x` the origin coordinate.
proof fn lemma_zoom_round_trip_axis(w: int, x: int, f: int)
    requires
        0 < w,
        0 < f < SCALE,
    ensures
        ({
            let s = SCALE as int;
            let d = s - f;
            let w1 = mul_div(w, d, s);
            let w2 = mul_div(w1, s, d);
            let x1 = x + mul_div(w, f, 2 * s);
            let x2 = x1 - mul_div(w2, f, 2 * s);
            &&& w2 <= w
            &&& (w - w2) * d < s + d
            &&& x <= x2
            &&& 2 * s * (x2 - x) < (w - w2) * f + 2 * s
        }),
{
    let s = SCALE as int;
    let d = s - f;
    let w1 = mul_div(w, d, s);
    let w2 = mul_div(w1, s, d);
    lemma_mul_nonnegative(w, d);
    lemma_fundamental_div_mod(w * d, s);
    lemma_mod_division_less_than_divisor(w * d, s);
    let r1 = (w * d) % s;
    assert(w1 == (w * d) / s);
    lemma_div_pos_is_pos(w * d, s);
    lemma_mul_nonnegative(w1, s);
    lemma_fundamental_div_mod(w1 * s, d);
    lemma_mod_division_less_than_divisor(w1 * s, d);
    let r2 = (w1 * s) % d;
    assert(w2 == (w1 * s) / d);
    assert((w - w2) * d == r1 + r2) by (nonlinear_arith)
        requires
            w * d == s * w1 + r1,
            w1 * s == d * w2 + r2,
    ;
    assert(w2 <= w) by (nonlinear_arith)
        requires
            (w - w2) * d == r1 + r2,
            0 <= r1,
            0 <= r2,
            0 < d,
    ;
    let dx1 = mul_div(w, f, 2 * s);
    let dx2 = mul_div(w2, f, 2 * s);
    lemma_mul_nonnegative(w, f);
    lemma_fundamental_div_mod(w * f, 2 * s);
    lemma_mod_division_less_than_divisor(w * f, 2 * s);
    let p1 = (w * f) % (2 * s);
    assert(dx1 == (w * f) / (2 * s));
    lemma_div_pos_is_pos(w1 * s, d);
    lemma_mul_nonnegative(w2, f);
    lemma_fundamental_div_mod(w2 * f, 2 * s);
    lemma_mod_division_less_than_divisor(w2 * f, 2 * s);
    let p2 = (w2 * f) % (2 * s);
    assert(dx2 == (w2 * f) / (2 * s));
    assert(2 * s * (dx1 - dx2) == (w - w2) * f - p1 + p2) by (nonlinear_arith)
        requires
            w * f == 2 * s * dx1 + p1,
            w2 * f == 2 * s * dx2 + p2,
    ;
    assert((w - w2) * f >= 0) by (nonlinear_arith)
        requires
            w2 <= w,
            0 < f,
    ;
    assert(dx1 - dx2 >= 0) by (nonlinear_arith)
        requires
            2 * s * (dx1 - dx2) == (w - w2) * f - p1 + p2,
            (w - w2) * f >= 0,
            0 <= p1 < 2 * s,
            0 <= p2 < 2 * s,
            0 < s,
    ;
}

/// The pixel-to-plane map is strictly increasing in the pixel column:
/// a larger `px` maps to a strictly larger real component, provided
/// each pixel column spans at least one tick of the plane
/// (`width >= pixel_width`). Below that precision floor neighboring
/// columns can map to the same coordinate.
pub proof fn lemma_plane_re_strict_monotone(m: VpModel, px1: int, px2: int)
    requires
        m.inv(),
        0 <= px1 < px2,
        m.width >= m.pixel_width,
    ensures
        plane_re(m, px1) < plane_re(m, px2),
{
    lemma_pixel_map_strict_monotone(m.width, m.pixel_width, px1, px2);
}

/// The pixel-to-plane map is strictly increasing in the pixel row:
/// a larger `py` maps to a strictly larger imaginary component,
/// provided each pixel row spans at least one tick of the plane
/// (`height >= pixel_height`).
pub proof fn lemma_plane_im_strict_monotone(m: VpModel, py1: int, py2: int)
    requires
        m.inv(),
        0 <= py1 < py2,
        m.height >= m.pixel_height,
    ensures
        plane_im(m, py1) < plane_im(m, py2),
{
    lemma_pixel_map_strict_monotone(m.height, m.pixel_height, py1, py2);
}

/// Strict growth of the scaled pixel-center quotient along one axis:
/// `w` is the extent, `dim` the pixel dimension.
proof fn lemma_pixel_map_strict_monotone(w: int, dim: int, p1: int, p2: int)
    requires
        0 < dim <= w,
        0 <= p1 < p2,
    ensures
        mul_div(2 * p1 + 1, w, 2 * dim) < mul_div(2 * p2 + 1, w, 2 * dim),
{
    let a = (2 * p1 + 1) * w;
    let b = (2 * p2 + 1) * w;
    lemma_mul_nonnegative(2 * p1 + 1, w);
    lemma_mul_nonnegative(2 * p2 + 1, w);
    assert(a + 2 * dim <= b) by (nonlinear_arith)
        requires
            a == (2 * p1 + 1) * w,
            b == (2 * p2 + 1) * w,
            p1 < p2,
            0 < dim <= w,
    ;
    lemma_div_plus_one(a, 2 * dim);
    lemma_div_is_ordered(2 * dim + a, b, 2 * dim);
}

/// The rectangular window over the complex plane currently on screen.
/// Coordinates and extents are fixed-point ticks (`fixed::SCALE` per plane
/// unit); the pixel dimensions are those of the buffer it renders into.
#[derive(Clone, Copy)]
pub struct Viewport {
    pub x: i64,
    pub y: i64,
    pub width: i64,
    pub height: i64,
    pub pixel_width: u32,
    pub pixel_height: u32,
}

impl View for Viewport {
    type V = VpModel;

    open spec fn view(&self) -> VpModel {
        VpModel {
            x: self.x as int,
            y: self.y as int,
            width: self.width as int,
            height: self.height as int,
            pixel_width: self.pixel_width as int,
            pixel_height: self.pixel_height as int,
        }
    }
}

impl Viewport {
    /// A viewport over the canonical start region (the classic framing of
    /// the whole set), mapped onto a buffer of the given pixel dimensions.
    pub fn new(pixel_width: u32, pixel_height: u32) -> (vp: Viewport)
        requires
            0 < pixel_width <= PIXEL_DIM_LIMIT,
            0 < pixel_height <= PIXEL_DIM_LIMIT,
        ensures
            vp@ == (VpModel {
                x: DEFAULT_X as int,
                y: DEFAULT_Y as int,
                width: DEFAULT_WIDTH as int,
                height: DEFAULT_HEIGHT as int,
                pixel_width: pixel_width as int,
                pixel_height: pixel_height as int,
            }),
            vp@.inv(),
    {
        Viewport {
            x: DEFAULT_X,
            y: DEFAULT_Y,
            width: DEFAULT_WIDTH,
            height: DEFAULT_HEIGHT,
            pixel_width,
            pixel_height,
        }
    }

    /// Pan along the x axis by `fraction` of the current width.
    pub fn offset_x(&mut self, fraction: i64)
        requires
            old(self)@.inv(),
            -COORD_LIMIT <= pan_x_model(old(self)@, fraction as int).x <= COORD_LIMIT,
        ensures
            final(self)@ == pan_x_model(old(self)@, fraction as int),
            final(self)@.inv(),
    {
        let shift = mul_div_i64(self.width, fraction, SCALE);
        self.x = self.x + shift;
    }

    /// Pan along the y axis by `fraction` of the current height.
    pub fn offset_y(&mut self, fraction: i64)
        requires
            old(self)@.inv(),
            -COORD_LIMIT <= pan_y_model(old(self)@, fraction as int).y <= COORD_LIMIT,
        ensures
            final(self)@ == pan_y_model(old(self)@, fraction as int),
            final(self)@.inv(),
    {
        let shift = mul_div_i64(self.height, fraction, SCALE);
        self.y = self.y + shift;
    }

    /// Zoom in by `factor` (in ticks, strictly between 0 and one unit),
    /// keeping the visible center. The result must stay representable:
    /// in particular the shrunk extents must not vanish, which bounds
    /// magnification by the fixed-point precision floor.
    pub fn zoom_in(&mut self, factor: i64)
        requires
            old(self)@.inv(),
            0 < factor < SCALE,
            zoom_in_model(old(self)@, factor as int).inv(),
        ensures
            final(self)@ == zoom_in_model(old(self)@, factor as int),
            final(self)@.inv(),
    {
        let dx = mul_div_i64(self.width, factor, 2 * SCALE);
        let dy = mul_div_i64(self.height, factor, 2 * SCALE);
        self.x = self.x + dx;
        self.y = self.y + dy;
        self.width = mul_div_i64(self.width, SCALE - factor, SCALE);
        self.height = mul_div_i64(self.height, SCALE - factor, SCALE);
    }

    /// Zoom out by `factor`, the inverse of `zoom_in` with the same factor
    /// up to fixed-point rounding. The grown extents must stay within the
    /// representable range.
    pub fn zoom_out(&mut self, factor: i64)
        requires
            old(self)@.inv(),
            0 < factor < SCALE,
            zoom_out_model(old(self)@, factor as int).inv(),
        ensures
            final(self)@ == zoom_out_model(old(self)@, factor as int),
            final(self)@.inv(),
    {
        self.width = mul_div_i64(self.width, SCALE, SCALE - factor);
        self.height = mul_div_i64(self.height, SCALE, SCALE - factor);
        let dx = mul_div_i64(self.width, factor, 2 * SCALE);
        let dy = mul_div_i64(self.height, factor, 2 * SCALE);
        self.x = self.x - dx;
        self.y = self.y - dy;
    }

    /// Plane coordinate of the center of pixel `(px, py)`: the single
    /// source of truth for coordinate mapping, used identically by live
    /// rendering and animation export.
    pub fn pixel_to_plane(&self, px: u32, py: u32) -> (c: (i64, i64))
        requires
            self@.inv(),
            px < self@.pixel_width,
            py < self@.pixel_height,
        ensures
            c.0 == plane_re(self@, px as int),
            c.1 == plane_im(self@, py as int),
    {
        let nx: i64 = 2 * (px as i64) + 1;
        let ny: i64 = 2 * (py as i64) + 1;
        proof {
            crate::fixed::lemma_mul_div_upper(nx as int, self.width as int, 2 * self@.pixel_width);
            crate::fixed::lemma_mul_div_upper(ny as int, self.height as int, 2 * self@.pixel_height);
        }
        let qx = mul_div_i64(nx, self.width, 2 * (self.pixel_width as i64));
        let qy = mul_div_i64(ny, self.height, 2 * (self.pixel_height as i64));
        (self.x + qx, self.y + qy)
    }
}

} // verus!
