//! The per-pixel frame renderer: classifies every pixel of a buffer under
//! a viewport snapshot and writes its color.

use vstd::prelude::*;

use crate::color::{black, Color};
use crate::escape::{
    escape_time, escape_time_spec, in_bulb, in_cardioid, is_in_cardioid, is_in_period2_bulb,
    MAX_ITER,
};
use crate::viewport::{plane_im, plane_re, Viewport, VpModel, PIXEL_DIM_LIMIT};

verus! {

/// One cell of the pixel buffer: its fixed coordinates and the color
/// written by the last render pass.
#[derive(Clone, Copy, PartialEq, Eq, Structural, Debug)]
pub struct Pixel {
    pub x: u32,
    pub y: u32,
    pub color: Color,
}

/// Color of the plane point cr + ci*I: the background color for points
/// inside a known interior region or whose orbit survives `MAX_ITER`
/// steps, otherwise the palette entry indexed by the escape time.
pub open spec fn point_color_spec(cr: int, ci: int, pal: Seq<Color>) -> Color {
    if in_cardioid(cr, ci) || in_bulb(cr, ci) {
        black()
    } else {
        let k = escape_time_spec(cr, ci, MAX_ITER as nat);
        if k == MAX_ITER {
            black()
        } else {
            pal[k as int]
        }
    }
}

/// Color of pixel `(px, py)` under viewport `m`: the point color of the
/// pixel center's plane coordinate.
pub open spec fn pixel_color_spec(m: VpModel, pal: Seq<Color>, px: int, py: int) -> Color {
    point_color_spec(plane_re(m, px), plane_im(m, py), pal)
}

/// Classify one plane point and pick its color from the palette.
pub fn point_color(cr: i64, ci: i64, palette: &Vec<Color>) -> (c: Color)
    requires
        palette@.len() == MAX_ITER,
    ensures
        c == point_color_spec(cr as int, ci as int, palette@),
{
    if is_in_cardioid(cr, ci) || is_in_period2_bulb(cr, ci) {
        Color { r: 0, g: 0, b: 0 }
    } else {
        let k = escape_time(cr, ci, MAX_ITER);
        if k == MAX_ITER {
            Color { r: 0, g: 0, b: 0 }
        } else {
            palette[k as usize]
        }
    }
}

/// Classify one pixel of the buffer under the given viewport.
pub fn pixel_color(vp: &Viewport, palette: &Vec<Color>, px: u32, py: u32) -> (c: Color)
    requires
        vp@.inv(),
        palette@.len() == MAX_ITER,
        px < vp@.pixel_width,
        py < vp@.pixel_height,
    ensures
        c == pixel_color_spec(vp@, palette@, px as int, py as int),
{
    let (cr, ci) = vp.pixel_to_plane(px, py);
    point_color(cr, ci, palette)
}

/// Pixel `k` of a fresh row-major buffer of width `w`.
pub open spec fn initial_pixel(k: int, w: int) -> Pixel {
    Pixel { x: (k % w) as u32, y: (k / w) as u32, color: black() }
}

/// The pixel `p` with its color overwritten by its classification under
/// viewport `m` and palette `pal`.
pub open spec fn rendered_pixel(p: Pixel, m: VpModel, pal: Seq<Color>) -> Pixel {
    Pixel { x: p.x, y: p.y, color: pixel_color_spec(m, pal, p.x as int, p.y as int) }
}

/// A fresh row-major pixel buffer of the given dimensions, every pixel
/// at its fixed coordinates and colored with the background color.
pub fn new_buffer(pixel_width: u32, pixel_height: u32) -> (buf: Vec<Pixel>)
    requires
        0 < pixel_width <= PIXEL_DIM_LIMIT,
        0 < pixel_height <= PIXEL_DIM_LIMIT,
    ensures
        buf@.len() == pixel_width * pixel_height,
        forall|j: int|
            0 <= j < buf@.len() ==> {
                &&& #[trigger] buf@[j].x == j % (pixel_width as int)
                &&& buf@[j].y == j / (pixel_width as int)
                &&& buf@[j].color == black()
            },
{
    let w = pixel_width as usize;
    proof {
        assert((pixel_width as int) * (pixel_height as int) <= 4_294_836_225) by (nonlinear_arith)
            requires
                0 < pixel_width <= 65535,
                0 < pixel_height <= 65535,
        ;
    }
    let total = w * (pixel_height as usize);
    let mut buf: Vec<Pixel> = Vec::new();
    let mut j: usize = 0;
    while j < total
        invariant
            w == pixel_width as usize,
            0 < w <= PIXEL_DIM_LIMIT,
            total == w * pixel_height,
            pixel_height <= PIXEL_DIM_LIMIT,
            j <= total,
            buf@.len() == j,
            forall|k: int|
                0 <= k < j ==> #[trigger] buf@[k] == initial_pixel(k, pixel_width as int),
        decreases total - j,
    {
        proof {
            assert(j / w < pixel_height) by (nonlinear_arith)
                requires
                    0 < w,
                    j < total,
                    total == w * pixel_height,
            ;
            assert(0 <= (j as int) % (w as int) < w) by (nonlinear_arith)
                requires
                    0 < w,
                    0 <= j,
            ;
        }
        let x = (j % w) as u32;
        let y = (j / w) as u32;
        buf.push(Pixel { x, y, color: Color { r: 0, g: 0, b: 0 } });
        proof {
            assert(buf@[j as int] == initial_pixel(j as int, pixel_width as int));
        }
        j = j + 1;
    }
    proof {
        assert forall|k: int| 0 <= k < buf@.len() implies {
            &&& #[trigger] buf@[k].x == k % (pixel_width as int)
            &&& buf@[k].y == k / (pixel_width as int)
            &&& buf@[k].color == black()
        } by {
            assert(buf@[k] == initial_pixel(k, pixel_width as int));
        }
    }
    buf
}

/// Overwrite the color of every pixel of the buffer with its
/// classification under the given viewport and palette. No pixel is
/// skipped and no pixel's color is read; the coordinates are untouched.
pub fn render_frame(buffer: &mut Vec<Pixel>, vp: &Viewport, palette: &Vec<Color>)
    requires
        vp@.inv(),
        palette@.len() == MAX_ITER,
        forall|j: int|
            0 <= j < old(buffer)@.len() ==> #[trigger] old(buffer)@[j].x < vp@.pixel_width
                && old(buffer)@[j].y < vp@.pixel_height,
    ensures
        final(buffer)@.len() == old(buffer)@.len(),
        forall|j: int|
            0 <= j < old(buffer)@.len() ==> {
                &&& #[trigger] final(buffer)@[j].x == old(buffer)@[j].x
                &&& final(buffer)@[j].y == old(buffer)@[j].y
                &&& final(buffer)@[j].color == pixel_color_spec(
                    vp@,
                    palette@,
                    old(buffer)@[j].x as int,
                    old(buffer)@[j].y as int,
                )
            },
{
    let n = buffer.len();
    let mut j: usize = 0;
    while j < n
        invariant
            n == buffer@.len(),
            n == old(buffer)@.len(),
            j <= n,
            vp@.inv(),
            palette@.len() == MAX_ITER,
            forall|k: int|
                0 <= k < n ==> #[trigger] old(buffer)@[k].x < vp@.pixel_width
                    && old(buffer)@[k].y < vp@.pixel_height,
            forall|k: int|
                j <= k < n ==> #[trigger] buffer@[k] == old(buffer)@[k],
            forall|k: int|
                0 <= k < j ==> #[trigger] buffer@[k] == rendered_pixel(
                    old(buffer)@[k],
                    vp@,
                    palette@,
                ),
        decreases n - j,
    {
        let px = buffer[j].x;
        let py = buffer[j].y;
        proof {
            assert(buffer@[j as int] == old(buffer)@[j as int]);
        }
        let c = pixel_color(vp, palette, px, py);
        buffer[j] = Pixel { x: px, y: py, color: c };
        proof {
            assert(buffer@[j as int] == rendered_pixel(old(buffer)@[j as int], vp@, palette@));
        }
        j = j + 1;
    }
    proof {
        assert forall|k: int| 0 <= k < old(buffer)@.len() implies {
            &&& #[trigger] buffer@[k].x == old(buffer)@[k].x
            &&& buffer@[k].y == old(buffer)@[k].y
            &&& buffer@[k].color == pixel_color_spec(
                vp@,
                palette@,
                old(buffer)@[k].x as int,
                old(buffer)@[k].y as int,
            )
        } by {
            assert(buffer@[k] == rendered_pixel(old(buffer)@[k], vp@, palette@));
        }
    }
}

} // verus!
