//! The zoom-animation export pipeline: render a trajectory of outward
//! zoom steps from a cloned viewport and encode the frames as an
//! animated image, ready to be written to a file by the caller.

use vstd::prelude::*;

use crate::color::Color;
use crate::escape::MAX_ITER;
use crate::fixed::{
    lemma_mul_div_factor_bound, lemma_mul_div_grows, lemma_mul_div_shrinks,
    lemma_mul_div_strict_growth, mul_div, SCALE,
};
use crate::render::{new_buffer, render_frame, pixel_color_spec, Pixel};
use crate::viewport::{zoom_out_model, Viewport, VpModel, EXTENT_LIMIT};

verus! {

/// Widest viewport extent from which the export loop takes another step;
/// half of `EXTENT_LIMIT`, so one more outward zoom stays representable.
pub const EXPORT_WIDTH_LIMIT: i64 = 500_000_000_000;

/// Lowest origin coordinate from which the export loop takes another
/// step; `EXTENT_LIMIT` above `-COORD_LIMIT`, so one more outward shift
/// stays representable.
pub const EXPORT_COORD_FLOOR: i64 = -999_000_000_000_000;

/// The colors of the buffer's pixels, in buffer order.
pub open spec fn colors_of(b: Seq<Pixel>) -> Seq<Color> {
    Seq::new(b.len(), |j: int| b[j].color)
}

/// The colors of a full frame under viewport `m`, row-major.
pub open spec fn frame_colors(m: VpModel, pal: Seq<Color>) -> Seq<Color> {
    Seq::new(
        (m.pixel_width * m.pixel_height) as nat,
        |j: int| pixel_color_spec(m, pal, j % m.pixel_width, j / m.pixel_width),
    )
}

/// A color sequence flattened to sequential 8-bit RGB channel triples.
pub open spec fn flatten_rgb(s: Seq<Color>) -> Seq<u8> {
    Seq::new(
        3 * s.len(),
        |k: int|
            if k % 3 == 0 {
                s[k / 3].r
            } else if k % 3 == 1 {
                s[k / 3].g
            } else {
                s[k / 3].b
            },
    )
}

/// The viewport after `n` outward zoom steps by `factor`.
pub open spec fn zoomed_out(m: VpModel, factor: int, n: nat) -> VpModel
    decreases n,
{
    if n == 0 {
        m
    } else {
        zoom_out_model(zoomed_out(m, factor, (n - 1) as nat), factor)
    }
}

/// Termination measure of the export loop: how far the height still is
/// from the bound.
pub open spec fn export_measure(m: VpModel, bound: int) -> int {
    if m.height < bound {
        bound - m.height
    } else {
        0
    }
}

/// The export loop renders another frame at `m`: the height is still
/// below the termination bound and the region is far enough from the
/// representable range that one more outward step cannot leave it.
pub open spec fn export_continues(m: VpModel, bound: int) -> bool {
    &&& m.height < bound
    &&& m.width <= EXPORT_WIDTH_LIMIT
    &&& m.x >= EXPORT_COORD_FLOOR
    &&& m.y >= EXPORT_COORD_FLOOR
}

/// Flatten a pixel buffer to its RGB channel triples, in buffer order.
pub fn flatten_frame(buffer: &Vec<Pixel>) -> (bytes: Vec<u8>)
    ensures
        bytes@ == flatten_rgb(colors_of(buffer@)),
{
    let n = buffer.len();
    let mut bytes: Vec<u8> = Vec::new();
    let mut j: usize = 0;
    while j < n
        invariant
            n == buffer@.len(),
            j <= n,
            bytes@.len() == 3 * j,
            forall|k: int|
                0 <= k < 3 * j ==> #[trigger] bytes@[k] == flatten_rgb(colors_of(buffer@))[k],
        decreases n - j,
    {
        let p = buffer[j];
        bytes.push(p.color.r);
        bytes.push(p.color.g);
        bytes.push(p.color.b);
        j = j + 1;
    }
    proof {
        assert(bytes@ =~= flatten_rgb(colors_of(buffer@)));
    }
    bytes
}

/// Render the zoom-out trajectory that starts at a snapshot of `vp`:
/// one flattened RGB frame per step, zooming out by `factor` after each
/// frame, until the height reaches `bound` (or the region would leave
/// the representable range, the export analogue of the precision floor).
/// Each step strictly grows the height, so the loop terminates.
pub fn render_zoom_frames(vp: &Viewport, palette: &Vec<Color>, factor: i64, bound: i64) -> (frames:
    Vec<Vec<u8>>)
    requires
        vp@.inv(),
        palette@.len() == MAX_ITER,
        0 < factor <= SCALE / 2,
        vp@.height * factor >= SCALE,
        0 < bound <= EXTENT_LIMIT / 2,
    ensures
        forall|n: int|
            0 <= n < frames@.len() ==> #[trigger] frames@[n]@ == flatten_rgb(
                frame_colors(zoomed_out(vp@, factor as int, n as nat), palette@),
            ),
        forall|n: int|
            0 <= n < frames@.len() ==> export_continues(
                #[trigger] zoomed_out(vp@, factor as int, n as nat),
                bound as int,
            ),
        !export_continues(zoomed_out(vp@, factor as int, frames@.len() as nat), bound as int),
{
    let mut cur: Viewport = *vp;
    let mut buffer = new_buffer(vp.pixel_width, vp.pixel_height);
    let mut frames: Vec<Vec<u8>> = Vec::new();
    while cur.height < bound && cur.width <= EXPORT_WIDTH_LIMIT && cur.x >= EXPORT_COORD_FLOOR
        && cur.y >= EXPORT_COORD_FLOOR
        invariant
            vp@.inv(),
            palette@.len() == MAX_ITER,
            0 < factor <= SCALE / 2,
            0 < bound <= EXTENT_LIMIT / 2,
            cur@.inv(),
            cur@.height * factor >= SCALE,
            cur@ == zoomed_out(vp@, factor as int, frames@.len() as nat),
            cur@.pixel_width == vp@.pixel_width,
            cur@.pixel_height == vp@.pixel_height,
            buffer@.len() == vp@.pixel_width * vp@.pixel_height,
            forall|j: int|
                0 <= j < buffer@.len() ==> #[trigger] buffer@[j].x == j % vp@.pixel_width
                    && buffer@[j].y == j / vp@.pixel_width,
            forall|n: int|
                0 <= n < frames@.len() ==> #[trigger] frames@[n]@ == flatten_rgb(
                    frame_colors(zoomed_out(vp@, factor as int, n as nat), palette@),
                ),
            forall|n: int|
                0 <= n < frames@.len() ==> export_continues(
                    #[trigger] zoomed_out(vp@, factor as int, n as nat),
                    bound as int,
                ),
        decreases export_measure(cur@, bound as int),
    {
        proof {
            let pw = vp@.pixel_width;
            let ph = vp@.pixel_height;
            assert forall|j: int|
                0 <= j < buffer@.len() implies buffer@[j].x < cur@.pixel_width && buffer@[j].y
                < cur@.pixel_height by {
                assert(buffer@[j].x == j % pw && buffer@[j].y == j / pw);
                assert(0 <= j % pw < pw && 0 <= j / pw < ph) by (nonlinear_arith)
                    requires
                        0 < pw,
                        0 < ph,
                        0 <= j < pw * ph,
                ;
            }
        }
        let ghost pre_buf = buffer@;
        render_frame(&mut buffer, &cur, palette);
        let bytes = flatten_frame(&buffer);
        proof {
            let pw = vp@.pixel_width;
            assert forall|j: int|
                0 <= j < buffer@.len() implies #[trigger] colors_of(buffer@)[j] == frame_colors(
                cur@,
                palette@,
            )[j] by {
                assert(pre_buf[j].x == j % pw && pre_buf[j].y == j / pw);
                assert(buffer@[j].x == pre_buf[j].x);
                assert(buffer@[j].color == pixel_color_spec(
                    cur@,
                    palette@,
                    pre_buf[j].x as int,
                    pre_buf[j].y as int,
                ));
            }
            assert(colors_of(buffer@) =~= frame_colors(cur@, palette@));
        }
        frames.push(bytes);
        proof {
            let m = cur@;
            let s = SCALE as int;
            let f = factor as int;
            lemma_mul_div_factor_bound(m.width, s, s - f, 2);
            lemma_mul_div_factor_bound(m.height, s, s - f, 2);
            lemma_mul_div_grows(m.width, s, s - f);
            lemma_mul_div_grows(m.height, s, s - f);
            lemma_mul_div_strict_growth(m.height, s, s - f);
            let w1 = mul_div(m.width, s, s - f);
            let h1 = mul_div(m.height, s, s - f);
            lemma_mul_div_shrinks(w1, f, 2 * s);
            lemma_mul_div_shrinks(h1, f, 2 * s);
            assert(zoom_out_model(m, f).inv());
        }
        cur.zoom_out(factor);
        proof {
            let n = frames@.len() as nat;
            assert(zoomed_out(vp@, factor as int, n) == zoom_out_model(
                zoomed_out(vp@, factor as int, (n - 1) as nat),
                factor as int,
            ));
            vstd::arithmetic::mul::lemma_mul_inequality(
                zoomed_out(vp@, factor as int, (n - 1) as nat).height,
                cur@.height,
                factor as int,
            );
        }
    }
    frames
}

/// What the animated-image encoder produces from the frame dimensions
/// and the flattened RGB data of every frame. The encoder is a
/// deterministic computation: the same frames give the same bytes.
pub uninterp spec fn gif_encoding(width: u16, height: u16, frames: Seq<Seq<u8>>) -> Seq<u8>;

#[verifier::external_type_specification]
#[verifier::external_body]
pub struct ExEncodingError(gif::EncodingError);

/// Relies on gif::Encoder::new, gif::Frame::from_rgb_speed and
/// gif::Encoder::write_frame: encoding into an in-memory buffer is a
/// function of the dimensions and the frame data alone (frame palettes
/// are chosen by pixel values through ordered maps and deterministic
/// quantization, never by address or hash order). `from_rgb_speed`
/// demands exactly `width * height` RGB triples per frame, which the
/// precondition guarantees; the only failure of an in-memory encoder is
/// an allocation failure, reported as an error value.
#[verifier::external_body]
fn encode_gif(width: u16, height: u16, frames: &Vec<Vec<u8>>) -> (r: Result<
    Vec<u8>,
    gif::EncodingError,
>)
    requires
        forall|n: int| 0 <= n < frames@.len() ==> frames@[n]@.len() == 3 * width * height,
    ensures
        r matches Ok(bytes) ==> bytes@ == gif_encoding(width, height, frames.deep_view()),
{
    let mut out: Vec<u8> = Vec::new();
    let mut encoder = gif::Encoder::new(&mut out, width, height, &[])?;
    for data in frames.iter() {
        let frame = gif::Frame::from_rgb_speed(width, height, data, 10);
        encoder.write_frame(&frame)?;
    }
    drop(encoder);
    Ok(out)
}

/// Why an export failed.
#[derive(Clone, Copy, PartialEq, Eq, Structural, Debug)]
pub enum ExportError {
    /// The animated-image encoder reported an error; the export is
    /// abandoned, the live view is unaffected.
    EncodingFailed,
}

/// Encode rendered frames as one animated image held in memory. On
/// success the bytes are exactly the encoding of the given frames.
pub fn encode_animation(pixel_width: u32, pixel_height: u32, frames: &Vec<Vec<u8>>) -> (r: Result<
    Vec<u8>,
    ExportError,
>)
    requires
        0 < pixel_width <= 65535,
        0 < pixel_height <= 65535,
        forall|n: int|
            0 <= n < frames@.len() ==> frames@[n]@.len() == 3 * pixel_width * pixel_height,
    ensures
        match r {
            Ok(bytes) => bytes@ == gif_encoding(
                pixel_width as u16,
                pixel_height as u16,
                frames.deep_view(),
            ),
            Err(e) => e == ExportError::EncodingFailed,
        },
{
    match encode_gif(pixel_width as u16, pixel_height as u16, frames) {
        Ok(bytes) => Ok(bytes),
        Err(_) => Err(ExportError::EncodingFailed),
    }
}

} // verus!
