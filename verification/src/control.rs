//! The navigation controller: translates discrete input commands into
//! viewport mutations and tells the caller what to do next.
//!
//! Every command is total: a transform whose result would leave the
//! representable fixed-point range is skipped and the viewport is left
//! unchanged, the navigation analogue of the precision floor.

use vstd::prelude::*;

use crate::fixed::{
    lemma_mul_div_factor_bound, lemma_mul_div_grows, lemma_mul_div_shrinks, lemma_tdiv_bound,
    mul_div_i64, tdiv, SCALE,
};
use crate::viewport::{
    pan_x_model, pan_y_model, zoom_in_model, zoom_out_model, Viewport, VpModel, COORD_LIMIT,
    EXTENT_LIMIT,
};

verus! {

/// Pan step for discrete nudges: a tenth of the visible extent.
pub const PAN_STEP: i64 = 10_000_000;

/// Zoom factor for discrete zoom commands: a fifth of the extent removed
/// or added per step.
pub const ZOOM_STEP: i64 = 20_000_000;

/// The discrete navigation commands. The set is exhaustive; input that
/// maps to none of them is ignored by the caller and never reaches the
/// controller.
#[derive(Clone, Copy, PartialEq, Eq, Structural, Debug)]
pub enum Command {
    PanLeft,
    PanRight,
    PanUp,
    PanDown,
    ZoomIn,
    ZoomOut,
    /// Recenter on the clicked pixel, then zoom in one step.
    RecenterZoomIn { px: u32, py: u32 },
    /// Recenter on the clicked pixel, then zoom out one step.
    RecenterZoomOut { px: u32, py: u32 },
    /// Start a zoom animation export from the current viewport.
    ExportAnimation,
    /// Leave the control loop.
    Quit,
}

/// What the caller must do after a command was applied.
#[derive(Clone, Copy, PartialEq, Eq, Structural, Debug)]
pub enum Action {
    /// Re-render the buffer from the (possibly moved) viewport.
    Redraw,
    /// Run an animation export, then re-render.
    Export,
    /// Terminate the control loop.
    Quit,
}

/// Pan fraction that recenters the view on pixel `p` of a buffer axis of
/// `dim` pixels: the offset from the buffer center, normalized by the
/// buffer size, in ticks.
pub open spec fn recenter_fraction(p: int, dim: int) -> int {
    tdiv((2 * p - dim) * SCALE, 2 * dim)
}

/// The x pan lands inside the representable coordinate range.
pub open spec fn pan_x_ok(m: VpModel, fraction: int) -> bool {
    -COORD_LIMIT <= pan_x_model(m, fraction).x <= COORD_LIMIT
}

/// The y pan lands inside the representable coordinate range.
pub open spec fn pan_y_ok(m: VpModel, fraction: int) -> bool {
    -COORD_LIMIT <= pan_y_model(m, fraction).y <= COORD_LIMIT
}

/// Pan along x, skipped when the result would be unrepresentable.
pub open spec fn pan_x_applied(m: VpModel, fraction: int) -> VpModel {
    if pan_x_ok(m, fraction) {
        pan_x_model(m, fraction)
    } else {
        m
    }
}

/// Pan along y, skipped when the result would be unrepresentable.
pub open spec fn pan_y_applied(m: VpModel, fraction: int) -> VpModel {
    if pan_y_ok(m, fraction) {
        pan_y_model(m, fraction)
    } else {
        m
    }
}

/// Zoom in, skipped when the result would be unrepresentable (extents
/// shrunk below one tick, the precision floor).
pub open spec fn zoom_in_applied(m: VpModel, factor: int) -> VpModel {
    if zoom_in_model(m, factor).inv() {
        zoom_in_model(m, factor)
    } else {
        m
    }
}

/// Zoom out, skipped when the result would be unrepresentable (extents
/// or origin beyond the representable range).
pub open spec fn zoom_out_applied(m: VpModel, factor: int) -> VpModel {
    if zoom_out_model(m, factor).inv() {
        zoom_out_model(m, factor)
    } else {
        m
    }
}

/// The viewport produced by applying one command to `m`.
pub open spec fn command_model(m: VpModel, cmd: Command) -> VpModel {
    match cmd {
        Command::PanLeft => pan_x_applied(m, -PAN_STEP as int),
        Command::PanRight => pan_x_applied(m, PAN_STEP as int),
        Command::PanUp => pan_y_applied(m, -PAN_STEP as int),
        Command::PanDown => pan_y_applied(m, PAN_STEP as int),
        Command::ZoomIn => zoom_in_applied(m, ZOOM_STEP as int),
        Command::ZoomOut => zoom_out_applied(m, ZOOM_STEP as int),
        Command::RecenterZoomIn { px, py } => zoom_in_applied(
            pan_y_applied(
                pan_x_applied(m, recenter_fraction(px as int, m.pixel_width)),
                recenter_fraction(py as int, m.pixel_height),
            ),
            ZOOM_STEP as int,
        ),
        Command::RecenterZoomOut { px, py } => zoom_out_applied(
            pan_y_applied(
                pan_x_applied(m, recenter_fraction(px as int, m.pixel_width)),
                recenter_fraction(py as int, m.pixel_height),
            ),
            ZOOM_STEP as int,
        ),
        Command::ExportAnimation => m,
        Command::Quit => m,
    }
}

/// The action each command asks of the caller.
pub open spec fn command_action(cmd: Command) -> Action {
    match cmd {
        Command::Quit => Action::Quit,
        Command::ExportAnimation => Action::Export,
        _ => Action::Redraw,
    }
}

/// Pan along x if the result stays representable, else leave the
/// viewport unchanged.
fn pan_x_checked(vp: &mut Viewport, fraction: i64)
    requires
        old(vp)@.inv(),
        -SCALE <= fraction <= SCALE,
    ensures
        final(vp)@ == pan_x_applied(old(vp)@, fraction as int),
        final(vp)@.inv(),
{
    proof {
        let w0 = old(vp)@.width;
        assert(-((EXTENT_LIMIT as int) * (SCALE as int)) <= w0 * fraction <= (EXTENT_LIMIT as int)
            * (SCALE as int)) by (nonlinear_arith)
            requires
                0 < w0 <= EXTENT_LIMIT,
                -SCALE <= fraction <= SCALE,
        ;
        lemma_tdiv_bound(w0 * fraction, (EXTENT_LIMIT as int) * (SCALE as int), SCALE as int);
    }
    let shift = mul_div_i64(vp.width, fraction, SCALE);
    let nx = vp.x + shift;
    if -COORD_LIMIT <= nx && nx <= COORD_LIMIT {
        vp.x = nx;
    }
}

/// Pan along y if the result stays representable, else leave the
/// viewport unchanged.
fn pan_y_checked(vp: &mut Viewport, fraction: i64)
    requires
        old(vp)@.inv(),
        -SCALE <= fraction <= SCALE,
    ensures
        final(vp)@ == pan_y_applied(old(vp)@, fraction as int),
        final(vp)@.inv(),
{
    proof {
        let h0 = old(vp)@.height;
        assert(-((EXTENT_LIMIT as int) * (SCALE as int)) <= h0 * fraction <= (EXTENT_LIMIT as int)
            * (SCALE as int)) by (nonlinear_arith)
            requires
                0 < h0 <= EXTENT_LIMIT,
                -SCALE <= fraction <= SCALE,
        ;
        lemma_tdiv_bound(h0 * fraction, (EXTENT_LIMIT as int) * (SCALE as int), SCALE as int);
    }
    let shift = mul_div_i64(vp.height, fraction, SCALE);
    let ny = vp.y + shift;
    if -COORD_LIMIT <= ny && ny <= COORD_LIMIT {
        vp.y = ny;
    }
}

/// Zoom in if the result stays representable, else leave the viewport
/// unchanged.
fn zoom_in_checked(vp: &mut Viewport, factor: i64)
    requires
        old(vp)@.inv(),
        0 < factor < SCALE,
    ensures
        final(vp)@ == zoom_in_applied(old(vp)@, factor as int),
        final(vp)@.inv(),
{
    proof {
        lemma_mul_div_shrinks(old(vp)@.width, SCALE - factor, SCALE as int);
        lemma_mul_div_shrinks(old(vp)@.height, SCALE - factor, SCALE as int);
        lemma_mul_div_shrinks(old(vp)@.width, factor as int, 2 * SCALE as int);
        lemma_mul_div_shrinks(old(vp)@.height, factor as int, 2 * SCALE as int);
    }
    let w1 = mul_div_i64(vp.width, SCALE - factor, SCALE);
    let h1 = mul_div_i64(vp.height, SCALE - factor, SCALE);
    let dx = mul_div_i64(vp.width, factor, 2 * SCALE);
    let dy = mul_div_i64(vp.height, factor, 2 * SCALE);
    let nx = vp.x + dx;
    let ny = vp.y + dy;
    if w1 >= 1 && h1 >= 1 && -COORD_LIMIT <= nx && nx <= COORD_LIMIT && -COORD_LIMIT <= ny && ny
        <= COORD_LIMIT {
        vp.zoom_in(factor);
    }
}

/// Zoom out if the result stays representable, else leave the viewport
/// unchanged. The factor is kept at or below half a unit so the grown
/// extent stays computable before the range check.
fn zoom_out_checked(vp: &mut Viewport, factor: i64)
    requires
        old(vp)@.inv(),
        0 < factor <= SCALE / 2,
    ensures
        final(vp)@ == zoom_out_applied(old(vp)@, factor as int),
        final(vp)@.inv(),
{
    proof {
        lemma_mul_div_factor_bound(old(vp)@.width, SCALE as int, SCALE - factor, 2);
        lemma_mul_div_factor_bound(old(vp)@.height, SCALE as int, SCALE - factor, 2);
        lemma_mul_div_grows(old(vp)@.width, SCALE as int, SCALE - factor);
        lemma_mul_div_grows(old(vp)@.height, SCALE as int, SCALE - factor);
    }
    let w1 = mul_div_i64(vp.width, SCALE, SCALE - factor);
    let h1 = mul_div_i64(vp.height, SCALE, SCALE - factor);
    proof {
        lemma_mul_div_shrinks(w1 as int, factor as int, 2 * SCALE as int);
        lemma_mul_div_shrinks(h1 as int, factor as int, 2 * SCALE as int);
    }
    let dx = mul_div_i64(w1, factor, 2 * SCALE);
    let dy = mul_div_i64(h1, factor, 2 * SCALE);
    let nx = vp.x - dx;
    let ny = vp.y - dy;
    if w1 <= EXTENT_LIMIT && h1 <= EXTENT_LIMIT && -COORD_LIMIT <= nx && nx <= COORD_LIMIT
        && -COORD_LIMIT <= ny && ny <= COORD_LIMIT {
        vp.zoom_out(factor);
    }
}

/// Pan fraction that recenters the view on pixel coordinate `p` along a
/// buffer axis of `dim` pixels.
fn recenter_fraction_of(p: u32, dim: u32) -> (f: i64)
    requires
        0 < dim,
        p < dim,
    ensures
        f == recenter_fraction(p as int, dim as int),
        -SCALE <= f <= SCALE,
{
    proof {
        assert(-(2 * (dim as int) * (SCALE as int)) <= (2 * (p as int) - dim) * (SCALE as int) <= 2
            * (dim as int) * (SCALE as int)) by (nonlinear_arith)
            requires
                0 < dim,
                p < dim,
                SCALE == 100_000_000i64,
        ;
        lemma_tdiv_bound(
            (2 * (p as int) - dim) * (SCALE as int),
            2 * (dim as int) * (SCALE as int),
            2 * (dim as int),
        );
        assert((2 * (dim as int) * (SCALE as int)) / (2 * (dim as int)) == SCALE as int)
            by (nonlinear_arith)
            requires
                0 < dim,
                SCALE == 100_000_000i64,
        ;
    }
    mul_div_i64(2 * (p as i64) - (dim as i64), SCALE, 2 * (dim as i64))
}

/// Apply one navigation command to the viewport and report what to do
/// next. Recenter commands carry a pixel inside the buffer.
pub fn apply_command(vp: &mut Viewport, cmd: Command) -> (action: Action)
    requires
        old(vp)@.inv(),
        match cmd {
            Command::RecenterZoomIn { px, py } => px < old(vp)@.pixel_width && py < old(
                vp,
            )@.pixel_height,
            Command::RecenterZoomOut { px, py } => px < old(vp)@.pixel_width && py < old(
                vp,
            )@.pixel_height,
            _ => true,
        },
    ensures
        final(vp)@ == command_model(old(vp)@, cmd),
        final(vp)@.inv(),
        action == command_action(cmd),
{
    match cmd {
        Command::PanLeft => {
            pan_x_checked(vp, -PAN_STEP);
            Action::Redraw
        },
        Command::PanRight => {
            pan_x_checked(vp, PAN_STEP);
            Action::Redraw
        },
        Command::PanUp => {
            pan_y_checked(vp, -PAN_STEP);
            Action::Redraw
        },
        Command::PanDown => {
            pan_y_checked(vp, PAN_STEP);
            Action::Redraw
        },
        Command::ZoomIn => {
            zoom_in_checked(vp, ZOOM_STEP);
            Action::Redraw
        },
        Command::ZoomOut => {
            zoom_out_checked(vp, ZOOM_STEP);
            Action::Redraw
        },
        Command::RecenterZoomIn { px, py } => {
            let fx = recenter_fraction_of(px, vp.pixel_width);
            let fy = recenter_fraction_of(py, vp.pixel_height);
            pan_x_checked(vp, fx);
            pan_y_checked(vp, fy);
            zoom_in_checked(vp, ZOOM_STEP);
            Action::Redraw
        },
        Command::RecenterZoomOut { px, py } => {
            let fx = recenter_fraction_of(px, vp.pixel_width);
            let fy = recenter_fraction_of(py, vp.pixel_height);
            pan_x_checked(vp, fx);
            pan_y_checked(vp, fy);
            zoom_out_checked(vp, ZOOM_STEP);
            Action::Redraw
        },
        Command::ExportAnimation => Action::Export,
        Command::Quit => Action::Quit,
    }
}

} // verus!
