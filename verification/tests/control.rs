//! The navigation controller: command dispatch and viewport mutations.

use mandelbrot::control::{apply_command, Action, Command};
use mandelbrot::viewport::Viewport;

#[test]
fn pan_commands_nudge_the_origin() {
    let mut vp = Viewport::new(1050, 600);
    assert_eq!(apply_command(&mut vp, Command::PanRight), Action::Redraw);
    assert_eq!(vp.x, -215_000_000);
    assert_eq!(apply_command(&mut vp, Command::PanLeft), Action::Redraw);
    assert_eq!(vp.x, -250_000_000);
    assert_eq!(apply_command(&mut vp, Command::PanDown), Action::Redraw);
    assert_eq!(vp.y, -80_000_000);
    assert_eq!(apply_command(&mut vp, Command::PanUp), Action::Redraw);
    assert_eq!(vp.y, -100_000_000);
}

#[test]
fn zoom_commands_scale_the_extents() {
    let mut vp = Viewport::new(1050, 600);
    assert_eq!(apply_command(&mut vp, Command::ZoomIn), Action::Redraw);
    assert_eq!(vp.width, 280_000_000);
    assert_eq!(vp.height, 160_000_000);
    assert_eq!(apply_command(&mut vp, Command::ZoomOut), Action::Redraw);
    assert_eq!(vp.width, 350_000_000);
    assert_eq!(vp.height, 200_000_000);
}

#[test]
fn recenter_on_buffer_center_is_a_plain_zoom() {
    let mut a = Viewport::new(1050, 600);
    let mut b = Viewport::new(1050, 600);
    apply_command(&mut a, Command::RecenterZoomIn { px: 525, py: 300 });
    apply_command(&mut b, Command::ZoomIn);
    assert_eq!(a.x, b.x);
    assert_eq!(a.y, b.y);
    assert_eq!(a.width, b.width);
    assert_eq!(a.height, b.height);
}

#[test]
fn recenter_on_a_corner_shifts_then_zooms() {
    let mut vp = Viewport::new(1050, 600);
    apply_command(&mut vp, Command::RecenterZoomOut { px: 0, py: 0 });
    // Pan by -0.5 of each extent, then zoom out by 0.2.
    assert_eq!(vp.width, 437_500_000);
    assert_eq!(vp.height, 250_000_000);
    assert_eq!(vp.x, -468_750_000);
    assert_eq!(vp.y, -225_000_000);
}

#[test]
fn export_and_quit_leave_the_viewport_alone() {
    let mut vp = Viewport::new(1050, 600);
    assert_eq!(apply_command(&mut vp, Command::ExportAnimation), Action::Export);
    assert_eq!(apply_command(&mut vp, Command::Quit), Action::Quit);
    assert_eq!(vp.x, -250_000_000);
    assert_eq!(vp.y, -100_000_000);
    assert_eq!(vp.width, 350_000_000);
    assert_eq!(vp.height, 200_000_000);
}

#[test]
fn zoom_in_stops_at_the_precision_floor() {
    let mut vp = Viewport::new(1050, 600);
    vp.width = 1;
    vp.height = 1;
    // Shrinking a one-tick extent would collapse it to zero: the command
    // is skipped and the viewport is unchanged.
    assert_eq!(apply_command(&mut vp, Command::ZoomIn), Action::Redraw);
    assert_eq!(vp.width, 1);
    assert_eq!(vp.height, 1);
    assert_eq!(vp.x, -250_000_000);
}
