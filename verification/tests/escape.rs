//! Escape-time evaluator and interior-shortcut behavior.

use mandelbrot::escape::{escape_time, is_in_cardioid, is_in_period2_bulb, MAX_ITER};

// One plane unit in fixed-point ticks.
const UNIT: i64 = 100_000_000;

#[test]
fn already_escaped_points_return_zero() {
    // |c|^2 >= 4 right away: no iteration is counted.
    assert_eq!(escape_time(2 * UNIT, 0, MAX_ITER), 0);
    assert_eq!(escape_time(-2 * UNIT, 0, MAX_ITER), 0);
    assert_eq!(escape_time(0, 2 * UNIT, 0), 0);
    assert_eq!(escape_time(3 * UNIT / 2, 3 * UNIT / 2, MAX_ITER), 0);
    assert_eq!(escape_time(-249_833_334, -99_833_334, MAX_ITER), 0);
    assert_eq!(escape_time(i64::MAX, i64::MIN, MAX_ITER), 0);
}

#[test]
fn escape_after_one_step() {
    // c = 1.5: z_1 = c stays below the radius, z_2 = c^2 + c = 3.75 escapes.
    assert_eq!(escape_time(3 * UNIT / 2, 0, MAX_ITER), 1);
}

#[test]
fn interior_points_reach_the_cap() {
    // c = 0: the orbit never moves.
    assert_eq!(escape_time(0, 0, MAX_ITER), MAX_ITER);
    // c = -1: the orbit alternates between -1 and 0.
    assert_eq!(escape_time(-UNIT, 0, MAX_ITER), MAX_ITER);
}

#[test]
fn cap_is_respected() {
    assert_eq!(escape_time(0, 0, 5), 5);
    assert_eq!(escape_time(-UNIT, 0, 0), 0);
}

#[test]
fn cardioid_membership() {
    assert!(is_in_cardioid(0, 0));
    // The cusp at 1/4 lies on the boundary, which the test includes.
    assert!(is_in_cardioid(UNIT / 4, 0));
    assert!(is_in_cardioid(10_000_000, 10_000_000));
    assert!(!is_in_cardioid(30_000_000, 0));
    assert!(!is_in_cardioid(-110_000_000, 0));
    assert!(!is_in_cardioid(3 * UNIT, 0));
}

#[test]
fn bulb_membership() {
    assert!(is_in_period2_bulb(-UNIT, 0));
    // The disk boundary at -1.25 is included.
    assert!(is_in_period2_bulb(-125_000_000, 0));
    assert!(is_in_period2_bulb(-95_000_000, 5_000_000));
    assert!(!is_in_period2_bulb(-70_000_000, 0));
    assert!(!is_in_period2_bulb(-UNIT, 26_000_000));
    assert!(!is_in_period2_bulb(0, 0));
}

#[test]
fn shortcuts_agree_with_full_evaluation() {
    // Points strictly inside the cardioid or the period-2 bulb must also
    // survive the full iteration to the cap.
    let cardioid_points = [(0i64, 0i64), (10_000_000, 10_000_000), (-50_000_000, 30_000_000)];
    for (cr, ci) in cardioid_points {
        assert!(is_in_cardioid(cr, ci));
        assert_eq!(escape_time(cr, ci, MAX_ITER), MAX_ITER);
    }
    let bulb_points = [(-UNIT, 0i64), (-95_000_000, 5_000_000), (-110_000_000, -10_000_000)];
    for (cr, ci) in bulb_points {
        assert!(is_in_period2_bulb(cr, ci));
        assert_eq!(escape_time(cr, ci, MAX_ITER), MAX_ITER);
    }
}
