//! Outline vectorizer behaviour: exact quadratic elevation, em-square
//! scaling, and the fixed-stride stream shape.

use font_dataset::pen::{DrawEvent, TensorPen, vectorize_events};

fn value(numerator: i64, den: i64) -> f64 {
    numerator as f64 / den as f64
}

#[test]
fn quad_elevation_exact() {
    // Current point (0,0), quad control (10,0), endpoint (20,0): the two
    // cubic controls must be exactly 20/3 = 6.667 and 40/3 = 13.333.
    let mut pen = TensorPen::new(0);
    pen.move_to(0, 0);
    pen.quad_to(10, 0, 20, 0);
    let den = pen.denominator();
    let (cmds, coords) = pen.finish();
    assert_eq!(cmds, vec![1, 3, 5]);
    assert_eq!(&coords[6..12], &[20, 0, 40, 0, 60, 0]);
    assert!((value(coords[6], den) - 6.667).abs() < 1e-3);
    assert!((value(coords[8], den) - 13.333).abs() < 1e-3);
    assert!((value(coords[10], den) - 20.0).abs() < 1e-9);
}

#[test]
fn quad_without_current_point_uses_control() {
    // A quadratic as the first event takes its own control as the
    // current point: p = q = (10, 0).
    let mut pen = TensorPen::new(0);
    pen.quad_to(10, 0, 20, 0);
    let (cmds, coords) = pen.finish();
    assert_eq!(cmds, vec![3, 5]);
    assert_eq!(&coords[0..6], &[30, 0, 40, 0, 60, 0]);
}

#[test]
fn scaling_normalizes_into_em_square() {
    // With units_per_em = 1000, a point at (500, 500) comes out at
    // (0.5, 0.5).
    let mut pen = TensorPen::new(1000);
    pen.move_to(500, 500);
    let den = pen.denominator();
    assert_eq!(den, 3000);
    let (cmds, coords) = pen.finish();
    assert_eq!(cmds, vec![1, 5]);
    assert!((value(coords[4], den) - 0.5).abs() < 1e-9);
    assert!((value(coords[5], den) - 0.5).abs() < 1e-9);
}

#[test]
fn zero_units_per_em_leaves_coordinates_unscaled() {
    let mut pen = TensorPen::new(0);
    pen.move_to(500, 500);
    let den = pen.denominator();
    assert_eq!(den, 3);
    let (_, coords) = pen.finish();
    assert!((value(coords[4], den) - 500.0).abs() < 1e-9);
}

#[test]
fn close_resets_current_point_to_contour_start() {
    let mut pen = TensorPen::new(0);
    pen.move_to(0, 0);
    pen.line_to(10, 0);
    pen.close();
    // After the close, drawing continues from the contour start (0,0):
    // the elevated first control is p + 2q = (10, 10).
    pen.quad_to(5, 5, 10, 10);
    let (cmds, coords) = pen.finish();
    assert_eq!(cmds, vec![1, 2, 4, 3, 5]);
    assert_eq!(&coords[12..18], &[0, 0, 0, 0, 0, 0]);
    assert_eq!(&coords[18..24], &[10, 10, 20, 20, 30, 30]);
}

#[test]
fn finished_stream_shape() {
    // Every finished stream ends with exactly one End code, and the
    // coordinate stream holds six values per command.
    let mut pen = TensorPen::new(1000);
    pen.move_to(0, 0);
    pen.line_to(10, 0);
    pen.quad_to(15, 5, 20, 0);
    pen.curve_to(1, 2, 3, 4, 5, 6);
    pen.close();
    let (cmds, coords) = pen.finish();
    assert_eq!(cmds.len(), 6);
    assert_eq!(coords.len(), 6 * cmds.len());
    assert_eq!(*cmds.last().unwrap(), 5);
    assert_eq!(cmds.iter().filter(|&&c| c == 5).count(), 1);
    assert!(cmds[..cmds.len() - 1].iter().all(|&c| (1..=4).contains(&c)));
}

#[test]
fn empty_stream_still_terminated() {
    let pen = TensorPen::new(1000);
    let (cmds, coords) = pen.finish();
    assert_eq!(cmds, vec![5]);
    assert_eq!(coords, vec![0, 0, 0, 0, 0, 0]);
}

#[test]
fn vectorize_events_matches_manual_driving() {
    let events = vec![
        DrawEvent::MoveTo(0, 0),
        DrawEvent::LineTo(10, 0),
        DrawEvent::QuadTo(15, 5, 20, 0),
        DrawEvent::CurveTo(1, 2, 3, 4, 5, 6),
        DrawEvent::Close,
    ];
    let (cmds, coords) = vectorize_events(&events, 1000);
    let mut pen = TensorPen::new(1000);
    pen.move_to(0, 0);
    pen.line_to(10, 0);
    pen.quad_to(15, 5, 20, 0);
    pen.curve_to(1, 2, 3, 4, 5, 6);
    pen.close();
    let (cmds2, coords2) = pen.finish();
    assert_eq!(cmds, cmds2);
    assert_eq!(coords, coords2);
    assert_eq!(cmds, vec![1, 2, 3, 3, 4, 5]);
}
