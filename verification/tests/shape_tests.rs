//! Tests of the shape-to-path converters and the settings state.

use galago::Settings;
use galago::circle_to_path;
use galago::ellipse_to_path;
use galago::line_to_path;
use galago::polygon_to_path;
use galago::polyline_to_path;
use galago::rect_to_path;

#[test]
fn polyline_pairs() {
    assert_eq!(polyline_to_path("1 2 3 4"), "M 1 2 L 3 4");
    assert_eq!(polyline_to_path("  1.5   -2  "), "M 1.5 -2");
    assert_eq!(polyline_to_path(""), "");
}

#[test]
fn polygon_closes() {
    assert_eq!(polygon_to_path("0 0 10 0 10 10"), "M 0 0 L 10 0 L 10 10Z");
}

#[test]
fn line_text() {
    assert_eq!(line_to_path("1", "2", "3", "4"), "M 1 2 L 3 4");
}

#[test]
fn rect_text() {
    assert_eq!(rect_to_path("1", "2", "3", "4"), "M 1 2 h 3 v 4 h -3 Z");
}

#[test]
fn circle_text() {
    assert_eq!(circle_to_path("5", "6", "2"), "M 5 6 m 2, 0a 2,2 0 1,0 -4,0 a 2,2 0 1,0 4,0");
}

#[test]
fn ellipse_text() {
    assert_eq!(
        ellipse_to_path("5", "6", "2", "3"),
        "M3 6 a2 3 0 1,0 4 0 a2 3 0 1,0 -4 0 Z"
    );
}

#[test]
fn settings_start_closed() {
    let s = Settings::new();
    assert!(!s.open);
    let d: Settings = Default::default();
    assert_eq!(s, d);
}
