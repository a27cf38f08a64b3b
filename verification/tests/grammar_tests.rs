//! Edge cases of the grammar, the serializer and the per-segment editor.

use galago::Num;
use galago::PathError;
use galago::SvgPath;

#[test]
fn toggle_close_path_flips_only_flag() {
    let mut path = SvgPath::parse("M1 2Z").unwrap();
    path.toggle_coord_type_at(1).unwrap();
    assert_eq!(path.to_string(), "M1 2z");
    path.toggle_coord_type_at(1).unwrap();
    assert_eq!(path.to_string(), "M1 2Z");
}

#[test]
fn toggle_axis_lines() {
    let mut path = SvgPath::parse("M1 2H5V7").unwrap();
    path.toggle_coord_type_at(1).unwrap();
    assert_eq!(path.to_string(), "M1 2h4V7");
    path.toggle_coord_type_at(2).unwrap();
    assert_eq!(path.to_string(), "M1 2h4v5");
}

#[test]
fn relative_touches_every_kind() {
    let mut path = SvgPath::parse("M10 10H15V20A1 2 0 0 1 30 40Z").unwrap();
    path.relative().unwrap();
    assert_eq!(path.to_string(), "m10 10h5v10a1 2 0 0 1 15 20z");
}

#[test]
fn negative_fractions_round_trip() {
    let path = SvgPath::parse("M-0.5-0.25").unwrap();
    assert_eq!(path.to_string(), "M-0.5-0.25");
}

#[test]
fn plus_signs_and_commas_normalize() {
    let path = SvgPath::parse("M+5,+6 L 7 , 8").unwrap();
    assert_eq!(path.to_string(), "M5 6L7 8");
}

#[test]
fn trailing_dot_is_a_whole_number() {
    let path = SvgPath::parse("M1. 2").unwrap();
    assert_eq!(path.to_string(), "M1 2");
}

#[test]
fn bare_dot_is_rejected() {
    assert!(matches!(SvgPath::parse("M. 2").unwrap_err(), PathError::Syntax { .. }));
}

#[test]
fn bad_arc_flag_is_rejected() {
    assert!(matches!(
        SvgPath::parse("M0 0A1 2 3 4 5 6 7").unwrap_err(),
        PathError::Syntax { .. }
    ));
}

#[test]
fn replace_first_segment() {
    let mut path = SvgPath::parse("M1 2L3 4").unwrap();
    let out = path.try_replace_element_at(0, "M9 9").unwrap();
    assert_eq!(out, "M9 9L3 4");
}

#[test]
fn scale_by_halves_is_exact() {
    let mut path = SvgPath::parse("M1.5 1.5").unwrap();
    let f = Num::from_billionths(1_500_000_000).unwrap();
    path.scale(f, f).unwrap();
    assert_eq!(path.to_string(), "M2.25 2.25");
}

#[test]
fn rounding_beyond_precision_changes_nothing() {
    let mut path = SvgPath::parse("M0.123456789 1").unwrap();
    path.round(11);
    assert_eq!(path.to_string(), "M0.123456789 1");
}

#[test]
fn arc_segment_canonical_text() {
    let path = SvgPath::parse("a 1,2 30 1,0 4,5").unwrap();
    assert_eq!(path.items[0].value(), "a1 2 30 1 0 4 5");
}

#[test]
fn exponent_marks_and_signs() {
    let path = SvgPath::parse("M1E2 0L2e+1 0").unwrap();
    assert_eq!(path.to_string(), "M100 0L20 0");
}
