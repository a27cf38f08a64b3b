//! Tests of the path document: parsing, serialization, conversion,
//! transforms and indexed editing.

use galago::Num;
use galago::PathError;
use galago::PathSegment;
use galago::SvgItem;
use galago::SvgPath;

fn num(b: i64) -> Num {
    Num::from_billionths(b).unwrap()
}

fn whole(v: i64) -> Num {
    Num::from_int(v).unwrap()
}

#[test]
fn test_path_parsed() {
    let mut parsed = SvgPath::parse("M174 270C113 271 84 237 80 207 78 189 79 172 76 172 46 154 34 142 21 109-4 49 45 62 55 66 71 72 79 83 90 94 103 104 160 104 174 104ZM110 150C104 153 98 160 95 166S92 184 95 190C103 208 126 216 142 205 149 200 153 195 155 188 161 172 150 153 133 147 128 145 115 147 110 150ZM174 270C236 271 265 237 269 207 271 189 270 172 273 172 303 154 315 142 328 109 353 49 304 62 294 66 278 72 270 83 259 94 246 104 189 104 174 104ZM239 150C245 153 251 160 254 166S257 184 254 190C246 208 223 216 207 205 200 200 196 195 194 188 188 172 199 153 216 147 221 145 234 147 239 150Z").unwrap();
    assert_eq!(
        parsed.to_string(),
        "M174 270C113 271 84 237 80 207C78 189 79 172 76 172C46 154 34 142 21 109C-4 49 45 62 55 66C71 72 79 83 90 94C103 104 160 104 174 104ZM110 150C104 153 98 160 95 166S92 184 95 190C103 208 126 216 142 205C149 200 153 195 155 188C161 172 150 153 133 147C128 145 115 147 110 150ZM174 270C236 271 265 237 269 207C271 189 270 172 273 172C303 154 315 142 328 109C353 49 304 62 294 66C278 72 270 83 259 94C246 104 189 104 174 104ZM239 150C245 153 251 160 254 166S257 184 254 190C246 208 223 216 207 205C200 200 196 195 194 188C188 172 199 153 216 147C221 145 234 147 239 150Z"
    );
    parsed.absolute().unwrap();
    assert_eq!(
        parsed.to_string(),
        "M174 270C113 271 84 237 80 207C78 189 79 172 76 172C46 154 34 142 21 109C-4 49 45 62 55 66C71 72 79 83 90 94C103 104 160 104 174 104ZM110 150C104 153 98 160 95 166S92 184 95 190C103 208 126 216 142 205C149 200 153 195 155 188C161 172 150 153 133 147C128 145 115 147 110 150ZM174 270C236 271 265 237 269 207C271 189 270 172 273 172C303 154 315 142 328 109C353 49 304 62 294 66C278 72 270 83 259 94C246 104 189 104 174 104ZM239 150C245 153 251 160 254 166S257 184 254 190C246 208 223 216 207 205C200 200 196 195 194 188C188 172 199 153 216 147C221 145 234 147 239 150Z"
    );

    parsed.relative().unwrap();
    assert_eq!(
        parsed.to_string(),
        "m174 270c-61 1-90-33-94-63c-2-18-1-35-4-35c-30-18-42-30-55-63c-25-60 24-47 34-43c16 6 24 17 35 28c13 10 70 10 84 10zm-64-120c-6 3-12 10-15 16s-3 18 0 24c8 18 31 26 47 15c7-5 11-10 13-17c6-16-5-35-22-41c-5-2-18 0-23 3zm64 120c62 1 91-33 95-63c2-18 1-35 4-35c30-18 42-30 55-63c25-60-24-47-34-43c-16 6-24 17-35 28c-13 10-70 10-85 10zm65-120c6 3 12 10 15 16s3 18 0 24c-8 18-31 26-47 15c-7-5-11-10-13-17c-6-16 5-35 22-41c5-2 18 0 23 3z"
    );

    let mut parsed_relative = SvgPath::parse("m174 270c-61 1-90-33-94-63c-2-18-1-35-4-35c-30-18-42-30-55-63c-25-60 24-47 34-43c16 6 24 17 35 28c13 10 70 10 84 10zm-64-120c-6 3-12 10-15 16s-3 18 0 24c8 18 31 26 47 15c7-5 11-10 13-17c6-16-5-35-22-41c-5-2-18 0-23 3zm64 120c62 1 91-33 95-63c2-18 1-35 4-35c30-18 42-30 55-63c25-60-24-47-34-43c-16 6-24 17-35 28c-13 10-70 10-85 10zm65-120c6 3 12 10 15 16s3 18 0 24c-8 18-31 26-47 15c-7-5-11-10-13-17c-6-16 5-35 22-41c5-2 18 0 23 3z").unwrap();

    assert_eq!(
        parsed_relative.to_string(),
        "m174 270c-61 1-90-33-94-63c-2-18-1-35-4-35c-30-18-42-30-55-63c-25-60 24-47 34-43c16 6 24 17 35 28c13 10 70 10 84 10zm-64-120c-6 3-12 10-15 16s-3 18 0 24c8 18 31 26 47 15c7-5 11-10 13-17c6-16-5-35-22-41c-5-2-18 0-23 3zm64 120c62 1 91-33 95-63c2-18 1-35 4-35c30-18 42-30 55-63c25-60-24-47-34-43c-16 6-24 17-35 28c-13 10-70 10-85 10zm65-120c6 3 12 10 15 16s3 18 0 24c-8 18-31 26-47 15c-7-5-11-10-13-17c-6-16 5-35 22-41c5-2 18 0 23 3z"
    );
    parsed_relative.absolute().unwrap();
    assert_eq!(
        parsed_relative.to_string(),
        "M174 270C113 271 84 237 80 207C78 189 79 172 76 172C46 154 34 142 21 109C-4 49 45 62 55 66C71 72 79 83 90 94C103 104 160 104 174 104ZM110 150C104 153 98 160 95 166S92 184 95 190C103 208 126 216 142 205C149 200 153 195 155 188C161 172 150 153 133 147C128 145 115 147 110 150ZM174 270C236 271 265 237 269 207C271 189 270 172 273 172C303 154 315 142 328 109C353 49 304 62 294 66C278 72 270 83 259 94C246 104 189 104 174 104ZM239 150C245 153 251 160 254 166S257 184 254 190C246 208 223 216 207 205C200 200 196 195 194 188C188 172 199 153 216 147C221 145 234 147 239 150Z"
    );
}

#[test]
fn parse_packed_numbers() {
    let path = SvgPath::parse("M10-20l30.1.5.1-20z").unwrap();
    assert_eq!(path.items.len(), 4);
    assert_eq!(
        path.items[0],
        SvgItem { inner: PathSegment::MoveTo { abs: true, x: whole(10), y: whole(-20) } }
    );
    assert_eq!(
        path.items[1],
        SvgItem { inner: PathSegment::LineTo { abs: false, x: num(30_100_000_000), y: num(500_000_000) } }
    );
    assert_eq!(
        path.items[2],
        SvgItem { inner: PathSegment::LineTo { abs: false, x: num(100_000_000), y: whole(-20) } }
    );
    assert_eq!(path.items[3], SvgItem { inner: PathSegment::ClosePath { abs: false } });
    let mut abs = path;
    abs.absolute().unwrap();
    assert_eq!(abs.to_string(), "M10-20L40.1-19.5L40.2-39.5Z");
}

#[test]
fn round_to_whole_numbers() {
    let mut path = SvgPath::parse("M1.234 5.678L2.345 6.789").unwrap();
    path.round(0);
    assert_eq!(path.to_string(), "M1 6L2 7");
}

#[test]
fn round_half_away_from_zero() {
    let mut path = SvgPath::parse("M1.25-1.25L0.5-0.5").unwrap();
    path.round(1);
    assert_eq!(path.to_string(), "M1.3-1.3L0.5-0.5");
    let mut w = SvgPath::parse("M2.5-2.5").unwrap();
    w.round(0);
    assert_eq!(w.to_string(), "M3-3");
}

#[test]
fn replace_invalid_literal_leaves_text() {
    let mut path = SvgPath::parse("M10-20l30.1.5.1-20z").unwrap();
    let before = path.to_string();
    let err = path.try_replace_element_at(1, "L abc").unwrap_err();
    assert!(matches!(err, PathError::ReplaceValidation { .. }));
    assert_eq!(path.to_string(), before);
}

#[test]
fn replace_valid_literal_returns_text() {
    let mut path = SvgPath::parse("M1 2L3 4").unwrap();
    let out = path.try_replace_element_at(1, "L7 8").unwrap();
    assert_eq!(out, "M1 2L7 8");
    assert_eq!(path.to_string(), "M1 2L3 4");
}

#[test]
fn replace_bad_index_is_reported() {
    let mut path = SvgPath::parse("M1 2").unwrap();
    let err = path.try_replace_element_at(5, "L7 8").unwrap_err();
    assert!(matches!(err, PathError::IndexOutOfRange { index: 5, len: 1 }));
}

#[test]
fn toggle_twice_restores_segment() {
    let mut path = SvgPath::parse("M10 10l5 5").unwrap();
    path.toggle_coord_type_at(1).unwrap();
    assert_eq!(path.to_string(), "M10 10L15 15");
    path.toggle_coord_type_at(1).unwrap();
    assert_eq!(path.to_string(), "M10 10l5 5");
}

#[test]
fn toggle_bad_index_is_reported() {
    let mut path = SvgPath::parse("M1 2").unwrap();
    let err = path.toggle_coord_type_at(3).unwrap_err();
    assert!(matches!(err, PathError::IndexOutOfRange { index: 3, len: 1 }));
}

#[test]
fn conversion_is_idempotent() {
    let mut a = SvgPath::parse("M1 2l3 4h5v6z").unwrap();
    a.absolute().unwrap();
    let once = a.to_string();
    a.absolute().unwrap();
    assert_eq!(a.to_string(), once);
    a.relative().unwrap();
    let rel_once = a.to_string();
    a.relative().unwrap();
    assert_eq!(a.to_string(), rel_once);
}

#[test]
fn conversion_round_trip_keeps_endpoints() {
    let text = "M1 2c1 2 3 4 5 6s1 1 2 2q1 0 3 3t2 2a1 2 30 1 0 4 4z";
    let mut a = SvgPath::parse(text).unwrap();
    a.absolute().unwrap();
    let absolute_form = a.to_string();
    let mut b = SvgPath::parse(text).unwrap();
    b.relative().unwrap();
    b.absolute().unwrap();
    assert_eq!(b.to_string(), absolute_form);
}

#[test]
fn translate_and_back_restores() {
    let mut path = SvgPath::parse("M1 2L3 4H5V6C1 2 3 4 5 6Z").unwrap();
    path.absolute().unwrap();
    let before = path.to_string();
    path.translate(whole(7), whole(-9)).unwrap();
    assert_eq!(path.to_string(), "M8-7L10-5H12V-3C8-7 10-5 12-3Z");
    path.translate(whole(-7), whole(9)).unwrap();
    assert_eq!(path.to_string(), before);
}

#[test]
fn translate_leaves_relative_deltas() {
    let mut path = SvgPath::parse("m5 5l1 1").unwrap();
    path.translate(whole(10), whole(10)).unwrap();
    assert_eq!(path.to_string(), "m5 5l1 1");
}

#[test]
fn translate_overflow_is_reported() {
    let mut path = SvgPath::parse("M9000000000 0").unwrap();
    let before = path.to_string();
    let err = path.translate(whole(1), whole(0)).unwrap_err();
    assert!(matches!(err, PathError::OutOfRange));
    assert_eq!(path.to_string(), before);
}

#[test]
fn scale_multiplies_coordinates() {
    let mut path = SvgPath::parse("M2 3L4 5H6V7").unwrap();
    path.scale(whole(2), whole(3)).unwrap();
    assert_eq!(path.to_string(), "M4 9L8 15H12V21");
}

#[test]
fn scale_keeps_radii_positive() {
    let mut path = SvgPath::parse("M0 0A2 3 45 1 0 6 7").unwrap();
    path.scale(whole(-1), whole(1)).unwrap();
    assert_eq!(path.to_string(), "M0 0A2 3 45 1 0-6 7");
}

#[test]
fn rotate_quarter_turn() {
    let mut path = SvgPath::parse("M2 3L1 0").unwrap();
    path.rotate(whole(90), Num::zero(), Num::zero(), whole(1), Num::zero()).unwrap();
    assert_eq!(path.to_string(), "M-3 2L0 1");
}

#[test]
fn rotate_adds_to_arc_axis_and_keeps_axis_lines() {
    let mut path = SvgPath::parse("M0 0H5V6A2 3 45 1 0 6 7").unwrap();
    path.rotate(whole(90), Num::zero(), Num::zero(), whole(1), Num::zero()).unwrap();
    assert_eq!(path.to_string(), "M0 0H5V6A2 3 135 1 0-7 6");
}

#[test]
fn parse_rejects_malformed_text() {
    assert!(matches!(SvgPath::parse("M10 x").unwrap_err(), PathError::Syntax { .. }));
    assert!(matches!(SvgPath::parse("M1 2L5").unwrap_err(), PathError::Syntax { .. }));
    assert!(matches!(SvgPath::parse("M5").unwrap_err(), PathError::Syntax { .. }));
    assert!(matches!(SvgPath::parse("5 5").unwrap_err(), PathError::Syntax { .. }));
    assert!(matches!(SvgPath::parse("M1 2z5").unwrap_err(), PathError::Syntax { .. }));
    assert!(matches!(SvgPath::parse("M1e20 0").unwrap_err(), PathError::Syntax { .. }));
    assert!(matches!(SvgPath::parse("M1e 2 0").unwrap_err(), PathError::Syntax { .. }));
}

#[test]
fn parse_empty_text_is_empty_document() {
    let path = SvgPath::parse("   ").unwrap();
    assert_eq!(path.items.len(), 0);
    assert_eq!(path.to_string(), "");
}

#[test]
fn parse_exponents_and_tiny_fractions() {
    let path = SvgPath::parse("M1e2 0L1.5e-1 0T0.0000000001 0").unwrap();
    assert_eq!(path.to_string(), "M100 0L0.15 0T0 0");
}

#[test]
fn parse_arc_flags_packed() {
    let path = SvgPath::parse("a25,25 0 1,1 50,-25").unwrap();
    assert_eq!(path.to_string(), "a25 25 0 1 1 50-25");
}

#[test]
fn serialization_reparses_to_same_document() {
    let text = "M1.5-2c1 2 3 4 5 6zq1 0 3 3";
    let a = SvgPath::parse(text).unwrap();
    let b = SvgPath::parse(&a.to_string()).unwrap();
    assert_eq!(a, b);
}

#[test]
fn item_letter_and_mode() {
    let path = SvgPath::parse("M1 2l3 4Z").unwrap();
    assert!(path.items[0].is_abs());
    assert!(!path.items[1].is_abs());
    assert_eq!(path.items[0].get_letter(), 'M');
    assert_eq!(path.items[1].get_letter(), 'l');
    assert_eq!(path.items[2].get_letter(), 'Z');
    assert_eq!(path.items[1].value(), "l3 4");
    let mut item = path.items[0].clone();
    item.set_value(SvgItem { inner: PathSegment::ClosePath { abs: false } });
    assert_eq!(item.get_letter(), 'z');
}
