//! A verified model of the SVG path mini-language: parsing path data into
//! typed segments, tracking the implicit position state, converting between
//! absolute and relative coordinates, applying geometric transforms, and
//! editing single segments in place.
//!
//! Coordinates are decimal fixed-point numbers ([`num::Num`]) so that every
//! operation has an exact arithmetic meaning that the contracts can state.

pub mod convert;
pub mod edit;
pub mod error;
pub mod num;
pub mod parse;
pub mod props;
pub mod render;
pub mod roundtrip;
pub mod seg;
pub mod settings;
pub mod shapes;
pub mod track;
pub mod transform;

pub use error::PathError;
pub use settings::Settings;
pub use shapes::circle_to_path;
pub use shapes::ellipse_to_path;
pub use shapes::line_to_path;
pub use shapes::polygon_to_path;
pub use shapes::polyline_to_path;
pub use shapes::rect_to_path;
pub use num::Num;
pub use seg::PathSegment;
pub use seg::SvgItem;
pub use seg::SvgPath;
