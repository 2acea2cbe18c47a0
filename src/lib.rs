//! Transcodes a glyph outline into SVG path data and document sizing
//! attributes, with every coordinate held as an exact fixed-point value.
pub mod convert;
pub mod geometry;
pub mod laws;
pub mod pen;
pub mod precision;
