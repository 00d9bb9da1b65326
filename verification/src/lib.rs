//! Where does a half-line first strike a set of line segments?
//!
//! The library holds the decisions of that question: how two double-precision
//! numbers compare, whether a point lies in the span of a segment or ahead of
//! a half-line's origin, which of several hits is the closest and which
//! segment is reported for it, and how a line of text is cut into the texts
//! of four numbers. Arithmetic on doubles is left to the caller, who hands in
//! its results as bit patterns.
//!
//! - [`number`]: doubles by their bits, and their order.
//! - [`geometry`]: points, lines, and the tests on them.
//! - [`selection`]: from the lines of a scene to the segment that is struck.
//! - [`text`], [`numeral`], [`input`]: reading and writing lines of text.
//! - [`error`]: what can be wrong with the text of a scene.

pub mod error;
pub mod geometry;
pub mod input;
pub mod number;
pub mod numeral;
pub mod selection;
pub mod text;
