//! What can be wrong with the text of a scene.

use vstd::prelude::*;

verus! {

/// Why a scene could not be taken from its text.
#[derive(Clone, Copy, Debug, PartialEq, Eq, Structural)]
pub enum Error {
    /// No line was given, so there is no half-line.
    NoHalfLine,
    /// A line holds fewer than two points.
    MissingPoint,
    /// A point holds fewer than two coordinates.
    MissingCoordinate,
    /// A coordinate is not a number.
    InvalidNumber,
}

} // verus!
