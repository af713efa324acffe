//! The ways in which the pipeline can fail.

use vstd::prelude::*;

verus! {

/// Why a line drawing, a sweep or a contact sheet could not be made.
#[derive(Clone, Copy, Debug, PartialEq, Eq, Structural)]
pub enum LineartError {
    /// The source path has no file name from which to name the output
    /// directory.
    MissingStem,
    /// The two gradient buffers of the edge field differ in length.
    GradientMismatch { horizontal: usize, vertical: usize },
    /// A blur radius of the sweep is negative or does not fit in an `i32`.
    InvalidBlurRadius,
    /// A darken level of the sweep does not fit in a `u8`.
    InvalidDarkenLevel,
    /// The image to draw from is narrower or lower than two pixels.
    ImageTooSmall,
    /// The image to draw from has more bytes than a `u32` can count, or
    /// cannot be resized within the memory that a vector can hold.
    ImageTooLarge,
    /// There are not as many cells as the sweep has variants, or the sweep
    /// has none.
    MissingCell,
    /// The contact sheet's sides do not fit in a `u32`, or it has more
    /// bytes than a vector can hold.
    SheetTooLarge,
}

} // verus!
