//! Content classification shared with the preprocessing step.
//!
//! The analysis itself (sampling decoded frames and measuring change
//! between them) lives with the decoding front end; the pipeline only needs
//! the resulting class.

use vstd::prelude::*;

verus! {

/// How a video's content was classified.
#[derive(Clone, Copy, PartialEq, Eq, Structural, Debug)]
pub enum ContentType {
    /// Flat, two-color animation: little change between frames.
    TwoDimensional,
    /// Photographic live action: most pixels change between frames.
    ThreeDimensional,
}

} // verus!
