//! Frame extraction entry point.
//!
//! Pre-extracting frames to a file is handled by external tooling; the
//! real-time decoding path plays sources directly. The command is kept so
//! callers get a stable error instead of a missing subcommand.

use vstd::prelude::*;

verus! {

/// Why frame extraction was refused.
#[derive(Clone, Copy, PartialEq, Eq, Structural, Debug)]
pub enum ExtractError {
    /// Extraction is not implemented here; use the external tooling or
    /// real-time playback.
    Unsupported,
}

/// Always refuses: extraction is delegated to external tooling.
pub fn extract_frames(width: u32, height: u32, fps: u32) -> (r: Result<(), ExtractError>)
    ensures
        r == Err::<(), ExtractError>(ExtractError::Unsupported),
{
    let _ = width;
    let _ = height;
    let _ = fps;
    Err(ExtractError::Unsupported)
}

} // verus!
