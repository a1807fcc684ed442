use vstd::prelude::*;

verus! {

/// Errors of the scene-graph core.
///
/// `NothingToRender` is per-entry and isolated: a drawable without content
/// is skipped and the frame continues. `Decode` is an asset error returned
/// to the caller; it never touches the render loop.
#[derive(Clone, Copy, Debug, PartialEq, Eq, Structural)]
pub enum Error {
    /// A drawable had no content to draw; its entry is skipped.
    NothingToRender,
    /// A byte buffer was not a supported image container or was corrupt.
    Decode,
}

} // verus!
