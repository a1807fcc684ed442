use vstd::prelude::*;

verus! {

/// A screen-space rectangle: position of the top-left corner plus extent.
#[derive(Clone, Copy, Debug, PartialEq, Eq, Structural)]
pub struct Rect {
    /// Horizontal position of the left edge.
    pub x: i32,
    /// Vertical position of the top edge.
    pub y: i32,
    /// Width in pixels.
    pub width: u32,
    /// Height in pixels.
    pub height: u32,
}

} // verus!
