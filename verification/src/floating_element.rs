//! Where a floating element sits on the content it overlays.
use vstd::prelude::*;

verus! {

/// The corner or edge of the content the floating anchor is placed at.
#[derive(Debug, Clone, Copy, PartialEq, Eq, Structural)]
pub enum AnchorPosition {
    TopRight,
    BottomRight,
    BottomCenter,
}

impl Default for AnchorPosition {
    /// The top-right corner.
    fn default() -> (r: Self)
        ensures
            r == AnchorPosition::TopRight,
    {
        AnchorPosition::TopRight
    }
}

} // verus!
