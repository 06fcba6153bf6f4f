//! The rectangle of the screen in which the game is played.

use vstd::prelude::*;
use crate::units::MAX_EXTENT;

verus! {

/// Extents of the visible playfield. Its top-left corner is the origin.
#[derive(Clone, Copy, Debug, PartialEq, Eq)]
pub struct Viewport {
    pub width: i64,
    pub height: i64,
}

impl Viewport {
    /// Both extents are non-negative and within `MAX_EXTENT`.
    pub open spec fn wf(self) -> bool {
        &&& 0 <= self.width <= MAX_EXTENT
        &&& 0 <= self.height <= MAX_EXTENT
    }

    /// Whether the point `(x, y)` lies in the viewport, borders included.
    pub open spec fn contains(self, x: int, y: int) -> bool {
        &&& 0 <= x <= self.width
        &&& 0 <= y <= self.height
    }

    /// Horizontal position of the centre.
    pub open spec fn center_x(self) -> int {
        self.width / 2
    }

    /// Vertical position of the centre.
    pub open spec fn center_y(self) -> int {
        self.height / 2
    }

    /// Builds a viewport, or nothing where an extent is negative or too large.
    pub fn new(width: i64, height: i64) -> (made: Option<Viewport>)
        ensures
            made == if (Viewport { width, height }).wf() {
                Some(Viewport { width, height })
            } else {
                None
            },
    {
        let candidate = Viewport { width, height };
        if candidate.is_wf() {
            Some(candidate)
        } else {
            None
        }
    }

    /// Tests whether the viewport is well formed.
    pub fn is_wf(&self) -> (ok: bool)
        ensures
            ok == self.wf(),
    {
        0 <= self.width && self.width <= MAX_EXTENT && 0 <= self.height && self.height
            <= MAX_EXTENT
    }
}

} // verus!
