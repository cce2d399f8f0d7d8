//! Placement rectangles in canvas pixel coordinates.

use vstd::prelude::*;

verus! {

/// A placement rectangle: top-left corner `(x, y)` and extent
/// `width x height`, all in canvas pixel coordinates.
#[derive(Clone, Copy, Debug, PartialEq, Eq, Structural)]
pub struct Rect {
    pub x: i32,
    pub y: i32,
    pub width: i32,
    pub height: i32,
}

impl Rect {
    /// All coordinates and extents are non-negative.
    pub open spec fn wf(self) -> bool {
        self.x >= 0 && self.y >= 0 && self.width >= 0 && self.height >= 0
    }

    /// The rectangle as a mathematical `(x, y, width, height)` tuple.
    pub open spec fn model(self) -> (int, int, int, int) {
        (self.x as int, self.y as int, self.width as int, self.height as int)
    }

    /// One past the right edge.
    pub open spec fn right(self) -> int {
        self.x + self.width
    }

    /// One past the bottom edge.
    pub open spec fn bottom(self) -> int {
        self.y + self.height
    }

    /// The rectangle lies inside a canvas of the given extent.
    pub open spec fn within(self, canvas_width: int, canvas_height: int) -> bool {
        0 <= self.x && 0 <= self.y && self.right() <= canvas_width && self.bottom()
            <= canvas_height
    }

    /// The two rectangles share no interior point: they are separated
    /// along the horizontal or the vertical axis.
    pub open spec fn disjoint_from(self, other: Rect) -> bool {
        self.right() <= other.x || other.right() <= self.x || self.bottom() <= other.y
            || other.bottom() <= self.y
    }

    pub fn new(x: i32, y: i32, width: i32, height: i32) -> (r: Rect)
        ensures
            r == (Rect { x, y, width, height }),
    {
        Rect { x, y, width, height }
    }
}

/// The cell tuple `(x, y, width, height)` has non-negative coordinates and
/// extents and lies inside a canvas of extent `canvas_width x canvas_height`.
pub open spec fn cell_within(a: (int, int, int, int), canvas_width: int, canvas_height: int) -> bool {
    0 <= a.0 && 0 <= a.1 && 0 <= a.2 && 0 <= a.3 && a.0 + a.2 <= canvas_width && a.1 + a.3
        <= canvas_height
}

/// The two cell tuples share no interior point.
pub open spec fn cells_disjoint(a: (int, int, int, int), b: (int, int, int, int)) -> bool {
    a.0 + a.2 <= b.0 || b.0 + b.2 <= a.0 || a.1 + a.3 <= b.1 || b.1 + b.3 <= a.1
}

/// The tuple-level predicates carry over to a rectangle with that model.
pub proof fn lemma_cell_model(r: Rect, other: Rect, canvas_width: int, canvas_height: int)
    ensures
        cell_within(r.model(), canvas_width, canvas_height) ==> r.wf() && r.within(
            canvas_width,
            canvas_height,
        ),
        cells_disjoint(r.model(), other.model()) ==> r.disjoint_from(other),
{
}

} // verus!
