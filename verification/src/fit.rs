//! The fit policy: how one decoded image maps onto its cell.
//!
//! In square mode (grid layouts) the source is first cropped to its centered
//! maximal square and the square is then resized to the cell. Otherwise
//! (waterfall) the full frame is resized directly; the cell's height already
//! reflects the image's own aspect ratio, so that resize is a near-identity
//! scale.

use vstd::prelude::*;
use crate::rect::Rect;

verus! {

/// The centered maximal square of a `width x height` frame: full height and
/// horizontally centered when the frame is wider than tall, the symmetric
/// cut otherwise, the whole frame when it is already square.
pub open spec fn crop_region(width: int, height: int) -> (int, int, int, int) {
    if height <= width {
        ((width - height) / 2, 0, height, height)
    } else {
        (0, (height - width) / 2, width, width)
    }
}

/// The source region a decoded `width x height` image contributes to its
/// cell: its centered maximal square when `square` is set, the full frame
/// otherwise.
pub fn fit_roi(width: i32, height: i32, square: bool) -> (r: Rect)
    requires
        0 <= width,
        0 <= height,
    ensures
        square ==> r.model() == crop_region(width as int, height as int),
        !square ==> r == (Rect { x: 0, y: 0, width, height }),
        r.wf(),
        r.within(width as int, height as int),
        square ==> r.width == r.height,
{
    if square {
        if height <= width {
            let x = (width - height) / 2;
            Rect { x, y: 0, width: height, height }
        } else {
            let y = (height - width) / 2;
            Rect { x: 0, y, width, height: width }
        }
    } else {
        Rect { x: 0, y: 0, width, height }
    }
}

} // verus!
