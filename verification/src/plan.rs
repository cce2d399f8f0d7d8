//! The values a merge call hands to the embedding application.

use vstd::prelude::*;
use crate::rect::Rect;

verus! {

/// A computed layout: the canvas extent and one placement rectangle per
/// input image, in input order.
#[derive(Debug)]
pub struct Layout {
    pub width: i32,
    pub height: i32,
    pub rects: Vec<Rect>,
}

impl Layout {
    /// Every placement has non-negative coordinates and extents and lies
    /// inside the canvas.
    pub open spec fn wf(self) -> bool {
        &&& 0 <= self.width
        &&& 0 <= self.height
        &&& forall|i: int|
            0 <= i < self.rects@.len() ==> (#[trigger] self.rects@[i]).wf() && self.rects@[i].within(
                self.width as int,
                self.height as int,
            )
    }
}

/// What a merge call decided: either the single input passes through
/// unchanged, or the application composes the inputs onto a canvas.
#[derive(Debug)]
pub enum MergeAction {
    /// Exactly one image was given: its original bytes are the result,
    /// byte for byte, with no decode or re-encode.
    Passthrough(Vec<u8>),
    /// Two or more images: allocate a white canvas of the layout's extent,
    /// then for each input decode, fit (cropping to a centered square first
    /// when `square` is true) and paste at the matching rectangle.
    Compose { layout: Layout, square: bool },
}

/// An exact copy of the given bytes.
pub(crate) fn copy_bytes(src: &Vec<u8>) -> (r: Vec<u8>)
    ensures
        r@ == src@,
{
    let mut out: Vec<u8> = Vec::new();
    let mut i: usize = 0;
    while i < src.len()
        invariant
            i <= src.len(),
            out@ == src@.take(i as int),
        decreases src.len() - i,
    {
        out.push(src[i]);
        proof {
            assert(src@.take(i as int).push(src@[i as int]) =~= src@.take(i as int + 1));
        }
        i = i + 1;
    }
    proof {
        assert(src@.take(src@.len() as int) =~= src@);
    }
    out
}

/// Why a merge call returned no plan.
#[derive(Clone, Copy, Debug, PartialEq, Eq, Structural)]
pub enum MergeError {
    /// The input sequence was empty.
    NoImages,
    /// Waterfall only: dimension probing failed for some input image,
    /// or an image reported a zero width.
    LayoutFailed,
    /// The computed canvas would not fit the raster coordinate space.
    CanvasTooLarge,
}

} // verus!
