//! Compose a set of images into a single thumbnail collage.
//!
//! Two layout engines are provided: a grid layout with hand-tuned templates
//! for small counts and a uniform grid above nine images, and a waterfall
//! layout that balances columns greedily by each image's aspect ratio.
//! The layout engines, the per-image fit policy and the defensive decode
//! decisions are verified; the pixel work (decode, resize, paste, encode)
//! is done by the embedding application with the plans computed here.

use vstd::prelude::*;

pub mod rect;
pub mod plan;
pub mod grid;
pub mod waterfall;
pub mod fit;
pub mod decode;

pub use rect::Rect;
pub use plan::{Layout, MergeAction, MergeError};
pub use decode::{ScaleHint, DecodeAction};
pub use grid::merge;
pub use waterfall::merge as waterfall;

verus! {

/// Gap, in pixels, left between adjacent cells along each axis.
/// Both layout engines share this value so their geometry matches.
pub const PAD: i32 = 10;

} // verus!
