//! The safe-decoder decisions.
//!
//! Decoding a hostile image at full resolution can allocate an enormous
//! raster. Before decoding, the image header is probed for its declared
//! dimensions and an oversized image is decoded at a reduced scale; after
//! decoding, a still-oversized raster gets one more explicit downscale.
//! Animated containers are read frame-wise instead of through the still
//! decode path. The decisions live here; the embedding application performs
//! the decodes they call for.

use vstd::prelude::*;

verus! {

/// Declared dimensions above this call for a 1/8-scale decode.
pub const OVERSIZE_EIGHTH: u64 = 8000;

/// Declared dimensions above this (and not above `OVERSIZE_EIGHTH`) call
/// for a 1/4-scale decode.
pub const OVERSIZE_QUARTER: u64 = 3000;

/// What the dimension probe reads from an image header: the declared
/// `(width, height)` in pixels, or `None` when no dimensions can be read.
pub uninterp spec fn probe_of(bytes: Seq<u8>) -> Option<(u64, u64)>;

/// Whether the bytes are an animated container format (a GIF).
pub uninterp spec fn animated_of(bytes: Seq<u8>) -> bool;

/// Relies on `imagesize::blob_size`: reads the declared pixel dimensions
/// from the image header without decoding pixel data; the result depends on
/// the bytes alone.
#[verifier::external_body]
pub(crate) fn probe_dimensions(bytes: &[u8]) -> (r: Option<(u64, u64)>)
    ensures
        r == probe_of(bytes@),
{
    match imagesize::blob_size(bytes) {
        Ok(size) => Some((size.width as u64, size.height as u64)),
        Err(_) => None,
    }
}

/// Relies on `imagesize::image_type`: the detected container format depends
/// on the bytes alone; `true` exactly when it is the animated one (GIF).
#[verifier::external_body]
fn sniff_animated(bytes: &[u8]) -> (r: bool)
    ensures
        r == animated_of(bytes@),
{
    matches!(imagesize::image_type(bytes), Ok(imagesize::ImageType::Gif))
}

/// The scale at which an image should be decoded.
#[derive(Clone, Copy, Debug, PartialEq, Eq, Structural)]
pub enum ScaleHint {
    /// Decode at full resolution.
    Full,
    /// Decode at one quarter of the declared size.
    Quarter,
    /// Decode at one eighth of the declared size.
    Eighth,
}

/// The decode scale called for by a probe result: 1/8 when the larger
/// declared side exceeds `OVERSIZE_EIGHTH`, 1/4 when it exceeds
/// `OVERSIZE_QUARTER`, full resolution otherwise or when the probe failed.
pub open spec fn scale_for(dims: Option<(u64, u64)>) -> ScaleHint {
    match dims {
        Option::None => ScaleHint::Full,
        Option::Some(d) => {
            let side = if d.0 >= d.1 {
                d.0
            } else {
                d.1
            };
            if side > OVERSIZE_EIGHTH {
                ScaleHint::Eighth
            } else if side > OVERSIZE_QUARTER {
                ScaleHint::Quarter
            } else {
                ScaleHint::Full
            }
        },
    }
}

/// Probe the image header and decide the decode scale.
pub fn decode_scale(bytes: &Vec<u8>) -> (r: ScaleHint)
    ensures
        r == scale_for(probe_of(bytes@)),
{
    match probe_dimensions(bytes.as_slice()) {
        None => ScaleHint::Full,
        Some((w, h)) => {
            let side = if w >= h {
                w
            } else {
                h
            };
            if side > OVERSIZE_EIGHTH {
                ScaleHint::Eighth
            } else if side > OVERSIZE_QUARTER {
                ScaleHint::Quarter
            } else {
                ScaleHint::Full
            }
        },
    }
}

/// How an input's bytes should be turned into a raster.
#[derive(Clone, Copy, Debug, PartialEq, Eq, Structural)]
pub enum DecodeAction {
    /// An animated container: read one representative frame through a
    /// frame-sequential reader instead of the still decode path.
    FirstFrame,
    /// A still image: decode at the given scale.
    Still(ScaleHint),
}

/// The decode path for given sniff and probe results.
pub open spec fn plan_for(animated: bool, dims: Option<(u64, u64)>) -> DecodeAction {
    if animated {
        DecodeAction::FirstFrame
    } else {
        DecodeAction::Still(scale_for(dims))
    }
}

/// Sniff the container format and probe the header, and decide how the
/// image is to be decoded.
pub fn decode_plan(bytes: &Vec<u8>) -> (r: DecodeAction)
    ensures
        r == plan_for(animated_of(bytes@), probe_of(bytes@)),
{
    if sniff_animated(bytes.as_slice()) {
        DecodeAction::FirstFrame
    } else {
        DecodeAction::Still(decode_scale(bytes))
    }
}

/// Whether a raster that was already decoded (at `width x height` pixels)
/// still exceeds the safe bound and needs one more explicit 1/8 downscale.
/// The probe and the decoder scale independently, so a scale hint may have
/// been unavailable or insufficient; this is the safety net behind it.
pub fn needs_extra_downscale(width: i32, height: i32) -> (r: bool)
    requires
        0 <= width,
        0 <= height,
    ensures
        r <==> (width > OVERSIZE_EIGHTH || height > OVERSIZE_EIGHTH),
{
    (width as u64) > OVERSIZE_EIGHTH || (height as u64) > OVERSIZE_EIGHTH
}

} // verus!
