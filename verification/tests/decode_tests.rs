use merge_images::decode::{decode_plan, decode_scale, needs_extra_downscale};
use merge_images::fit::fit_roi;
use merge_images::{DecodeAction, Rect, ScaleHint};

/// A minimal PNG header carrying the given dimensions: enough for a
/// header-only dimension probe, not a decodable image.
fn png_header(width: u32, height: u32) -> Vec<u8> {
    let mut b: Vec<u8> = vec![0x89, 0x50, 0x4E, 0x47, 0x0D, 0x0A, 0x1A, 0x0A];
    b.extend_from_slice(&13u32.to_be_bytes());
    b.extend_from_slice(b"IHDR");
    b.extend_from_slice(&width.to_be_bytes());
    b.extend_from_slice(&height.to_be_bytes());
    b.extend_from_slice(&[8, 6, 0, 0, 0]);
    b.extend_from_slice(&[0, 0, 0, 0]);
    b
}

/// A minimal GIF header carrying the given dimensions.
fn gif_header(width: u16, height: u16) -> Vec<u8> {
    let mut b: Vec<u8> = b"GIF89a".to_vec();
    b.extend_from_slice(&width.to_le_bytes());
    b.extend_from_slice(&height.to_le_bytes());
    b.extend_from_slice(&[0, 0, 0]);
    b
}

#[test]
fn test_decode_scale_full() {
    assert_eq!(decode_scale(&png_header(3000, 2000)), ScaleHint::Full);
}

#[test]
fn test_decode_scale_quarter() {
    assert_eq!(decode_scale(&png_header(3001, 100)), ScaleHint::Quarter);
    assert_eq!(decode_scale(&png_header(100, 8000)), ScaleHint::Quarter);
}

#[test]
fn test_decode_scale_eighth() {
    assert_eq!(decode_scale(&png_header(8001, 100)), ScaleHint::Eighth);
    assert_eq!(decode_scale(&png_header(200, 20000)), ScaleHint::Eighth);
}

#[test]
fn test_decode_scale_unprobeable_bytes() {
    // no readable header: decode at full resolution, no hint available
    assert_eq!(decode_scale(&vec![5u8; 64]), ScaleHint::Full);
}

#[test]
fn test_decode_plan_animated() {
    assert_eq!(decode_plan(&gif_header(32, 32)), DecodeAction::FirstFrame);
}

#[test]
fn test_decode_plan_still() {
    assert_eq!(
        decode_plan(&png_header(9000, 100)),
        DecodeAction::Still(ScaleHint::Eighth)
    );
    assert_eq!(
        decode_plan(&png_header(100, 100)),
        DecodeAction::Still(ScaleHint::Full)
    );
}

#[test]
fn test_needs_extra_downscale() {
    assert!(needs_extra_downscale(8001, 100));
    assert!(needs_extra_downscale(100, 8001));
    assert!(!needs_extra_downscale(8000, 8000));
}

#[test]
fn test_fit_roi_square_wide() {
    // wider than tall: full height, horizontally centered
    let r = fit_roi(300, 200, true);
    assert_eq!(r, Rect { x: 50, y: 0, width: 200, height: 200 });
}

#[test]
fn test_fit_roi_square_tall() {
    let r = fit_roi(200, 300, true);
    assert_eq!(r, Rect { x: 0, y: 50, width: 200, height: 200 });
}

#[test]
fn test_fit_roi_square_already_square() {
    let r = fit_roi(256, 256, true);
    assert_eq!(r, Rect { x: 0, y: 0, width: 256, height: 256 });
}

#[test]
fn test_fit_roi_full_frame() {
    let r = fit_roi(300, 200, false);
    assert_eq!(r, Rect { x: 0, y: 0, width: 300, height: 200 });
}
