use merge_images::waterfall;
use merge_images::waterfall::{image_poses, waterfall_layout};
use merge_images::{MergeAction, MergeError, Rect};

fn rect(x: i32, y: i32, width: i32, height: i32) -> Rect {
    Rect { x, y, width, height }
}

/// A minimal PNG header carrying the given dimensions: enough for a
/// header-only dimension probe, not a decodable image.
fn png_header(width: u32, height: u32) -> Vec<u8> {
    let mut b: Vec<u8> = vec![0x89, 0x50, 0x4E, 0x47, 0x0D, 0x0A, 0x1A, 0x0A];
    b.extend_from_slice(&13u32.to_be_bytes());
    b.extend_from_slice(b"IHDR");
    b.extend_from_slice(&width.to_be_bytes());
    b.extend_from_slice(&height.to_be_bytes());
    b.extend_from_slice(&[8, 6, 0, 0, 0]);
    b.extend_from_slice(&[0, 0, 0, 0]);
    b
}

#[test]
fn test_waterfall_merge_empty() {
    let empty: Vec<Vec<u8>> = vec![];
    assert_eq!(waterfall(&empty).unwrap_err(), MergeError::NoImages);
}

#[test]
fn test_waterfall_merge_single_passthrough() {
    let img = vec![9u8, 9, 9];
    match waterfall(&vec![img.clone()]).unwrap() {
        MergeAction::Passthrough(b) => assert_eq!(b, img),
        MergeAction::Compose { .. } => panic!("single image must pass through"),
    }
}

#[test]
fn test_waterfall_merge_probe_failure() {
    // bytes with no readable image header: the whole call fails
    let imgs = vec![vec![0u8; 32], vec![0u8; 32]];
    assert_eq!(waterfall(&imgs).unwrap_err(), MergeError::LayoutFailed);
}

#[test]
fn test_waterfall_layout_nine_equal() {
    // nine square images, two columns: filled round-robin, shortest first
    let dims = vec![(100u64, 100u64); 9];
    let layout = waterfall_layout(&dims).unwrap();
    assert_eq!(layout.width, 1610);
    assert_eq!(layout.rects.len(), 9);
    for (i, r) in layout.rects.iter().enumerate() {
        let col = (i % 2) as i32;
        let row = (i / 2) as i32;
        assert_eq!(*r, rect(col * 810, row * 810, 800, 800));
    }
    // height is the maximum column bottom: five cells in column 0
    assert_eq!(layout.height, 4 * 810 + 800);
}

#[test]
fn test_waterfall_layout_varied_heights() {
    // a wide image (scaled to 400) then a tall one (scaled to 1600)
    let dims = vec![(200u64, 100u64), (100u64, 200u64)];
    let layout = waterfall_layout(&dims).unwrap();
    assert_eq!(layout.rects, vec![rect(0, 0, 800, 400), rect(810, 0, 800, 1600)]);
    assert_eq!(layout.height, 1600);
}

#[test]
fn test_waterfall_layout_shortest_column_first() {
    // after a tall and a short cell, the next image goes under the short one
    let dims = vec![(100u64, 200u64), (200u64, 100u64), (100u64, 100u64)];
    let layout = waterfall_layout(&dims).unwrap();
    assert_eq!(layout.rects[0], rect(0, 0, 800, 1600));
    assert_eq!(layout.rects[1], rect(810, 0, 800, 400));
    assert_eq!(layout.rects[2], rect(810, 410, 800, 800));
    assert_eq!(layout.height, 1600);
}

#[test]
fn test_waterfall_layout_zero_height() {
    let dims = vec![(100u64, 0u64), (100u64, 0u64)];
    let layout = waterfall_layout(&dims).unwrap();
    assert_eq!(layout.rects, vec![rect(0, 0, 800, 0), rect(810, 0, 800, 0)]);
    assert_eq!(layout.height, 0);
}

#[test]
fn test_waterfall_layout_canvas_too_large() {
    // one image so tall its scaled height leaves the i32 coordinate space
    let dims = vec![(1u64, 3_000_000u64), (100u64, 100u64)];
    assert_eq!(waterfall_layout(&dims).unwrap_err(), MergeError::CanvasTooLarge);
}

#[test]
fn test_waterfall_poses_from_probed_headers() {
    // the probed dimensions drive the scaled heights
    let imgs = vec![png_header(100, 100), png_header(100, 50)];
    let layout = image_poses(&imgs).unwrap();
    assert_eq!(layout.width, 1610);
    assert_eq!(layout.rects, vec![rect(0, 0, 800, 800), rect(810, 0, 800, 400)]);
    assert_eq!(layout.height, 800);
}

#[test]
fn test_waterfall_merge_composes_probed_images() {
    let imgs = vec![
        png_header(400, 100),
        png_header(400, 100),
        png_header(400, 100),
    ];
    match waterfall(&imgs).unwrap() {
        MergeAction::Compose { layout, square } => {
            assert!(!square);
            // each scales to 800 x 200; two columns
            assert_eq!(layout.rects[0], rect(0, 0, 800, 200));
            assert_eq!(layout.rects[1], rect(810, 0, 800, 200));
            assert_eq!(layout.rects[2], rect(0, 210, 800, 200));
            assert_eq!(layout.height, 410);
        }
        MergeAction::Passthrough(_) => panic!("three images must compose"),
    }
}

#[test]
fn test_waterfall_merge_twenty_images() {
    // twenty images: four columns of 400 px cells, filled round-robin
    // since all cells scale to the same height (400 * 250 / 500 = 200)
    let imgs: Vec<Vec<u8>> = (0..20).map(|_| png_header(500, 250)).collect();
    match waterfall(&imgs).unwrap() {
        MergeAction::Compose { layout, square } => {
            assert!(!square);
            assert_eq!(layout.width, 4 * 400 + 30);
            assert_eq!(layout.rects.len(), 20);
            for (i, r) in layout.rects.iter().enumerate() {
                let col = (i % 4) as i32;
                let row = (i / 4) as i32;
                assert_eq!(*r, rect(col * 410, row * 210, 400, 200));
            }
            // five full rows in every column
            assert_eq!(layout.height, 4 * 210 + 200);
        }
        MergeAction::Passthrough(_) => panic!("twenty images must compose"),
    }
}

#[test]
fn test_waterfall_merge_one_bad_probe_fails() {
    let imgs = vec![png_header(100, 100), vec![0u8; 16]];
    assert_eq!(waterfall(&imgs).unwrap_err(), MergeError::LayoutFailed);
}
