use merge_images::grid::{batch_image_poses, image_poses, GRID_MAX_IMAGES};
use merge_images::merge;
use merge_images::{MergeAction, MergeError, Rect};

fn rect(x: i32, y: i32, width: i32, height: i32) -> Rect {
    Rect { x, y, width, height }
}

#[test]
fn test_merge_0() {
    let empty: Vec<Vec<u8>> = vec![];
    assert!(merge(&empty).is_err());
    assert_eq!(merge(&empty).unwrap_err(), MergeError::NoImages);
}

#[test]
fn test_merge_single_passthrough() {
    // even bytes that are no decodable image pass through untouched
    let img = vec![1u8, 2, 3, 255, 0, 42];
    let r = merge(&vec![img.clone()]).unwrap();
    match r {
        MergeAction::Passthrough(b) => assert_eq!(b, img),
        MergeAction::Compose { .. } => panic!("single image must pass through"),
    }
}

#[test]
fn test_grid_poses_1() {
    let ((w, h), poses) = image_poses(1);
    assert_eq!((w, h), (1800, 1800));
    assert_eq!(poses, vec![rect(0, 0, 1800, 1800)]);
}

#[test]
fn test_grid_poses_2() {
    let ((w, h), poses) = image_poses(2);
    assert_eq!((w, h), (1810, 900));
    assert_eq!(poses, vec![rect(0, 0, 900, 900), rect(910, 0, 900, 900)]);
}

#[test]
fn test_grid_poses_3() {
    let ((w, h), poses) = image_poses(3);
    assert_eq!((w, h), (1810, 2710));
    assert_eq!(
        poses,
        vec![
            rect(0, 0, 1800, 1800),
            rect(0, 1810, 900, 900),
            rect(910, 1810, 900, 900),
        ]
    );
}

#[test]
fn test_grid_poses_4() {
    let ((w, h), poses) = image_poses(4);
    assert_eq!((w, h), (1810, 1810));
    assert_eq!(
        poses,
        vec![
            rect(0, 0, 900, 900),
            rect(0, 910, 900, 900),
            rect(910, 0, 900, 900),
            rect(910, 910, 900, 900),
        ]
    );
}

#[test]
fn test_grid_poses_5() {
    let ((w, h), poses) = image_poses(5);
    assert_eq!((w, h), (1820, 1510));
    assert_eq!(
        poses,
        vec![
            rect(0, 0, 900, 900),
            rect(910, 0, 900, 900),
            rect(0, 910, 600, 600),
            rect(610, 910, 600, 600),
            rect(1220, 910, 600, 600),
        ]
    );
}

#[test]
fn test_grid_poses_6() {
    let ((w, h), poses) = image_poses(6);
    assert_eq!((w, h), (1820, 1210));
    assert_eq!(
        poses,
        vec![
            rect(0, 0, 600, 600),
            rect(610, 0, 600, 600),
            rect(1220, 0, 600, 600),
            rect(0, 610, 600, 600),
            rect(610, 610, 600, 600),
            rect(1220, 610, 600, 600),
        ]
    );
}

#[test]
fn test_grid_poses_7() {
    let ((w, h), poses) = image_poses(7);
    assert_eq!((w, h), (1820, 2420));
    assert_eq!(
        poses,
        vec![
            rect(0, 0, 900, 900),
            rect(910, 0, 900, 900),
            rect(0, 910, 900, 900),
            rect(910, 910, 900, 900),
            rect(0, 1820, 600, 600),
            rect(610, 1820, 600, 600),
            rect(1220, 1820, 600, 600),
        ]
    );
}

#[test]
fn test_grid_poses_8() {
    let ((w, h), poses) = image_poses(8);
    assert_eq!((w, h), (1820, 2120));
    assert_eq!(
        poses,
        vec![
            rect(0, 0, 900, 900),
            rect(910, 0, 900, 900),
            rect(0, 910, 600, 600),
            rect(610, 910, 600, 600),
            rect(1220, 910, 600, 600),
            rect(0, 1520, 600, 600),
            rect(610, 1520, 600, 600),
            rect(1220, 1520, 600, 600),
        ]
    );
}

#[test]
fn test_grid_poses_9() {
    let ((w, h), poses) = image_poses(9);
    assert_eq!((w, h), (1820, 1820));
    let xs = [0, 610, 1220];
    for (i, r) in poses.iter().enumerate() {
        assert_eq!(*r, rect(xs[i % 3], xs[i / 3], 600, 600));
    }
    assert_eq!(poses.len(), 9);
}

#[test]
fn test_grid_poses_10() {
    // above nine: uniform grid, 4 columns of 500 px cells
    let ((w, h), poses) = image_poses(10);
    assert_eq!((w, h), (2030, 1520));
    assert_eq!(poses.len(), 10);
    assert_eq!(poses[0], rect(0, 0, 500, 500));
    assert_eq!(poses[3], rect(1530, 0, 500, 500));
    assert_eq!(poses[4], rect(0, 510, 500, 500));
    assert_eq!(poses[9], rect(510, 1020, 500, 500));
}

#[test]
fn test_grid_poses_16() {
    let ((w, h), poses) = image_poses(16);
    assert_eq!((w, h), (2030, 2030));
    assert_eq!(poses.len(), 16);
    assert_eq!(poses[15], rect(1530, 1530, 500, 500));
}

#[test]
fn test_batch_poses_match_uniform_formula() {
    for &n in &[10usize, 17, 26, 37, 50, 65, 82, 100] {
        let (columns, cell) = match n {
            0..=9 => (3, 800),
            10..=16 => (4, 500),
            17..=25 => (5, 400),
            26..=36 => (6, 350),
            37..=49 => (7, 300),
            50..=64 => (8, 300),
            65..=81 => (9, 300),
            _ => (10, 240),
        };
        let rows = (n as i32 + columns - 1) / columns;
        let ((w, h), poses) = batch_image_poses(n);
        assert_eq!(w, columns * cell + 10 * (columns - 1));
        assert_eq!(h, rows * cell + 10 * (rows - 1));
        assert_eq!(poses.len(), n);
        for (i, r) in poses.iter().enumerate() {
            let i = i as i32;
            assert_eq!(r.x, (i % columns) * (cell + 10));
            assert_eq!(r.y, (i / columns) * (cell + 10));
            assert_eq!((r.width, r.height), (cell, cell));
        }
    }
}

#[test]
fn test_grid_rects_disjoint_and_contained() {
    // runtime cross-check of the verified geometry: no overlap, all inside
    for n in 1..=40usize {
        let ((w, h), poses) = image_poses(n);
        assert_eq!(poses.len(), n);
        for (i, a) in poses.iter().enumerate() {
            assert!(a.x >= 0 && a.y >= 0 && a.width > 0 && a.height > 0);
            assert!(a.x + a.width <= w && a.y + a.height <= h);
            for b in poses.iter().skip(i + 1) {
                let apart = a.x + a.width <= b.x
                    || b.x + b.width <= a.x
                    || a.y + a.height <= b.y
                    || b.y + b.height <= a.y;
                assert!(apart, "cells overlap for n = {}", n);
            }
        }
    }
}

#[test]
fn test_merge_grid_plan() {
    let imgs = vec![vec![0u8; 4], vec![1u8; 4], vec![2u8; 4]];
    match merge(&imgs).unwrap() {
        MergeAction::Compose { layout, square } => {
            assert!(square);
            assert_eq!((layout.width, layout.height), (1810, 2710));
            assert_eq!(layout.rects.len(), 3);
            assert_eq!(layout.rects[0], rect(0, 0, 1800, 1800));
        }
        MergeAction::Passthrough(_) => panic!("three images must compose"),
    }
}

#[test]
fn test_merge_grid_plan_18() {
    // eighteen images: uniform grid, 5 columns of 400 px cells, 4 rows
    let imgs: Vec<Vec<u8>> = (0..18u8).map(|i| vec![i; 8]).collect();
    match merge(&imgs).unwrap() {
        MergeAction::Compose { layout, square } => {
            assert!(square);
            assert_eq!((layout.width, layout.height), (2040, 1630));
            assert_eq!(layout.rects.len(), 18);
            assert_eq!(layout.rects[17], rect(820, 1230, 400, 400));
        }
        MergeAction::Passthrough(_) => panic!("eighteen images must compose"),
    }
}

#[test]
fn test_grid_max_images_bound() {
    // the densest uniform grid step: height 250 * ceil(n / 10) - 10 just
    // fits the i32 coordinate space at the bound
    let rows = (GRID_MAX_IMAGES + 9) / 10;
    assert!(250 * rows as i64 - 10 <= i32::MAX as i64);
    assert!(250 * (rows as i64 + 1) - 10 > i32::MAX as i64);
}
