//! The grid layout engine.
//!
//! For one to nine images the layout is a fixed hand-tuned template; above
//! nine it is a uniform grid whose column count and cell size step down as
//! the count grows. Geometry is exact by contract: visual regression depends
//! on the literal coordinates, not merely on a similar arrangement.

use vstd::prelude::*;
use vstd::arithmetic::div_mod::*;
use crate::rect::{cell_within, cells_disjoint, lemma_cell_model, Rect};
use crate::plan::{copy_bytes, Layout, MergeAction, MergeError};
use crate::PAD;

verus! {

/// Largest image count the grid engine accepts: at the densest step of the
/// uniform grid (10 columns of 240 px cells) the canvas height is
/// `250 * ceil(n / 10) - 10` pixels, and this is the largest `n` for which
/// that still fits in the `i32` coordinate space.
pub const GRID_MAX_IMAGES: usize = 85_899_340;

/// Column count of the uniform grid for `n` images.
pub open spec fn batch_columns(n: int) -> int {
    if n <= 9 {
        3
    } else if n <= 16 {
        4
    } else if n <= 25 {
        5
    } else if n <= 36 {
        6
    } else if n <= 49 {
        7
    } else if n <= 64 {
        8
    } else if n <= 81 {
        9
    } else {
        10
    }
}

/// Cell size of the uniform grid for `n` images.
pub open spec fn batch_cell_size(n: int) -> int {
    if n <= 9 {
        800
    } else if n <= 16 {
        500
    } else if n <= 25 {
        400
    } else if n <= 36 {
        350
    } else if n <= 81 {
        300
    } else {
        240
    }
}

/// Row count of the uniform grid: `ceil(n / columns)`.
pub open spec fn batch_rows(n: int) -> int {
    (n + batch_columns(n) - 1) / batch_columns(n)
}

/// Cell `i` of the uniform grid for `n` images: column `i mod columns`,
/// row `i div columns`, one cell size square.
pub open spec fn batch_cell(n: int, i: int) -> (int, int, int, int) {
    let c = batch_columns(n);
    let s = batch_cell_size(n);
    ((i % c) * (s + PAD), (i / c) * (s + PAD), s, s)
}

/// Canvas extent of the uniform grid: cells plus the gaps between them.
pub open spec fn batch_canvas(n: int) -> (int, int) {
    let c = batch_columns(n);
    let s = batch_cell_size(n);
    let rows = batch_rows(n);
    (c * s + PAD * (c - 1), rows * s + PAD * (rows - 1))
}

/// Canvas extent of the grid layout for `n` images: hand-tuned for one to
/// nine, the uniform grid above.
pub open spec fn grid_canvas(n: int) -> (int, int) {
    if n == 1 {
        (1800, 1800)
    } else if n == 2 {
        (1800 + PAD, 900)
    } else if n == 3 {
        (1800 + PAD, 2700 + PAD)
    } else if n == 4 {
        (1800 + PAD, 1800 + PAD)
    } else if n == 5 {
        (1800 + 2 * PAD, 1500 + PAD)
    } else if n == 6 {
        (1800 + 2 * PAD, 1200 + PAD)
    } else if n == 7 {
        (1800 + 2 * PAD, 2400 + 2 * PAD)
    } else if n == 8 {
        (1800 + 2 * PAD, 2100 + 2 * PAD)
    } else if n == 9 {
        (1800 + 2 * PAD, 1800 + 2 * PAD)
    } else {
        batch_canvas(n)
    }
}

/// Cell `i` of the grid layout for `n` images, as an
/// `(x, y, width, height)` tuple. These are the literal template
/// coordinates for one to nine images, the uniform grid formula above.
pub open spec fn grid_cell(n: int, i: int) -> (int, int, int, int)
    recommends
        1 <= n,
        0 <= i < n,
{
    if n == 1 {
        (0, 0, 1800, 1800)
    } else if n == 2 {
        if i == 0 {
            (0, 0, 900, 900)
        } else {
            (900 + PAD, 0, 900, 900)
        }
    } else if n == 3 {
        // one wide cell on top, two below
        if i == 0 {
            (0, 0, 1800, 1800)
        } else if i == 1 {
            (0, 1800 + PAD, 900, 900)
        } else {
            (900 + PAD, 1800 + PAD, 900, 900)
        }
    } else if n == 4 {
        // 2 x 2
        if i == 0 {
            (0, 0, 900, 900)
        } else if i == 1 {
            (0, 900 + PAD, 900, 900)
        } else if i == 2 {
            (900 + PAD, 0, 900, 900)
        } else {
            (900 + PAD, 900 + PAD, 900, 900)
        }
    } else if n == 5 {
        // two large on top, three small below
        if i == 0 {
            (0, 0, 900, 900)
        } else if i == 1 {
            (900 + PAD, 0, 900, 900)
        } else if i == 2 {
            (0, 900 + PAD, 600, 600)
        } else if i == 3 {
            (600 + PAD, 900 + PAD, 600, 600)
        } else {
            (1200 + 2 * PAD, 900 + PAD, 600, 600)
        }
    } else if n == 6 {
        // 3 x 2
        if i == 0 {
            (0, 0, 600, 600)
        } else if i == 1 {
            (600 + PAD, 0, 600, 600)
        } else if i == 2 {
            (1200 + 2 * PAD, 0, 600, 600)
        } else if i == 3 {
            (0, 600 + PAD, 600, 600)
        } else if i == 4 {
            (600 + PAD, 600 + PAD, 600, 600)
        } else {
            (1200 + 2 * PAD, 600 + PAD, 600, 600)
        }
    } else if n == 7 {
        // 2 + 2 + 3
        if i == 0 {
            (0, 0, 900, 900)
        } else if i == 1 {
            (900 + PAD, 0, 900, 900)
        } else if i == 2 {
            (0, 900 + PAD, 900, 900)
        } else if i == 3 {
            (900 + PAD, 900 + PAD, 900, 900)
        } else if i == 4 {
            (0, 1800 + 2 * PAD, 600, 600)
        } else if i == 5 {
            (600 + PAD, 1800 + 2 * PAD, 600, 600)
        } else {
            (1200 + 2 * PAD, 1800 + 2 * PAD, 600, 600)
        }
    } else if n == 8 {
        // 2 + 3 + 3
        if i == 0 {
            (0, 0, 900, 900)
        } else if i == 1 {
            (900 + PAD, 0, 900, 900)
        } else if i == 2 {
            (0, 900 + PAD, 600, 600)
        } else if i == 3 {
            (600 + PAD, 900 + PAD, 600, 600)
        } else if i == 4 {
            (1200 + 2 * PAD, 900 + PAD, 600, 600)
        } else if i == 5 {
            (0, 1500 + 2 * PAD, 600, 600)
        } else if i == 6 {
            (600 + PAD, 1500 + 2 * PAD, 600, 600)
        } else {
            (1200 + 2 * PAD, 1500 + 2 * PAD, 600, 600)
        }
    } else if n == 9 {
        // 3 x 3
        if i == 0 {
            (0, 0, 600, 600)
        } else if i == 1 {
            (600 + PAD, 0, 600, 600)
        } else if i == 2 {
            (1200 + 2 * PAD, 0, 600, 600)
        } else if i == 3 {
            (0, 600 + PAD, 600, 600)
        } else if i == 4 {
            (600 + PAD, 600 + PAD, 600, 600)
        } else if i == 5 {
            (1200 + 2 * PAD, 600 + PAD, 600, 600)
        } else if i == 6 {
            (0, 1200 + 2 * PAD, 600, 600)
        } else if i == 7 {
            (600 + PAD, 1200 + 2 * PAD, 600, 600)
        } else {
            (1200 + 2 * PAD, 1200 + 2 * PAD, 600, 600)
        }
    } else {
        batch_cell(n, i)
    }
}

/// Cell positions of the uniform grid used above nine images.
pub fn batch_image_poses(n: usize) -> (r: ((i32, i32), Vec<Rect>))
    requires
        10 <= n,
        n <= GRID_MAX_IMAGES,
    ensures
        r.0.0 == batch_canvas(n as int).0,
        r.0.1 == batch_canvas(n as int).1,
        r.1@.len() == n,
        forall|i: int| 0 <= i < n ==> (#[trigger] r.1@[i]).model() == batch_cell(n as int, i),
{
    let (columns, per_size): (usize, usize) = if n <= 16 {
        (4, 500)
    } else if n <= 25 {
        (5, 400)
    } else if n <= 36 {
        (6, 350)
    } else if n <= 49 {
        (7, 300)
    } else if n <= 64 {
        (8, 300)
    } else if n <= 81 {
        (9, 300)
    } else {
        (10, 240)
    };
    assert(columns == batch_columns(n as int));
    assert(per_size == batch_cell_size(n as int));
    let pad: usize = 10;
    let rows: usize = (n + columns - 1) / columns;
    proof {
        assert(rows == batch_rows(n as int));
        // the grid covers all n cells: n <= rows * columns, and rows >= 1
        lemma_fundamental_div_mod((n + columns - 1) as int, columns as int);
        lemma_mod_bound((n + columns - 1) as int, columns as int);
        assert(columns * rows >= n);
        assert(rows >= 1) by (nonlinear_arith)
            requires
                columns * rows >= n,
                10 <= n,
                0 < columns,
        ;
        assert(columns * per_size <= 5000) by (nonlinear_arith)
            requires
                0 <= columns <= 10,
                0 <= per_size <= 500,
        ;
        // bound the canvas height, by the branch the count falls in
        if n <= 81 {
            // n + columns - 1 <= 90, columns >= 4, so rows <= 22
            lemma_div_is_ordered((n + columns - 1) as int, 90, columns as int);
            lemma_div_is_ordered_by_denominator(90, 4, columns as int);
            assert(rows <= 22);
            assert(rows * per_size <= 22 * 500 && rows * per_size + pad * (rows - 1)
                <= 0x7fff_ffff) by (nonlinear_arith)
                requires
                    1 <= rows <= 22,
                    0 <= per_size <= 500,
                    pad == 10,
            ;
        } else {
            assert(columns == 10 && per_size == 240);
            lemma_div_is_ordered((n + 9) as int, (GRID_MAX_IMAGES + 9) as int, 10);
            assert(rows <= 8_589_934);
            assert(rows * per_size <= 8_589_934 * 240 && rows * per_size + pad * (rows - 1)
                <= 0x7fff_ffff) by (nonlinear_arith)
                requires
                    1 <= rows <= 8_589_934,
                    per_size == 240,
                    pad == 10,
            ;
        }
        assert(rows * per_size + pad * (rows - 1) <= 0x7fff_ffff);
    }
    let width: usize = columns * per_size + pad * (columns - 1);
    let height: usize = rows * per_size + pad * (rows - 1);
    assert(height <= 0x7fff_ffff);

    let mut rects: Vec<Rect> = Vec::new();
    let mut i: usize = 0;
    while i < n
        invariant
            i <= n,
            10 <= n,
            n <= GRID_MAX_IMAGES,
            columns == batch_columns(n as int),
            per_size == batch_cell_size(n as int),
            pad == PAD,
            rows == batch_rows(n as int),
            height == rows * per_size + pad * (rows - 1),
            height <= 0x7fff_ffff,
            rects@.len() == i,
            forall|j: int| 0 <= j < i ==> (#[trigger] rects@[j]).model() == batch_cell(n as int, j),
        decreases n - i,
    {
        let col: usize = i % columns;
        let row: usize = i / columns;
        proof {
            let ci: int = columns as int;
            let ri: int = rows as int;
            lemma_mod_bound(i as int, ci);
            // i < n <= rows * columns, so row <= rows - 1
            lemma_fundamental_div_mod((n + columns - 1) as int, ci);
            lemma_mod_bound((n + columns - 1) as int, ci);
            assert(n <= ri * ci);
            lemma_div_is_ordered(i as int, ri * ci - 1, ci);
            assert(ri * ci - 1 == (ri - 1) * ci + (ci - 1)) by (nonlinear_arith);
            lemma_fundamental_div_mod_converse(ri * ci - 1, ci, ri - 1, ci - 1);
            assert(row as int <= ri - 1);
            assert(col as int * ((per_size + pad) as int) <= 9 * 510) by (nonlinear_arith)
                requires
                    0 <= col as int <= 9,
                    0 <= (per_size + pad) as int <= 510,
            ;
            assert(row as int * ((per_size + pad) as int) + per_size as int <= height as int)
                by (nonlinear_arith)
                requires
                    row as int <= rows as int - 1,
                    0 <= row as int,
                    1 <= rows as int,
                    0 <= per_size as int,
                    0 <= pad as int,
                    height as int == rows as int * per_size as int + pad as int * (rows as int
                        - 1),
            ;
        }
        let x: usize = col * (per_size + pad);
        let y: usize = row * (per_size + pad);
        rects.push(
            Rect {
                x: x as i32,
                y: y as i32,
                width: per_size as i32,
                height: per_size as i32,
            },
        );
        i = i + 1;
    }
    ((width as i32, height as i32), rects)
}

/// In the uniform grid, cell `i` lies in column `i mod columns` of
/// `columns` and row `i div columns` of `ceil(n / columns)` rows.
proof fn lemma_batch_position(n: int, i: int)
    requires
        10 <= n,
        0 <= i < n,
    ensures
        0 <= i % batch_columns(n) < batch_columns(n),
        0 <= i / batch_columns(n) < batch_rows(n),
{
    let c = batch_columns(n);
    let rows = batch_rows(n);
    lemma_mod_bound(i, c);
    lemma_fundamental_div_mod(n + c - 1, c);
    lemma_mod_bound(n + c - 1, c);
    assert(n <= rows * c);
    lemma_div_is_ordered(i, rows * c - 1, c);
    assert(rows * c - 1 == (rows - 1) * c + (c - 1)) by (nonlinear_arith);
    lemma_fundamental_div_mod_converse(rows * c - 1, c, rows - 1, c - 1);
    assert(0 <= i / c) by {
        lemma_div_is_ordered(0, i, c);
    };
}

/// Every cell of the layout for `n` images is a square of positive size
/// lying inside the declared canvas.
pub proof fn lemma_grid_cell_in_canvas(n: int, i: int)
    requires
        1 <= n <= GRID_MAX_IMAGES,
        0 <= i < n,
    ensures
        cell_within(grid_cell(n, i), grid_canvas(n).0, grid_canvas(n).1),
        grid_cell(n, i).2 > 0,
        grid_cell(n, i).2 == grid_cell(n, i).3,
{
    if n > 9 {
        let c = batch_columns(n);
        let s = batch_cell_size(n);
        let rows = batch_rows(n);
        lemma_batch_position(n, i);
        let ci = i % c;
        let ri = i / c;
        assert(ci * (s + 10) + s <= c * s + 10 * (c - 1)) by (nonlinear_arith)
            requires
                ci <= c - 1,
                0 <= ci,
                0 <= s,
        ;
        assert(ri * (s + 10) + s <= rows * s + 10 * (rows - 1)) by (nonlinear_arith)
            requires
                ri <= rows - 1,
                0 <= ri,
                0 <= s,
        ;
        assert(0 <= ci * (s + 10) && 0 <= ri * (s + 10)) by (nonlinear_arith)
            requires
                0 <= ci,
                0 <= ri,
                0 <= s,
        ;
    }
}

/// No two cells of the layout for `n` images overlap.
pub proof fn lemma_grid_cells_disjoint(n: int, i: int, j: int)
    requires
        1 <= n <= GRID_MAX_IMAGES,
        0 <= i < n,
        0 <= j < n,
        i != j,
    ensures
        cells_disjoint(grid_cell(n, i), grid_cell(n, j)),
{
    if n > 9 {
        let c = batch_columns(n);
        let s = batch_cell_size(n);
        lemma_batch_position(n, i);
        lemma_batch_position(n, j);
        lemma_fundamental_div_mod(i, c);
        lemma_fundamental_div_mod(j, c);
        let ci = i % c;
        let cj = j % c;
        let ri = i / c;
        let rj = j / c;
        if ci == cj && ri == rj {
            assert(i == c * ri + ci && j == c * rj + cj);
            assert(false);
        }
        if ci != cj {
            if ci < cj {
                assert(ci * (s + 10) + s <= cj * (s + 10)) by (nonlinear_arith)
                    requires
                        ci + 1 <= cj,
                        0 <= ci,
                        0 <= s,
                ;
            } else {
                assert(cj * (s + 10) + s <= ci * (s + 10)) by (nonlinear_arith)
                    requires
                        cj + 1 <= ci,
                        0 <= cj,
                        0 <= s,
                ;
            }
        } else {
            if ri < rj {
                assert(ri * (s + 10) + s <= rj * (s + 10)) by (nonlinear_arith)
                    requires
                        ri + 1 <= rj,
                        0 <= ri,
                        0 <= s,
                ;
            } else {
                assert(rj * (s + 10) + s <= ri * (s + 10)) by (nonlinear_arith)
                    requires
                        rj + 1 <= ri,
                        0 <= rj,
                        0 <= s,
                ;
            }
        }
    }
}

/// Cell positions of the grid layout for `n` images: the hand-tuned
/// template for one to nine, the uniform grid above.
pub fn image_poses(n: usize) -> (r: ((i32, i32), Vec<Rect>))
    requires
        1 <= n,
        n <= GRID_MAX_IMAGES,
    ensures
        r.0.0 == grid_canvas(n as int).0,
        r.0.1 == grid_canvas(n as int).1,
        r.1@.len() == n,
        forall|i: int| 0 <= i < n ==> (#[trigger] r.1@[i]).model() == grid_cell(n as int, i),
{
    let mut v: Vec<Rect> = Vec::new();
    match n {
        1 => {
            v.push(Rect { x: 0, y: 0, width: 1800, height: 1800 });
            ((1800, 1800), v)
        },
        2 => {
            v.push(Rect { x: 0, y: 0, width: 900, height: 900 });
            v.push(Rect { x: 900 + PAD, y: 0, width: 900, height: 900 });
            ((1800 + PAD, 900), v)
        },
        3 => {
            v.push(Rect { x: 0, y: 0, width: 1800, height: 1800 });
            v.push(Rect { x: 0, y: 1800 + PAD, width: 900, height: 900 });
            v.push(Rect { x: 900 + PAD, y: 1800 + PAD, width: 900, height: 900 });
            ((1800 + PAD, 2700 + PAD), v)
        },
        4 => {
            v.push(Rect { x: 0, y: 0, width: 900, height: 900 });
            v.push(Rect { x: 0, y: 900 + PAD, width: 900, height: 900 });
            v.push(Rect { x: 900 + PAD, y: 0, width: 900, height: 900 });
            v.push(Rect { x: 900 + PAD, y: 900 + PAD, width: 900, height: 900 });
            ((1800 + PAD, 1800 + PAD), v)
        },
        5 => {
            v.push(Rect { x: 0, y: 0, width: 900, height: 900 });
            v.push(Rect { x: 900 + PAD, y: 0, width: 900, height: 900 });
            v.push(Rect { x: 0, y: 900 + PAD, width: 600, height: 600 });
            v.push(Rect { x: 600 + PAD, y: 900 + PAD, width: 600, height: 600 });
            v.push(Rect { x: 1200 + 2 * PAD, y: 900 + PAD, width: 600, height: 600 });
            ((1800 + 2 * PAD, 1500 + PAD), v)
        },
        6 => {
            v.push(Rect { x: 0, y: 0, width: 600, height: 600 });
            v.push(Rect { x: 600 + PAD, y: 0, width: 600, height: 600 });
            v.push(Rect { x: 1200 + 2 * PAD, y: 0, width: 600, height: 600 });
            v.push(Rect { x: 0, y: 600 + PAD, width: 600, height: 600 });
            v.push(Rect { x: 600 + PAD, y: 600 + PAD, width: 600, height: 600 });
            v.push(Rect { x: 1200 + 2 * PAD, y: 600 + PAD, width: 600, height: 600 });
            ((1800 + 2 * PAD, 1200 + PAD), v)
        },
        7 => {
            v.push(Rect { x: 0, y: 0, width: 900, height: 900 });
            v.push(Rect { x: 900 + PAD, y: 0, width: 900, height: 900 });
            v.push(Rect { x: 0, y: 900 + PAD, width: 900, height: 900 });
            v.push(Rect { x: 900 + PAD, y: 900 + PAD, width: 900, height: 900 });
            v.push(Rect { x: 0, y: 1800 + 2 * PAD, width: 600, height: 600 });
            v.push(Rect { x: 600 + PAD, y: 1800 + 2 * PAD, width: 600, height: 600 });
            v.push(Rect { x: 1200 + 2 * PAD, y: 1800 + 2 * PAD, width: 600, height: 600 });
            ((1800 + 2 * PAD, 2400 + 2 * PAD), v)
        },
        8 => {
            v.push(Rect { x: 0, y: 0, width: 900, height: 900 });
            v.push(Rect { x: 900 + PAD, y: 0, width: 900, height: 900 });
            v.push(Rect { x: 0, y: 900 + PAD, width: 600, height: 600 });
            v.push(Rect { x: 600 + PAD, y: 900 + PAD, width: 600, height: 600 });
            v.push(Rect { x: 1200 + 2 * PAD, y: 900 + PAD, width: 600, height: 600 });
            v.push(Rect { x: 0, y: 1500 + 2 * PAD, width: 600, height: 600 });
            v.push(Rect { x: 600 + PAD, y: 1500 + 2 * PAD, width: 600, height: 600 });
            v.push(Rect { x: 1200 + 2 * PAD, y: 1500 + 2 * PAD, width: 600, height: 600 });
            ((1800 + 2 * PAD, 2100 + 2 * PAD), v)
        },
        9 => {
            v.push(Rect { x: 0, y: 0, width: 600, height: 600 });
            v.push(Rect { x: 600 + PAD, y: 0, width: 600, height: 600 });
            v.push(Rect { x: 1200 + 2 * PAD, y: 0, width: 600, height: 600 });
            v.push(Rect { x: 0, y: 600 + PAD, width: 600, height: 600 });
            v.push(Rect { x: 600 + PAD, y: 600 + PAD, width: 600, height: 600 });
            v.push(Rect { x: 1200 + 2 * PAD, y: 600 + PAD, width: 600, height: 600 });
            v.push(Rect { x: 0, y: 1200 + 2 * PAD, width: 600, height: 600 });
            v.push(Rect { x: 600 + PAD, y: 1200 + 2 * PAD, width: 600, height: 600 });
            v.push(Rect { x: 1200 + 2 * PAD, y: 1200 + 2 * PAD, width: 600, height: 600 });
            ((1800 + 2 * PAD, 1800 + 2 * PAD), v)
        },
        _ => batch_image_poses(n),
    }
}

/// Merge the given encoded images into one grid collage: decide the plan.
///
/// An empty input is refused. A single image passes through unchanged, byte
/// for byte, with no decode attempted. Otherwise the result is the grid
/// layout for the count, with the square fit policy; the embedding
/// application composes and encodes it.
pub fn merge(image_bytes: &Vec<Vec<u8>>) -> (r: Result<MergeAction, MergeError>)
    ensures
        image_bytes@.len() == 0 <==> r == Err::<MergeAction, MergeError>(MergeError::NoImages),
        image_bytes@.len() > GRID_MAX_IMAGES ==> r == Err::<MergeAction, MergeError>(
            MergeError::CanvasTooLarge,
        ),
        r is Err <==> (image_bytes@.len() == 0 || image_bytes@.len() > GRID_MAX_IMAGES),
        image_bytes@.len() == 1 ==> (r matches Ok(MergeAction::Passthrough(b)) && b@
            == image_bytes@[0]@),
        2 <= image_bytes@.len() <= GRID_MAX_IMAGES ==> (r matches Ok(
            MergeAction::Compose { layout, square },
        ) && square == true && layout.width == grid_canvas(image_bytes@.len() as int).0
            && layout.height == grid_canvas(image_bytes@.len() as int).1 && layout.rects@.len()
            == image_bytes@.len() && (forall|i: int|
            0 <= i < image_bytes@.len() ==> (#[trigger] layout.rects@[i]).model() == grid_cell(
                image_bytes@.len() as int,
                i,
            )) && layout.wf()),
{
    let n = image_bytes.len();
    if n == 0 {
        return Err(MergeError::NoImages);
    }
    if n == 1 {
        return Ok(MergeAction::Passthrough(copy_bytes(&image_bytes[0])));
    }
    if n > GRID_MAX_IMAGES {
        return Err(MergeError::CanvasTooLarge);
    }
    let ((width, height), rects) = image_poses(n);
    proof {
        assert forall|i: int| 0 <= i < rects@.len() implies (#[trigger] rects@[i]).wf()
            && rects@[i].within(width as int, height as int) by {
            lemma_grid_cell_in_canvas(n as int, i);
            lemma_cell_model(
                rects@[i],
                rects@[i],
                grid_canvas(n as int).0,
                grid_canvas(n as int).1,
            );
        };
        lemma_grid_cell_in_canvas(n as int, 0);
    }
    Ok(MergeAction::Compose { layout: Layout { width, height, rects }, square: true })
}

} // verus!
