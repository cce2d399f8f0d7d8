//! The waterfall layout engine.
//!
//! Images keep their own aspect ratio: each is assigned a fixed cell width
//! and a height scaled from its probed natural dimensions, and is placed at
//! the bottom of whichever column is currently shortest (ties to the lowest
//! column index). The canvas height is the maximum cell bottom, without a
//! trailing gap.

use vstd::prelude::*;
use vstd::arithmetic::div_mod::*;
use vstd::arithmetic::mul::*;
use crate::rect::{cell_within, cells_disjoint, lemma_cell_model, Rect};
use crate::plan::{copy_bytes, Layout, MergeAction, MergeError};
use crate::decode::{probe_dimensions, probe_of};
use crate::PAD;

verus! {

/// Column count of the waterfall layout for `n` images.
pub open spec fn waterfall_columns(n: int) -> int {
    if n <= 9 {
        2
    } else if n <= 16 {
        3
    } else if n <= 25 {
        4
    } else if n <= 36 {
        5
    } else if n <= 49 {
        6
    } else {
        7
    }
}

/// Cell width of the waterfall layout for `n` images.
pub open spec fn waterfall_cell_width(n: int) -> int {
    if n <= 9 {
        800
    } else if n <= 16 {
        500
    } else if n <= 25 {
        400
    } else if n <= 36 {
        350
    } else {
        300
    }
}

/// Canvas width of the waterfall layout: the columns plus the gaps
/// between them.
pub open spec fn waterfall_canvas_width(n: int) -> int {
    waterfall_columns(n) * waterfall_cell_width(n) + PAD * (waterfall_columns(n) - 1)
}

/// Index of the shortest column: the smallest bottom, ties broken by the
/// lowest column index.
pub open spec fn min_col(bottoms: Seq<int>) -> int
    decreases bottoms.len(),
{
    if bottoms.len() <= 1 {
        0
    } else {
        let m = min_col(bottoms.drop_last());
        if bottoms.last() < bottoms[m] {
            bottoms.len() - 1
        } else {
            m
        }
    }
}

/// `min_col` returns a valid index holding the minimum, and every earlier
/// column is strictly taller.
pub proof fn lemma_min_col(bottoms: Seq<int>)
    requires
        bottoms.len() >= 1,
    ensures
        0 <= min_col(bottoms) < bottoms.len(),
        forall|i: int| 0 <= i < bottoms.len() ==> bottoms[min_col(bottoms)] <= #[trigger] bottoms[i],
        forall|i: int| 0 <= i < min_col(bottoms) ==> bottoms[min_col(bottoms)] < #[trigger] bottoms[i],
    decreases bottoms.len(),
{
    if bottoms.len() > 1 {
        let bl = bottoms.drop_last();
        lemma_min_col(bl);
        let m = min_col(bl);
        assert(forall|i: int| 0 <= i < bl.len() ==> bl[i] == bottoms[i]);
        if bottoms.last() < bottoms[m] {
            assert(min_col(bottoms) == bottoms.len() - 1);
            assert(forall|i: int|
                0 <= i < bottoms.len() - 1 ==> bottoms[min_col(bottoms)] < #[trigger] bottoms[i]);
        } else {
            assert(min_col(bottoms) == m);
        }
    }
}

/// The greedy packing state after the first `k` images, for `cols` columns
/// of cell width `per`: the per-column bottoms (each including the trailing
/// gap), the cells placed so far, and the running maximum cell bottom; or
/// `None` when some placement would leave the raster coordinate space.
pub open spec fn fall_state(dims: Seq<(u64, u64)>, cols: int, per: int, k: int) -> Option<
    (Seq<int>, Seq<(int, int, int, int)>, int),
>
    decreases k,
{
    if k <= 0 {
        Some((Seq::new(cols as nat, |i: int| 0), Seq::<(int, int, int, int)>::empty(), 0))
    } else {
        match fall_state(dims, cols, per, k - 1) {
            None => None,
            Some(st) => {
                let c = min_col(st.0);
                let y = st.0[c];
                let rh = per * (dims[k - 1].1 as int) / (dims[k - 1].0 as int);
                if y + rh + PAD > i32::MAX {
                    None
                } else {
                    Some(
                        (
                            st.0.update(c, y + rh + PAD),
                            st.1.push((c * (per + PAD), y, per, rh)),
                            if y + rh > st.2 {
                                y + rh
                            } else {
                                st.2
                            },
                        ),
                    )
                }
            },
        }
    }
}

/// The column a placed cell sits in, recovered from its x coordinate.
pub open spec fn cell_col(cell: (int, int, int, int), per: int) -> int {
    cell.0 / (per + PAD)
}

/// Cell `p` of the packing state sits in a valid column, at the cell
/// width, with its bottom edge (plus the gap) at or above that column's
/// recorded bottom, and within the running height.
pub open spec fn placement_ok(
    st: (Seq<int>, Seq<(int, int, int, int)>, int),
    cols: int,
    per: int,
    p: int,
) -> bool {
    let cell = st.1[p];
    let c = cell_col(cell, per);
    &&& 0 <= c < cols
    &&& cell.0 == c * (per + PAD)
    &&& 0 <= cell.1
    &&& cell.2 == per
    &&& 0 <= cell.3
    &&& cell.1 + cell.3 + PAD <= st.0[c]
    &&& cell.1 + cell.3 <= st.2
}

/// What holds of every state the greedy packing reaches: every cell is a
/// sound placement, no two cells overlap, the column bottoms are
/// non-negative, and the running height is exactly the maximum cell bottom.
pub open spec fn fall_state_sound(
    st: (Seq<int>, Seq<(int, int, int, int)>, int),
    cols: int,
    per: int,
) -> bool {
    &&& st.0.len() == cols
    &&& forall|c: int| 0 <= c < cols ==> 0 <= #[trigger] st.0[c]
    &&& forall|p: int| 0 <= p < st.1.len() ==> placement_ok(st, cols, per, p)
    &&& forall|p: int, q: int|
        0 <= p < st.1.len() && 0 <= q < st.1.len() && p != q ==> cells_disjoint(
            #[trigger] st.1[p],
            #[trigger] st.1[q],
        )
    &&& 0 <= st.2
    &&& (st.1.len() == 0 ==> st.2 == 0)
    &&& (st.1.len() > 0 ==> exists|p: int|
        0 <= p < st.1.len() && #[trigger] st.1[p].1 + st.1[p].3 == st.2)
}

/// Every state the greedy packing reaches is sound: its cells never
/// overlap, each sits in its column at or below everything placed there
/// before, and the running height is the exact maximum cell bottom.
pub proof fn lemma_fall_state_sound(dims: Seq<(u64, u64)>, cols: int, per: int, k: int)
    requires
        1 <= cols,
        1 <= per,
        0 <= k <= dims.len(),
        forall|i: int| 0 <= i < dims.len() ==> (#[trigger] dims[i]).0 >= 1,
        fall_state(dims, cols, per, k) is Some,
    ensures
        fall_state_sound(fall_state(dims, cols, per, k)->Some_0, cols, per),
    decreases k,
{
    if k <= 0 {
    } else {
        let prev = fall_state(dims, cols, per, k - 1);
        assert(prev is Some);
        lemma_fall_state_sound(dims, cols, per, k - 1);
        lemma_fall_state_len(dims, cols, per, k - 1);
        let st = prev->Some_0;
        let stn = fall_state(dims, cols, per, k)->Some_0;
        let c = min_col(st.0);
        lemma_min_col(st.0);
        let y = st.0[c];
        let h = dims[k - 1].1 as int;
        let w = dims[k - 1].0 as int;
        let rh = per * h / w;
        assert(0 <= rh) by {
            lemma_mul_nonnegative(per, h);
            lemma_div_pos_is_pos(per * h, w);
        };
        let cell = (c * (per + PAD), y, per, rh);
        assert(stn.1 == st.1.push(cell));
        assert(stn.0 == st.0.update(c, y + rh + PAD));
        // the new cell's column is recovered from its x coordinate
        assert(cell_col(cell, per) == c) by {
            lemma_fundamental_div_mod_converse(c * (per + PAD), per + PAD, c, 0);
        };
        assert(0 <= c * (per + PAD)) by {
            lemma_mul_nonnegative(c, per + PAD);
        };
        // the new cell is a sound placement
        assert(placement_ok(stn, cols, per, k - 1));
        // old placements stay sound: only column c's bottom moved, upward
        assert forall|p: int| 0 <= p < k - 1 implies placement_ok(stn, cols, per, p) by {
            assert(placement_ok(st, cols, per, p));
            assert(stn.1[p] == st.1[p]);
            let cp = cell_col(st.1[p], per);
            if cp == c {
                assert(stn.0[cp] == y + rh + PAD);
            } else {
                assert(stn.0[cp] == st.0[cp]);
            }
        };
        // the new cell overlaps no old cell
        assert forall|p: int| 0 <= p < k - 1 implies cells_disjoint(
            #[trigger] stn.1[p],
            cell,
        ) by {
            let old_cell = st.1[p];
            assert(stn.1[p] == old_cell);
            let cp = cell_col(old_cell, per);
            assert(placement_ok(st, cols, per, p));
            if cp == c {
                // same column: the old cell, gap included, ends at or
                // above the column bottom where the new cell starts
                assert(old_cell.1 + old_cell.3 <= y);
            } else if cp < c {
                assert(cp * (per + PAD) + per <= c * (per + PAD)) by (nonlinear_arith)
                    requires
                        cp + 1 <= c,
                        1 <= per,
                        0 <= cp,
                ;
            } else {
                assert(c * (per + PAD) + per <= cp * (per + PAD)) by (nonlinear_arith)
                    requires
                        c + 1 <= cp,
                        1 <= per,
                        0 <= c,
                ;
            }
        };
        // all pairs of cells stay disjoint
        assert forall|p: int, q: int|
            0 <= p < stn.1.len() && 0 <= q < stn.1.len() && p != q implies cells_disjoint(
            #[trigger] stn.1[p],
            #[trigger] stn.1[q],
        ) by {
            if p < k - 1 && q < k - 1 {
                assert(stn.1[p] == st.1[p] && stn.1[q] == st.1[q]);
                assert(cells_disjoint(st.1[p], st.1[q]));
            } else if p == k - 1 {
                assert(stn.1[p] == cell && cells_disjoint(stn.1[q], cell));
            } else {
                assert(stn.1[q] == cell && cells_disjoint(stn.1[p], cell));
            }
        };
        // the running height is still the exact maximum cell bottom
        if y + rh > st.2 {
            assert(stn.1[k - 1].1 + stn.1[k - 1].3 == stn.2);
        } else {
            if st.1.len() == 0 {
                assert(stn.2 == 0 && y + rh >= 0 && y + rh <= st.2);
                assert(stn.1[k - 1].1 + stn.1[k - 1].3 == stn.2);
            } else {
                let p0 = choose|p: int|
                    0 <= p < st.1.len() && #[trigger] st.1[p].1 + st.1[p].3 == st.2;
                assert(stn.1[p0].1 + stn.1[p0].3 == stn.2);
            }
        }
    }
}

/// No two cells the waterfall packing places overlap.
pub proof fn lemma_waterfall_cells_disjoint(
    dims: Seq<(u64, u64)>,
    cols: int,
    per: int,
    k: int,
    p: int,
    q: int,
)
    requires
        1 <= cols,
        1 <= per,
        0 <= k <= dims.len(),
        forall|i: int| 0 <= i < dims.len() ==> (#[trigger] dims[i]).0 >= 1,
        fall_state(dims, cols, per, k) is Some,
        0 <= p < k,
        0 <= q < k,
        p != q,
    ensures
        cells_disjoint(
            fall_state(dims, cols, per, k)->Some_0.1[p],
            fall_state(dims, cols, per, k)->Some_0.1[q],
        ),
{
    lemma_fall_state_sound(dims, cols, per, k);
    lemma_fall_state_len(dims, cols, per, k);
}

/// The packing places one cell per image seen.
pub proof fn lemma_fall_state_len(dims: Seq<(u64, u64)>, cols: int, per: int, k: int)
    requires
        0 <= k,
        1 <= cols,
        fall_state(dims, cols, per, k) is Some,
    ensures
        fall_state(dims, cols, per, k)->Some_0.1.len() == k,
        fall_state(dims, cols, per, k)->Some_0.0.len() == cols,
    decreases k,
{
    if k > 0 {
        lemma_fall_state_len(dims, cols, per, k - 1);
        let stp = fall_state(dims, cols, per, k - 1)->Some_0;
        lemma_min_col(stp.0);
    } else {
        assert(fall_state(dims, cols, per, k)->Some_0.0 == Seq::new(cols as nat, |i: int| 0int));
    }
}

/// Every cell the waterfall packing places lies inside the canvas: within
/// the canvas width spanned by the columns, and above the final height.
pub proof fn lemma_waterfall_cell_in_canvas(
    dims: Seq<(u64, u64)>,
    cols: int,
    per: int,
    k: int,
    p: int,
)
    requires
        1 <= cols,
        1 <= per,
        0 <= k <= dims.len(),
        forall|i: int| 0 <= i < dims.len() ==> (#[trigger] dims[i]).0 >= 1,
        fall_state(dims, cols, per, k) is Some,
        0 <= p < k,
    ensures
        cell_within(
            fall_state(dims, cols, per, k)->Some_0.1[p],
            cols * per + PAD * (cols - 1),
            fall_state(dims, cols, per, k)->Some_0.2,
        ),
{
    lemma_fall_state_sound(dims, cols, per, k);
    lemma_fall_state_len(dims, cols, per, k);
    let st = fall_state(dims, cols, per, k)->Some_0;
    let cell = st.1[p];
    let c = cell_col(cell, per);
    assert(placement_ok(st, cols, per, p));
    assert(c * (per + PAD) + per <= cols * per + PAD * (cols - 1)) by (nonlinear_arith)
        requires
            0 <= c <= cols - 1,
            1 <= per,
            1 <= cols,
    ;
}

/// The canvas height the packing reports is exact: no cell ends below it,
/// and some cell ends exactly at it.
pub proof fn lemma_waterfall_height_exact(dims: Seq<(u64, u64)>, cols: int, per: int, k: int)
    requires
        1 <= cols,
        1 <= per,
        0 <= k <= dims.len(),
        forall|i: int| 0 <= i < dims.len() ==> (#[trigger] dims[i]).0 >= 1,
        fall_state(dims, cols, per, k) is Some,
    ensures
        ({
            let st = fall_state(dims, cols, per, k)->Some_0;
            &&& forall|p: int| 0 <= p < k ==> (#[trigger] st.1[p]).1 + st.1[p].3 <= st.2
            &&& k >= 1 ==> exists|p: int| 0 <= p < k && (#[trigger] st.1[p]).1 + st.1[p].3 == st.2
        }),
{
    lemma_fall_state_sound(dims, cols, per, k);
    lemma_fall_state_len(dims, cols, per, k);
    let st = fall_state(dims, cols, per, k)->Some_0;
    assert forall|p: int| 0 <= p < k implies (#[trigger] st.1[p]).1 + st.1[p].3 <= st.2 by {
        assert(placement_ok(st, cols, per, p));
    };
    if k >= 1 {
        let p0 = choose|p: int| 0 <= p < st.1.len() && #[trigger] st.1[p].1 + st.1[p].3 == st.2;
        assert(0 <= p0 < k && (st.1[p0]).1 + st.1[p0].3 == st.2);
    }
}

/// Two placed cells share an x coordinate exactly when they sit in the
/// same column: across different columns, x always differs.
pub proof fn lemma_waterfall_column_x(
    dims: Seq<(u64, u64)>,
    cols: int,
    per: int,
    k: int,
    p: int,
    q: int,
)
    requires
        1 <= cols,
        1 <= per,
        0 <= k <= dims.len(),
        forall|i: int| 0 <= i < dims.len() ==> (#[trigger] dims[i]).0 >= 1,
        fall_state(dims, cols, per, k) is Some,
        0 <= p < k,
        0 <= q < k,
    ensures
        ({
            let st = fall_state(dims, cols, per, k)->Some_0;
            st.1[p].0 == st.1[q].0 <==> cell_col(st.1[p], per) == cell_col(st.1[q], per)
        }),
{
    lemma_fall_state_sound(dims, cols, per, k);
    lemma_fall_state_len(dims, cols, per, k);
    let st = fall_state(dims, cols, per, k)->Some_0;
    assert(placement_ok(st, cols, per, p));
    assert(placement_ok(st, cols, per, q));
}

/// Once a placement fails, every longer prefix fails too.
proof fn lemma_fall_state_none(dims: Seq<(u64, u64)>, cols: int, per: int, k1: int, k2: int)
    requires
        0 <= k1 <= k2,
        fall_state(dims, cols, per, k1) is None,
    ensures
        fall_state(dims, cols, per, k2) is None,
    decreases k2 - k1,
{
    if k1 < k2 {
        lemma_fall_state_none(dims, cols, per, k1, k2 - 1);
    }
}

/// Run the greedy column-balancing packing over the probed dimensions.
/// Every image must have a positive probed width; the scaled cell height is
/// `per * height / width`, rounded down.
pub fn waterfall_layout(dims: &Vec<(u64, u64)>) -> (r: Result<Layout, MergeError>)
    requires
        dims@.len() >= 1,
        forall|i: int| 0 <= i < dims@.len() ==> (#[trigger] dims@[i]).0 >= 1,
    ensures
        ({
            let n = dims@.len() as int;
            let cols = waterfall_columns(n);
            let per = waterfall_cell_width(n);
            match r {
                Ok(layout) => {
                    &&& fall_state(dims@, cols, per, n) matches Some(st) && layout.rects@.len()
                        == n && (forall|i: int|
                        0 <= i < n ==> (#[trigger] layout.rects@[i]).model() == st.1[i])
                        && layout.height == st.2
                    &&& layout.width == waterfall_canvas_width(n)
                    &&& layout.wf()
                },
                Err(e) => {
                    &&& e == MergeError::CanvasTooLarge
                    &&& fall_state(dims@, cols, per, n) is None
                },
            }
        }),
{
    let n = dims.len();
    let ghost ni = n as int;
    let (columns, per_size): (usize, usize) = if n <= 9 {
        (2, 800)
    } else if n <= 16 {
        (3, 500)
    } else if n <= 25 {
        (4, 400)
    } else if n <= 36 {
        (5, 350)
    } else if n <= 49 {
        (6, 300)
    } else {
        (7, 300)
    };
    assert(columns == waterfall_columns(ni));
    assert(per_size == waterfall_cell_width(ni));
    let pad: usize = 10;

    let mut bottoms: Vec<i64> = Vec::new();
    let mut c: usize = 0;
    while c < columns
        invariant
            c <= columns,
            bottoms@.len() == c,
            forall|j: int| 0 <= j < c ==> bottoms@[j] == 0,
        decreases columns - c,
    {
        bottoms.push(0);
        c = c + 1;
    }

    let mut rects: Vec<Rect> = Vec::new();
    let mut hmax: i64 = 0;
    let mut k: usize = 0;
    proof {
        assert(Seq::new(columns as nat, |i: int| 0) =~= bottoms@.map_values(|b: i64| b as int));
    }
    while k < n
        invariant
            k <= n,
            n == dims@.len(),
            1 <= n,
            forall|i: int| 0 <= i < dims@.len() ==> (#[trigger] dims@[i]).0 >= 1,
            columns == waterfall_columns(n as int),
            per_size == waterfall_cell_width(n as int),
            pad == PAD,
            2 <= columns <= 7,
            300 <= per_size <= 800,
            bottoms@.len() == columns,
            rects@.len() == k,
            0 <= hmax <= i32::MAX,
            fall_state(dims@, columns as int, per_size as int, k as int) matches Some(st) && ({
                &&& st.0 =~= bottoms@.map_values(|b: i64| b as int)
                &&& forall|j: int| 0 <= j < columns ==> 0 <= #[trigger] bottoms@[j] <= i32::MAX
                    + PAD
                &&& st.1.len() == k
                &&& forall|j: int| 0 <= j < k ==> (#[trigger] rects@[j]).model() == st.1[j]
                &&& st.2 == hmax
            }),
        decreases n - k,
    {
        let ghost st = fall_state(dims@, columns as int, per_size as int, k as int)->Some_0;
        let ghost bseq = bottoms@.map_values(|b: i64| b as int);

        // find the shortest column, lowest index first
        let mut best: usize = 0;
        let mut bi: usize = 1;
        proof {
            assert(bseq.take(1).drop_last() =~= bseq.take(0));
        }
        while bi < columns
            invariant
                1 <= bi <= columns,
                0 <= best < bi,
                bottoms@.len() == columns,
                bseq =~= bottoms@.map_values(|b: i64| b as int),
                best == min_col(bseq.take(bi as int)),
            decreases columns - bi,
        {
            proof {
                lemma_min_col(bseq.take(bi as int));
                assert(bseq.take(bi as int + 1).drop_last() =~= bseq.take(bi as int));
                assert(bseq.take(bi as int + 1).last() == bseq[bi as int]);
            }
            if bottoms[bi] < bottoms[best] {
                best = bi;
            }
            bi = bi + 1;
        }
        proof {
            assert(bseq.take(columns as int) =~= bseq);
            lemma_min_col(bseq);
            assert(best == min_col(st.0));
        }

        let (w, h) = dims[k];
        let y: i64 = bottoms[best];
        let rh128: u128 = (per_size as u128) * (h as u128) / (w as u128);
        proof {
            assert(per_size as int * (h as int) >= 0) by (nonlinear_arith)
                requires
                    per_size >= 1,
                    h >= 0,
            ;
            lemma_div_pos_is_pos(per_size as int * (h as int), w as int);
            assert(rh128 == per_size as int * (h as int) / (w as int));
        }
        if rh128 > 0x7fff_ffff as u128 {
            proof {
                lemma_fall_state_none(
                    dims@,
                    columns as int,
                    per_size as int,
                    k as int + 1,
                    n as int,
                );
            }
            return Err(MergeError::CanvasTooLarge);
        }
        let rh: i64 = rh128 as i64;
        if y + rh + (pad as i64) > 0x7fff_ffff {
            proof {
                lemma_fall_state_none(
                    dims@,
                    columns as int,
                    per_size as int,
                    k as int + 1,
                    n as int,
                );
            }
            return Err(MergeError::CanvasTooLarge);
        }

        proof {
            assert(best as int * (per_size as int + 10) <= 6 * 810) by (nonlinear_arith)
                requires
                    0 <= best as int <= 6,
                    0 <= per_size as int + 10 <= 810,
            ;
            assert(best as int * (per_size as int + 10) >= 0) by (nonlinear_arith)
                requires
                    0 <= best as int,
                    0 <= per_size as int + 10,
            ;
        }
        let x: i32 = (best as i32) * (per_size as i32 + PAD);
        rects.push(Rect { x, y: y as i32, width: per_size as i32, height: rh as i32 });
        bottoms.set(best, y + rh + (pad as i64));
        if y + rh > hmax {
            hmax = y + rh;
        }
        proof {
            assert(st.0.update(best as int, y + rh + PAD) =~= bottoms@.map_values(
                |b: i64| b as int,
            ));
        }
        k = k + 1;
    }

    proof {
        assert(columns * per_size <= 5600) by (nonlinear_arith)
            requires
                0 <= columns <= 7,
                0 <= per_size <= 800,
        ;
    }
    let width_usize: usize = columns * per_size + pad * (columns - 1);
    let width: i32 = width_usize as i32;
    proof {
        let ci: int = columns as int;
        let pi: int = per_size as int;
        let st = fall_state(dims@, ci, pi, n as int)->Some_0;
        assert forall|i: int| 0 <= i < rects@.len() implies (#[trigger] rects@[i]).wf()
            && rects@[i].within(width as int, hmax as int) by {
            lemma_waterfall_cell_in_canvas(dims@, ci, pi, n as int, i);
            lemma_cell_model(rects@[i], rects@[i], ci * pi + PAD * (ci - 1), st.2);
        };
    }
    Ok(Layout { width, height: hmax as i32, rects })
}

/// A probe that yields no usable dimensions for the waterfall: it failed
/// outright, or it reported a zero width (no aspect ratio to scale by).
pub open spec fn bad_probe(bytes: Seq<u8>) -> bool {
    match probe_of(bytes) {
        Option::None => true,
        Option::Some(d) => d.0 == 0,
    }
}

/// The dimensions the probe reads for each image, in input order.
pub open spec fn probed_dims(images: Seq<Vec<u8>>) -> Seq<(u64, u64)> {
    images.map_values(
        |v: Vec<u8>|
            match probe_of(v@) {
                Option::Some(d) => d,
                Option::None => (0u64, 0u64),
            },
    )
}

/// Probe every image's dimensions and run the greedy packing over them.
/// Probing must succeed, with a positive width, for every image.
pub fn image_poses(image_bytes: &Vec<Vec<u8>>) -> (r: Result<Layout, MergeError>)
    requires
        image_bytes@.len() >= 1,
    ensures
        ({
            let n = image_bytes@.len() as int;
            let cols = waterfall_columns(n);
            let per = waterfall_cell_width(n);
            let dims = probed_dims(image_bytes@);
            &&& ((r == Err::<Layout, MergeError>(MergeError::LayoutFailed)) <==> exists|j: int|
                0 <= j < n && bad_probe(#[trigger] image_bytes@[j]@))
            &&& !(exists|j: int| 0 <= j < n && bad_probe(#[trigger] image_bytes@[j]@))
                ==> match r {
                Ok(layout) => {
                    &&& fall_state(dims, cols, per, n) matches Some(st) && layout.rects@.len()
                        == n && (forall|i: int|
                        0 <= i < n ==> (#[trigger] layout.rects@[i]).model() == st.1[i])
                        && layout.height == st.2
                    &&& layout.width == waterfall_canvas_width(n)
                    &&& layout.wf()
                },
                Err(e) => {
                    &&& e == MergeError::CanvasTooLarge
                    &&& fall_state(dims, cols, per, n) is None
                },
            }
        }),
{
    let n = image_bytes.len();
    let mut dims: Vec<(u64, u64)> = Vec::new();
    let mut i: usize = 0;
    while i < n
        invariant
            i <= n,
            n == image_bytes@.len(),
            dims@.len() == i,
            forall|j: int| 0 <= j < i ==> !bad_probe(#[trigger] image_bytes@[j]@),
            forall|j: int| 0 <= j < i ==> dims@[j] == probed_dims(image_bytes@)[j],
        decreases n - i,
    {
        match probe_dimensions(image_bytes[i].as_slice()) {
            None => {
                return Err(MergeError::LayoutFailed);
            },
            Some(d) => {
                if d.0 == 0 {
                    return Err(MergeError::LayoutFailed);
                }
                dims.push(d);
            },
        }
        i = i + 1;
    }
    proof {
        assert(dims@ =~= probed_dims(image_bytes@));
    }
    waterfall_layout(&dims)
}

/// Merge the given encoded images into one waterfall collage: decide the
/// plan.
///
/// An empty input is refused. A single image passes through unchanged, byte
/// for byte, with no probe or decode attempted. Otherwise every image's
/// dimensions are probed — a failed probe fails the whole call — and the
/// result is the greedy column-balancing layout, with the full-frame fit
/// policy; the embedding application composes and encodes it.
pub fn merge(image_bytes: &Vec<Vec<u8>>) -> (r: Result<MergeAction, MergeError>)
    ensures
        image_bytes@.len() == 0 <==> r == Err::<MergeAction, MergeError>(MergeError::NoImages),
        image_bytes@.len() == 1 ==> (r matches Ok(MergeAction::Passthrough(b)) && b@
            == image_bytes@[0]@),
        image_bytes@.len() >= 2 ==> ({
            let n = image_bytes@.len() as int;
            let cols = waterfall_columns(n);
            let per = waterfall_cell_width(n);
            let dims = probed_dims(image_bytes@);
            &&& ((r == Err::<MergeAction, MergeError>(MergeError::LayoutFailed)) <==> exists|
                j: int,
            |
                0 <= j < n && bad_probe(#[trigger] image_bytes@[j]@))
            &&& !(exists|j: int| 0 <= j < n && bad_probe(#[trigger] image_bytes@[j]@))
                ==> match r {
                Ok(a) => {
                    &&& a matches MergeAction::Compose { layout, square } && square == false && (
                    fall_state(dims, cols, per, n) matches Some(st) && layout.rects@.len() == n && (
                    forall|i: int|
                        0 <= i < n ==> (#[trigger] layout.rects@[i]).model() == st.1[i])
                        && layout.height == st.2) && layout.width == waterfall_canvas_width(n)
                        && layout.wf()
                },
                Err(e) => {
                    &&& e == MergeError::CanvasTooLarge
                    &&& fall_state(dims, cols, per, n) is None
                },
            }
        }),
{
    let n = image_bytes.len();
    if n == 0 {
        return Err(MergeError::NoImages);
    }
    if n == 1 {
        return Ok(MergeAction::Passthrough(copy_bytes(&image_bytes[0])));
    }
    match image_poses(image_bytes) {
        Ok(layout) => Ok(MergeAction::Compose { layout, square: false }),
        Err(e) => Err(e),
    }
}

} // verus!
