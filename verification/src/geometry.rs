//! Pixel rectangles and the row/column splits the layouts are built from.

use vstd::prelude::*;
use vstd::arithmetic::div_mod::{lemma_fundamental_div_mod, lemma_div_pos_is_pos};
use vstd::arithmetic::mul::{lemma_mul_inequality, lemma_mul_nonnegative};

verus! {

/// A rectangular region of the display, in pixels.
#[derive(Clone, Copy, PartialEq, Eq, Structural, Debug)]
pub struct Rect {
    pub x: u32,
    pub y: u32,
    pub w: u32,
    pub h: u32,
}

impl Rect {
    /// The region stays inside the coordinate space: its far edges fit in `u32`.
    pub open spec fn wf(self) -> bool {
        &&& self.x + self.w <= u32::MAX
        &&& self.y + self.h <= u32::MAX
    }

    pub fn new(x: u32, y: u32, w: u32, h: u32) -> (r: Rect)
        requires
            x + w <= u32::MAX,
            y + h <= u32::MAX,
        ensures
            r == (Rect { x, y, w, h }),
            r.wf(),
    {
        Rect { x, y, w, h }
    }
}

/// The `i`-th of `k` horizontal rows that together tile `r` exactly: every row
/// is `r.h / k` pixels tall except the last, which absorbs the remainder.
pub open spec fn row_rect(r: Rect, k: int, i: int) -> Rect
    recommends
        0 <= i < k,
{
    let rh = r.h as int / k;
    Rect {
        x: r.x,
        y: (r.y + i * rh) as u32,
        w: r.w,
        h: if i == k - 1 {
            (r.h - (k - 1) * rh) as u32
        } else {
            rh as u32
        },
    }
}

/// Any multiple `i * (h / k)` with `0 <= i <= k` stays at or below `h`.
pub proof fn lemma_row_offset_bounded(h: int, k: int, i: int)
    requires
        0 <= h,
        1 <= k,
        0 <= i <= k,
    ensures
        0 <= i * (h / k) <= h,
{
    let rh = h / k;
    lemma_div_pos_is_pos(h, k);
    lemma_mul_nonnegative(i, rh);
    lemma_fundamental_div_mod(h, k);
    lemma_mul_inequality(i, k, rh);
    assert(k * rh == rh * k) by (nonlinear_arith);
}

/// The `k` rows of `r` keep its horizontal extent and tile its vertical extent
/// exactly: the first row starts at the top, each row starts where the one
/// before it ends, and the last row ends at the bottom. In particular the rows
/// are disjoint along the stacking axis and leave no gap.
pub proof fn lemma_rows_tile(r: Rect, k: int)
    requires
        r.wf(),
        1 <= k,
    ensures
        forall|i: int|
            0 <= i < k ==> (#[trigger] row_rect(r, k, i)).x == r.x && row_rect(r, k, i).w == r.w,
        row_rect(r, k, 0).y == r.y,
        forall|i: int|
            0 <= i < k - 1 ==> (#[trigger] row_rect(r, k, i + 1)).y == row_rect(r, k, i).y
                + row_rect(r, k, i).h,
        row_rect(r, k, k - 1).y + row_rect(r, k, k - 1).h == r.y + r.h,
{
    let h = r.h as int;
    let rh = h / k;
    lemma_div_pos_is_pos(h, k);
    assert forall|i: int| 0 <= i <= k implies 0 <= #[trigger] (i * rh) <= h by {
        lemma_row_offset_bounded(h, k, i);
    }
    assert forall|i: int| 0 <= i < k - 1 implies (#[trigger] row_rect(r, k, i + 1)).y == row_rect(
        r,
        k,
        i,
    ).y + row_rect(r, k, i).h by {
        assert((i + 1) * rh == i * rh + rh) by (nonlinear_arith);
    }
    assert((k - 1) * rh + (h - (k - 1) * rh) == h);
}

/// Split `r` into `k` horizontal rows, each `row_rect(r, k, i)`.
pub fn split_rows(r: Rect, k: usize) -> (rows: Vec<Rect>)
    requires
        r.wf(),
        1 <= k,
    ensures
        rows.len() == k,
        forall|i: int| 0 <= i < k ==> rows[i] == row_rect(r, k as int, i),
        forall|i: int| 0 <= i < k ==> (#[trigger] rows[i]).wf(),
{
    let rh: u32 = ((r.h as u64) / (k as u64)) as u32;
    proof {
        lemma_div_pos_is_pos(r.h as int, k as int);
        assert(r.h as int / k as int <= r.h as int) by {
            lemma_fundamental_div_mod(r.h as int, k as int);
            lemma_mul_inequality(1, k as int, r.h as int / k as int);
        }
        assert(rh == r.h as int / k as int);
    }
    let mut rows: Vec<Rect> = Vec::new();
    let mut i: usize = 0;
    while i < k
        invariant
            r.wf(),
            1 <= k,
            0 <= i <= k,
            rh == r.h as int / k as int,
            rows.len() == i,
            forall|j: int| 0 <= j < i ==> rows[j] == row_rect(r, k as int, j),
            forall|j: int| 0 <= j < i ==> (#[trigger] rows[j]).wf(),
        decreases k - i,
    {
        proof {
            lemma_row_offset_bounded(r.h as int, k as int, i as int);
            lemma_row_offset_bounded(r.h as int, k as int, i as int + 1);
            lemma_row_offset_bounded(r.h as int, k as int, k as int - 1);
        }
        let off: u32 = ((i as u64) * (rh as u64)) as u32;
        let height: u32 = if i == k - 1 {
            r.h - ((k as u64 - 1) * (rh as u64)) as u32
        } else {
            rh
        };
        let row = Rect { x: r.x, y: r.y + off, w: r.w, h: height };
        assert(row == row_rect(r, k as int, i as int));
        assert(row.wf()) by {
            lemma_fundamental_div_mod(r.h as int, k as int);
            assert((i as int + 1) * (rh as int) == i as int * (rh as int) + rh as int)
                by (nonlinear_arith);
        }
        rows.push(row);
        i = i + 1;
    }
    rows
}

/// Split `r` into a left column `wl` pixels wide and the remaining right column.
pub fn split_cols(r: Rect, wl: u32) -> (cols: (Rect, Rect))
    requires
        r.wf(),
        wl <= r.w,
    ensures
        cols.0 == (Rect { x: r.x, y: r.y, w: wl, h: r.h }),
        cols.1 == (Rect { x: (r.x + wl) as u32, y: r.y, w: (r.w - wl) as u32, h: r.h }),
        cols.0.wf(),
        cols.1.wf(),
    {
        (
            Rect { x: r.x, y: r.y, w: wl, h: r.h },
            Rect { x: r.x + wl, y: r.y, w: r.w - wl, h: r.h },
        )
    }

} // verus!
