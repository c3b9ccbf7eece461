//! The layout engine: pure functions from an ordered client list and a screen
//! rectangle to one placement per client.

use vstd::prelude::*;
use vstd::arithmetic::div_mod::{lemma_div_pos_is_pos, lemma_div_is_ordered,
    lemma_div_multiples_vanish};
use vstd::arithmetic::mul::{lemma_mul_inequality, lemma_mul_is_commutative};
use crate::geometry::{Rect, row_rect, split_rows, split_cols};

verus! {

/// The closed set of layout algorithms a workspace can cycle through.
#[derive(Clone, Copy, PartialEq, Eq, Structural, Debug)]
pub enum LayoutKind {
    /// A main column holding up to `max_main` clients, the rest stacked beside it.
    StackedMain,
    /// Every client gets the full screen; stacking order decides what is seen.
    Monocle,
}

/// Main-area ratios are measured in thousandths of the screen width.
pub const RATIO_UNIT: u32 = 1000;

/// Lowest ratio an adjustment can reach (0.05 of the screen width).
pub const RATIO_MIN: u32 = 50;

/// Highest ratio an adjustment can reach (0.95 of the screen width).
pub const RATIO_MAX: u32 = 950;

/// How far one `update_main_ratio` call moves the ratio (0.05).
pub const RATIO_STEP: u32 = 50;

/// One client together with the rectangle the layout assigned to it.
#[derive(Clone, Copy, PartialEq, Eq, Structural, Debug)]
pub struct Placement {
    pub id: u32,
    pub rect: Rect,
}

/// Width in pixels of the main column: `ratio` thousandths of the screen width,
/// rounded down.
pub open spec fn spec_main_width(w: u32, ratio: u32) -> int {
    w * ratio / (RATIO_UNIT as int)
}

/// The rectangle the stacked-main layout assigns to the client at position `i`
/// of `n`, with at most `m` clients in the main column. When the main column
/// would be empty or would hold every client, the whole screen is used as one
/// column so that the clients still tile it exactly.
pub open spec fn stacked_main_rect(screen: Rect, ratio: u32, n: int, m: int, i: int) -> Rect
    recommends
        0 <= i < n,
{
    if m == 0 || n <= m {
        row_rect(screen, n, i)
    } else {
        let mw = spec_main_width(screen.w, ratio);
        if i < m {
            row_rect(Rect { x: screen.x, y: screen.y, w: mw as u32, h: screen.h }, m, i)
        } else {
            row_rect(
                Rect {
                    x: (screen.x + mw) as u32,
                    y: screen.y,
                    w: (screen.w - mw) as u32,
                    h: screen.h,
                },
                n - m,
                i - m,
            )
        }
    }
}

/// The rectangle a layout assigns to position `i` of `n` visible clients.
pub open spec fn layout_rect(
    kind: LayoutKind,
    screen: Rect,
    ratio: u32,
    n: int,
    m: int,
    i: int,
) -> Rect {
    match kind {
        LayoutKind::StackedMain => stacked_main_rect(screen, ratio, n, m, i),
        LayoutKind::Monocle => screen,
    }
}

/// The main column is never wider than the screen.
pub proof fn lemma_main_width_bounded(w: u32, ratio: u32)
    requires
        ratio <= RATIO_UNIT,
    ensures
        0 <= spec_main_width(w, ratio) <= w,
{
    lemma_div_pos_is_pos(w as int * ratio as int, RATIO_UNIT as int);
    lemma_mul_inequality(ratio as int, RATIO_UNIT as int, w as int);
    lemma_mul_is_commutative(w as int, ratio as int);
    lemma_div_is_ordered(w as int * ratio as int, w as int * RATIO_UNIT as int, RATIO_UNIT as int);
    lemma_div_multiples_vanish(w as int, RATIO_UNIT as int);
    lemma_mul_is_commutative(w as int, RATIO_UNIT as int);
}

/// How the stacked-main layout partitions the screen when both columns are in
/// use (`0 < m < n`): the first `m` clients share the main column, which starts
/// at the screen's left edge and is `ratio` thousandths of the screen wide; the
/// remaining `n - m` clients share the column beside it, which covers exactly
/// the rest of the width; and within each column the rows are disjoint along
/// the stacking axis and tile the screen's full height with no gap.
pub proof fn lemma_stacked_main_partition(screen: Rect, ratio: u32, n: int, m: int)
    requires
        screen.wf(),
        RATIO_MIN <= ratio <= RATIO_MAX,
        0 < m < n,
    ensures
        forall|i: int|
            0 <= i < m ==> (#[trigger] stacked_main_rect(screen, ratio, n, m, i)).x == screen.x
                && stacked_main_rect(screen, ratio, n, m, i).w == spec_main_width(screen.w, ratio),
        forall|i: int|
            m <= i < n ==> (#[trigger] stacked_main_rect(screen, ratio, n, m, i)).x == screen.x
                + spec_main_width(screen.w, ratio) && stacked_main_rect(screen, ratio, n, m, i).w
                == screen.w - spec_main_width(screen.w, ratio),
        stacked_main_rect(screen, ratio, n, m, 0).y == screen.y,
        stacked_main_rect(screen, ratio, n, m, m).y == screen.y,
        forall|i: int|
            0 <= i < m - 1 ==> (#[trigger] stacked_main_rect(screen, ratio, n, m, i + 1)).y
                == stacked_main_rect(screen, ratio, n, m, i).y + stacked_main_rect(
                screen,
                ratio,
                n,
                m,
                i,
            ).h,
        forall|i: int|
            m <= i < n - 1 ==> (#[trigger] stacked_main_rect(screen, ratio, n, m, i + 1)).y
                == stacked_main_rect(screen, ratio, n, m, i).y + stacked_main_rect(
                screen,
                ratio,
                n,
                m,
                i,
            ).h,
        stacked_main_rect(screen, ratio, n, m, m - 1).y + stacked_main_rect(
            screen,
            ratio,
            n,
            m,
            m - 1,
        ).h == screen.y + screen.h,
        stacked_main_rect(screen, ratio, n, m, n - 1).y + stacked_main_rect(
            screen,
            ratio,
            n,
            m,
            n - 1,
        ).h == screen.y + screen.h,
{
    let mw = spec_main_width(screen.w, ratio);
    lemma_main_width_bounded(screen.w, ratio);
    let main_col = Rect { x: screen.x, y: screen.y, w: mw as u32, h: screen.h };
    let stack_col = Rect {
        x: (screen.x + mw) as u32,
        y: screen.y,
        w: (screen.w - mw) as u32,
        h: screen.h,
    };
    crate::geometry::lemma_rows_tile(main_col, m);
    crate::geometry::lemma_rows_tile(stack_col, n - m);
    assert forall|i: int| m <= i < n - 1 implies (#[trigger] stacked_main_rect(
        screen,
        ratio,
        n,
        m,
        i + 1,
    )).y == stacked_main_rect(screen, ratio, n, m, i).y + stacked_main_rect(
        screen,
        ratio,
        n,
        m,
        i,
    ).h by {
        let j = i - m;
        assert(stacked_main_rect(screen, ratio, n, m, i) == row_rect(stack_col, n - m, j));
        assert(stacked_main_rect(screen, ratio, n, m, i + 1) == row_rect(stack_col, n - m, j + 1));
    }
}

/// Width in pixels of the main column for the given ratio.
pub fn main_width(w: u32, ratio: u32) -> (mw: u32)
    requires
        ratio <= RATIO_UNIT,
    ensures
        mw == spec_main_width(w, ratio),
        mw <= w,
{
    proof {
        lemma_main_width_bounded(w, ratio);
    }
    ((w as u64 * ratio as u64) / (RATIO_UNIT as u64)) as u32
}

/// Run a layout over the visible clients of a workspace.
///
/// Pure and total: the `i`-th placement names `clients[i]` and carries exactly
/// `layout_rect(kind, screen, ratio, n, max_main, i)`. The monocle layout gives
/// every client the full screen rectangle.
pub fn apply_layout(
    kind: LayoutKind,
    clients: &Vec<u32>,
    screen: Rect,
    ratio: u32,
    max_main: usize,
) -> (placed: Vec<Placement>)
    requires
        screen.wf(),
        RATIO_MIN <= ratio <= RATIO_MAX,
    ensures
        placed.len() == clients.len(),
        forall|i: int|
            0 <= i < clients.len() ==> (#[trigger] placed[i]).id == clients[i],
        forall|i: int|
            0 <= i < clients.len() ==> (#[trigger] placed[i]).rect == layout_rect(
                kind,
                screen,
                ratio,
                clients.len() as int,
                max_main as int,
                i,
            ),
        forall|i: int| 0 <= i < clients.len() ==> (#[trigger] placed[i]).rect.wf(),
        kind == LayoutKind::Monocle ==> forall|i: int|
            0 <= i < clients.len() ==> (#[trigger] placed[i]).rect == screen,
{
    let n = clients.len();
    let mut placed: Vec<Placement> = Vec::new();
    if n == 0 {
        return placed;
    }
    match kind {
        LayoutKind::Monocle => {
            let mut i: usize = 0;
            while i < n
                invariant
                    n == clients.len(),
                    screen.wf(),
                    0 <= i <= n,
                    placed.len() == i,
                    forall|j: int| 0 <= j < i ==> (#[trigger] placed[j]).id == clients[j],
                    forall|j: int| 0 <= j < i ==> (#[trigger] placed[j]).rect == screen,
                decreases n - i,
            {
                placed.push(Placement { id: clients[i], rect: screen });
                i = i + 1;
            }
        }
        LayoutKind::StackedMain => {
            let ghost gn = n as int;
            let ghost gm = max_main as int;
            if max_main == 0 || n <= max_main {
                let rows = split_rows(screen, n);
                let mut i: usize = 0;
                while i < n
                    invariant
                        n == clients.len(),
                        0 <= i <= n,
                        placed.len() == i,
                        rows.len() == n,
                        gm == max_main as int,
                        gm == 0 || gn <= gm,
                        gn == n as int,
                        forall|j: int| 0 <= j < n ==> rows[j] == row_rect(screen, gn, j),
                        forall|j: int| 0 <= j < n ==> (#[trigger] rows[j]).wf(),
                        forall|j: int| 0 <= j < i ==> (#[trigger] placed[j]).id == clients[j],
                        forall|j: int|
                            0 <= j < i ==> (#[trigger] placed[j]).rect == stacked_main_rect(
                                screen,
                                ratio,
                                gn,
                                gm,
                                j,
                            ),
                        forall|j: int| 0 <= j < i ==> (#[trigger] placed[j]).rect.wf(),
                    decreases n - i,
                {
                    placed.push(Placement { id: clients[i], rect: rows[i] });
                    i = i + 1;
                }
            } else {
                let mw = main_width(screen.w, ratio);
                let (main_col, stack_col) = split_cols(screen, mw);
                let main_rows = split_rows(main_col, max_main);
                let stack_rows = split_rows(stack_col, n - max_main);
                let mut i: usize = 0;
                while i < n
                    invariant
                        n == clients.len(),
                        0 <= i <= n,
                        placed.len() == i,
                        gm == max_main as int,
                        gn == n as int,
                        0 < gm < gn,
                        mw == spec_main_width(screen.w, ratio),
                        main_col == (Rect { x: screen.x, y: screen.y, w: mw, h: screen.h }),
                        stack_col == (Rect {
                            x: (screen.x + mw) as u32,
                            y: screen.y,
                            w: (screen.w - mw) as u32,
                            h: screen.h,
                        }),
                        main_rows.len() == gm,
                        stack_rows.len() == gn - gm,
                        forall|j: int| 0 <= j < gm ==> main_rows[j] == row_rect(main_col, gm, j),
                        forall|j: int| 0 <= j < gm ==> (#[trigger] main_rows[j]).wf(),
                        forall|j: int|
                            0 <= j < gn - gm ==> stack_rows[j] == row_rect(stack_col, gn - gm, j),
                        forall|j: int| 0 <= j < gn - gm ==> (#[trigger] stack_rows[j]).wf(),
                        forall|j: int| 0 <= j < i ==> (#[trigger] placed[j]).id == clients[j],
                        forall|j: int|
                            0 <= j < i ==> (#[trigger] placed[j]).rect == stacked_main_rect(
                                screen,
                                ratio,
                                gn,
                                gm,
                                j,
                            ),
                        forall|j: int| 0 <= j < i ==> (#[trigger] placed[j]).rect.wf(),
                    decreases n - i,
                {
                    let rect = if i < max_main {
                        main_rows[i]
                    } else {
                        stack_rows[i - max_main]
                    };
                    placed.push(Placement { id: clients[i], rect });
                    i = i + 1;
                }
            }
        }
    }
    placed
}

} // verus!
