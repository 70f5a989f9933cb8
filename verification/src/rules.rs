//! The mathematical model of one simulation frame: where each cell's
//! substance decides to move, and how the frame's swaps accumulate in the
//! scratch buffer.
//!
//! A grid of `width * height` cells is a flat row-major sequence
//! (`index = y * width + x`). Every movement decision of a frame reads the
//! pre-frame snapshot only; the swaps it orders are applied, in ascending
//! index order, to a scratch copy of the snapshot.

use vstd::prelude::*;

use crate::element::Element;
use crate::element::SubstanceKind;

verus! {

/// Every cell of the sequence holds one of the four canonical descriptors.
pub open spec fn cells_canonical(cells: Seq<Element>) -> bool {
    forall|i: int| 0 <= i < cells.len() ==> (#[trigger] cells[i]).is_canonical()
}

/// The row directly below `y`, clamped to the last row (a bottom-row cell
/// targets its own row rather than wrapping or running off the grid).
pub open spec fn below_row(y: int, h: int) -> int {
    if y + 1 < h {
        y + 1
    } else {
        h - 1
    }
}

/// `x` clamped into the valid column range `[0, w)`; an edge column's
/// sideways target stays on the same edge rather than wrapping.
pub open spec fn clamp_col(x: int, w: int) -> int {
    if x < 0 {
        0
    } else if x >= w {
        w - 1
    } else {
        x
    }
}

/// The index of the cell directly below `i`, with the row clamped to the
/// bottom of the grid.
pub open spec fn below_index(i: int, w: int, h: int) -> int {
    below_row(i / w, h) * w + i % w
}

/// The column beside `i` on the biased side (`true` means left), clamped to
/// the grid.
pub open spec fn side_col(i: int, w: int, bias: bool) -> int {
    clamp_col(
        if bias {
            i % w - 1
        } else {
            i % w + 1
        },
        w,
    )
}

/// The index of the cell diagonally below `i` on the biased side, row and
/// column clamped to the grid.
pub open spec fn diag_index(i: int, w: int, h: int, bias: bool) -> int {
    below_row(i / w, h) * w + side_col(i, w, bias)
}

/// The index of the cell directly beside `i` on the biased side, column
/// clamped to the grid.
pub open spec fn lateral_index(i: int, w: int, bias: bool) -> int {
    (i / w) * w + side_col(i, w, bias)
}

/// The destination the cell at index `i` moves to this frame, decided from
/// the pre-frame snapshot `cells` alone, or `None` if it does not move.
///
/// `bias` is the cell's uniformly random side preference for this frame:
/// `true` means left, `false` means right.
///
/// The tiers, in order:
/// - not updatable (air, stone): no move;
/// - displacement: the cell below is not stationary, or is strictly less
///   dense than the mover: move straight down;
/// - diagonal: the diagonally-below cell on the biased side (column
///   clamped at the grid edge) is not stationary: move there;
/// - lateral (water only): the cell directly beside on the biased side is
///   not stationary: move there.
pub open spec fn dest_of(cells: Seq<Element>, w: int, h: int, i: int, bias: bool) -> Option<int>
    recommends
        0 < w,
        cells.len() == w * h,
        0 <= i < cells.len(),
{
    let e = cells[i];
    if !e.is_updatable {
        None
    } else {
        let bi = below_index(i, w, h);
        let below = cells[bi];
        if !below.is_stationary || e.density > below.density {
            Some(bi)
        } else {
            let di = diag_index(i, w, h, bias);
            let diag = cells[di];
            if !diag.is_stationary {
                Some(di)
            } else if e.kind == SubstanceKind::Water {
                let si = lateral_index(i, w, bias);
                let side = cells[si];
                if !side.is_stationary {
                    Some(si)
                } else {
                    None
                }
            } else {
                None
            }
        }
    }
}

/// The sequence with the contents of indices `i` and `j` exchanged.
pub open spec fn swap_cells(s: Seq<Element>, i: int, j: int) -> Seq<Element>
    recommends
        0 <= i < s.len(),
        0 <= j < s.len(),
{
    s.update(i, s[j]).update(j, s[i])
}

/// One cell's contribution to the frame: the swap ordered by
/// `dest_of(cells, .., i, bias)` applied to the scratch accumulated so far.
pub open spec fn apply_step(
    scratch: Seq<Element>,
    cells: Seq<Element>,
    w: int,
    h: int,
    i: int,
    bias: bool,
) -> Seq<Element> {
    match dest_of(cells, w, h, i, bias) {
        Some(j) => swap_cells(scratch, i, j),
        None => scratch,
    }
}

/// The scratch buffer after the first `n` cells of the frame have been
/// processed in ascending index order; the scratch starts as the snapshot
/// itself, and every decision reads the snapshot `cells`, never the
/// scratch.
pub open spec fn frame_upto(
    cells: Seq<Element>,
    w: int,
    h: int,
    biases: Seq<bool>,
    n: int,
) -> Seq<Element>
    decreases n,
{
    if n <= 0 {
        cells
    } else {
        apply_step(frame_upto(cells, w, h, biases, n - 1), cells, w, h, n - 1, biases[n - 1])
    }
}

/// The grid after one whole frame: every cell processed once, in ascending
/// row-major order, with per-cell side bias `biases[i]`.
pub open spec fn frame(cells: Seq<Element>, w: int, h: int, biases: Seq<bool>) -> Seq<Element> {
    frame_upto(cells, w, h, biases, cells.len() as int)
}

/// The grid after a sequence of whole frames, each frame with its own
/// per-cell bias sequence.
pub open spec fn run_frames(
    cells: Seq<Element>,
    w: int,
    h: int,
    biasess: Seq<Seq<bool>>,
) -> Seq<Element>
    decreases biasess.len(),
{
    if biasess.len() <= 0 {
        cells
    } else {
        run_frames(frame(cells, w, h, biasess[0]), w, h, biasess.subrange(1, biasess.len() as int))
    }
}

/// The flat index `y * w + x` decomposes back into the column `x` and the
/// row `y`.
pub proof fn lemma_pos_of_index(x: int, y: int, w: int, h: int)
    requires
        0 <= x < w,
        0 <= y < h,
    ensures
        (y * w + x) % w == x,
        (y * w + x) / w == y,
{
    vstd::arithmetic::div_mod::lemma_fundamental_div_mod_converse_mod(y * w + x, w, y, x);
    vstd::arithmetic::div_mod::lemma_fundamental_div_mod_converse_div(y * w + x, w, y, x);
}

/// A buffer of `w * h` cells with at least one valid index has a positive
/// width and height.
pub proof fn lemma_dims_pos(w: int, h: int, i: int)
    requires
        0 <= w,
        0 <= h,
        0 <= i < w * h,
    ensures
        0 < w,
        0 < h,
{
    assert(0 < w && 0 < h) by (nonlinear_arith)
        requires
            0 <= w,
            0 <= h,
            0 <= i < w * h,
    ;
}

/// A coordinate pair inside the grid names a flat index inside the buffer.
pub proof fn lemma_index_bound(x: int, y: int, w: int, h: int)
    requires
        0 <= x < w,
        0 <= y < h,
    ensures
        0 <= y * w + x < w * h,
{
    assert(0 <= y * w + x < w * h) by (nonlinear_arith)
        requires
            0 <= x < w,
            0 <= y < h,
    ;
}

/// A flat index inside the buffer decomposes into in-range coordinates.
pub proof fn lemma_grid_pos(i: int, w: int, h: int)
    requires
        0 < w,
        0 <= i < w * h,
    ensures
        0 <= i % w < w,
        0 <= i / w < h,
        (i / w) * w + i % w == i,
        0 < h,
{
    vstd::arithmetic::div_mod::lemma_fundamental_div_mod(i, w);
    vstd::arithmetic::div_mod::lemma_mod_bound(i, w);
    assert((i / w) * w == w * (i / w)) by (nonlinear_arith);
    assert(0 < h) by (nonlinear_arith)
        requires
            0 < w,
            0 <= i < w * h,
    ;
    assert(0 <= i / w < h) by (nonlinear_arith)
        requires
            0 < w,
            0 <= i < w * h,
            i == w * (i / w) + i % w,
            0 <= i % w < w,
    ;
}

/// Wherever a cell decides to move, its destination is a valid index: the
/// clamped row and column arithmetic never leaves the buffer.
pub proof fn lemma_dest_in_range(cells: Seq<Element>, w: int, h: int, i: int, bias: bool)
    requires
        0 < w,
        cells.len() == w * h,
        0 <= i < cells.len(),
    ensures
        match dest_of(cells, w, h, i, bias) {
            Some(j) => 0 <= j < cells.len(),
            None => true,
        },
{
    lemma_grid_pos(i, w, h);
    let x = i % w;
    let y = i / w;
    let row = below_row(y, h);
    let cx = clamp_col(if bias { x - 1 } else { x + 1 }, w);
    lemma_index_bound(x, row, w, h);
    lemma_index_bound(cx, row, w, h);
    lemma_index_bound(cx, y, w, h);
}

/// Processing any prefix of a frame keeps the buffer's length.
pub proof fn lemma_frame_upto_len(cells: Seq<Element>, w: int, h: int, biases: Seq<bool>, n: int)
    requires
        0 < w,
        cells.len() == w * h,
        0 <= n <= cells.len(),
    ensures
        frame_upto(cells, w, h, biases, n).len() == cells.len(),
    decreases n,
{
    if n > 0 {
        lemma_frame_upto_len(cells, w, h, biases, n - 1);
        lemma_dest_in_range(cells, w, h, n - 1, biases[n - 1]);
    }
}

/// A frame never manufactures a substance value: if every cell of the
/// snapshot is canonical, so is every cell of any processed prefix.
pub proof fn lemma_frame_upto_canonical(
    cells: Seq<Element>,
    w: int,
    h: int,
    biases: Seq<bool>,
    n: int,
)
    requires
        0 < w,
        cells.len() == w * h,
        cells_canonical(cells),
        0 <= n <= cells.len(),
    ensures
        cells_canonical(frame_upto(cells, w, h, biases, n)),
    decreases n,
{
    if n > 0 {
        lemma_frame_upto_canonical(cells, w, h, biases, n - 1);
        lemma_frame_upto_len(cells, w, h, biases, n - 1);
        lemma_dest_in_range(cells, w, h, n - 1, biases[n - 1]);
        let prev = frame_upto(cells, w, h, biases, n - 1);
        let cur = frame_upto(cells, w, h, biases, n);
        match dest_of(cells, w, h, n - 1, biases[n - 1]) {
            Some(j) => {
                assert(forall|k: int|
                    0 <= k < cur.len() ==> (#[trigger] cur[k]) == prev[k] || cur[k] == prev[j]
                        || cur[k] == prev[n - 1]);
            },
            None => {},
        }
    }
}

} // verus!
