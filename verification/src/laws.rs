//! The engine's general laws, proved once and for all against the frame
//! model of `rules`: density displacement, stone immobility, settling of a
//! single grain, lateral water spread, edge clamping, and the snapshot
//! (frame-atomicity) discipline.

use vstd::prelude::*;

use crate::element::Element;
use crate::element::SubstanceKind;
use crate::rules::apply_step;
use crate::rules::below_index;
use crate::rules::below_row;
use crate::rules::cells_canonical;
use crate::rules::dest_of;
use crate::rules::diag_index;
use crate::rules::frame;
use crate::rules::frame_upto;
use crate::rules::lateral_index;
use crate::rules::lemma_dest_in_range;
use crate::rules::lemma_dims_pos;
use crate::rules::lemma_frame_upto_canonical;
use crate::rules::lemma_frame_upto_len;
use crate::rules::lemma_grid_pos;
use crate::rules::lemma_index_bound;
use crate::rules::lemma_pos_of_index;
use crate::rules::run_frames;
use crate::rules::side_col;
use crate::rules::swap_cells;

verus! {

/// Density displacement: an updatable substance whose cell below is
/// displaceable — not stationary, or strictly less dense than the mover —
/// always moves straight down, whatever side bias it draws.
pub proof fn lemma_density_displacement(cells: Seq<Element>, w: int, h: int, i: int, bias: bool)
    requires
        0 < w,
        cells.len() == w * h,
        0 <= i < cells.len(),
        cells[i].is_updatable,
        !cells[below_index(i, w, h)].is_stationary || cells[i].density > cells[below_index(
            i,
            w,
            h,
        )].density,
    ensures
        dest_of(cells, w, h, i, bias) == Some(below_index(i, w, h)),
{
}

/// Water spread: when the cell below is blocked (stationary and not less
/// dense) and the diagonally-below cell on the biased side is stationary,
/// but the cell directly beside on the biased side is not, water takes the
/// lateral tier. With the bias drawn toward a blocked side the cell stays
/// put instead: only the biased side is ever tried in a frame.
pub proof fn lemma_water_spread(cells: Seq<Element>, w: int, h: int, i: int, bias: bool)
    requires
        0 < w,
        cells.len() == w * h,
        0 <= i < cells.len(),
        cells[i].is_updatable,
        cells[i].kind == SubstanceKind::Water,
        cells[below_index(i, w, h)].is_stationary,
        !(cells[i].density > cells[below_index(i, w, h)].density),
        cells[diag_index(i, w, h, bias)].is_stationary,
        !cells[lateral_index(i, w, bias)].is_stationary,
    ensures
        dest_of(cells, w, h, i, bias) == Some(lateral_index(i, w, bias)),
{
}

/// Edge clamp: a cell in the leftmost column whose bias points left never
/// targets an index outside the buffer and never wraps to the right edge:
/// every destination it can pick lies in column zero.
pub proof fn lemma_edge_clamp(cells: Seq<Element>, w: int, h: int, i: int)
    requires
        0 < w,
        cells.len() == w * h,
        0 <= i < cells.len(),
        i % w == 0,
    ensures
        match dest_of(cells, w, h, i, true) {
            Some(j) => 0 <= j < cells.len() && j % w == 0,
            None => true,
        },
{
    lemma_dest_in_range(cells, w, h, i, true);
    lemma_grid_pos(i, w, h);
    let y = i / w;
    let r = below_row(y, h);
    assert(side_col(i, w, true) == 0);
    assert(below_index(i, w, h) == r * w);
    assert(diag_index(i, w, h, true) == r * w);
    assert(lateral_index(i, w, true) == y * w);
    vstd::arithmetic::div_mod::lemma_mod_multiples_basic(r, w);
    vstd::arithmetic::div_mod::lemma_mod_multiples_basic(y, w);
}

/// On a canonical grid a move never starts from a stone cell and never
/// targets one: stone is not updatable, is stationary, and no movable
/// substance is denser than it.
proof fn lemma_dest_not_stone(cells: Seq<Element>, w: int, h: int, i: int, bias: bool)
    requires
        0 < w,
        cells.len() == w * h,
        0 <= i < cells.len(),
        cells_canonical(cells),
    ensures
        match dest_of(cells, w, h, i, bias) {
            Some(j) => cells[i].kind != SubstanceKind::Stone && cells[j].kind
                != SubstanceKind::Stone,
            None => true,
        },
{
    lemma_grid_pos(i, w, h);
    let x = i % w;
    let y = i / w;
    let cx = side_col(i, w, bias);
    lemma_index_bound(x, below_row(y, h), w, h);
    lemma_index_bound(cx, below_row(y, h), w, h);
    lemma_index_bound(cx, y, w, h);
    assert(cells[i].is_canonical());
    assert(cells[below_index(i, w, h)].is_canonical());
    assert(cells[diag_index(i, w, h, bias)].is_canonical());
    assert(cells[lateral_index(i, w, bias)].is_canonical());
}

/// Any prefix of a frame holds stone in exactly the snapshot's stone cells.
proof fn lemma_stone_fixed_upto(cells: Seq<Element>, w: int, h: int, biases: Seq<bool>, n: int)
    requires
        0 < w,
        cells.len() == w * h,
        cells_canonical(cells),
        0 <= n <= cells.len(),
    ensures
        forall|k: int|
            0 <= k < cells.len() ==> ((#[trigger] frame_upto(cells, w, h, biases, n)[k]).kind
                == SubstanceKind::Stone <==> cells[k].kind == SubstanceKind::Stone),
    decreases n,
{
    if n > 0 {
        lemma_stone_fixed_upto(cells, w, h, biases, n - 1);
        lemma_frame_upto_len(cells, w, h, biases, n - 1);
        lemma_dest_in_range(cells, w, h, n - 1, biases[n - 1]);
        lemma_dest_not_stone(cells, w, h, n - 1, biases[n - 1]);
        let prev = frame_upto(cells, w, h, biases, n - 1);
        let cur = frame_upto(cells, w, h, biases, n);
        match dest_of(cells, w, h, n - 1, biases[n - 1]) {
            Some(j) => {
                assert(cur == swap_cells(prev, n - 1, j));
                assert forall|k: int|
                    0 <= k < cells.len() implies ((#[trigger] cur[k]).kind == SubstanceKind::Stone
                    <==> cells[k].kind == SubstanceKind::Stone) by {
                    if k == j {
                        assert(cur[k] == prev[n - 1]);
                    } else if k == n - 1 {
                        assert(cur[k] == prev[j]);
                    } else {
                        assert(cur[k] == prev[k]);
                    }
                }
            },
            None => {},
        }
    }
}

/// Stone immobility, one frame: a frame of a canonical grid leaves stone in
/// exactly the cells that held stone before.
pub proof fn lemma_stone_immobility_frame(cells: Seq<Element>, w: int, h: int, biases: Seq<bool>)
    requires
        0 <= w,
        0 <= h,
        cells.len() == w * h,
        cells_canonical(cells),
    ensures
        forall|k: int|
            0 <= k < cells.len() ==> ((#[trigger] frame(cells, w, h, biases)[k]).kind
                == SubstanceKind::Stone <==> cells[k].kind == SubstanceKind::Stone),
{
    if cells.len() > 0 {
        lemma_dims_pos(w, h, 0);
        lemma_stone_fixed_upto(cells, w, h, biases, cells.len() as int);
    }
}

/// Stone immobility: however many frames run, and whatever biases each one
/// draws, no stone cell of a canonical grid ever changes position.
pub proof fn lemma_stone_immobility(cells: Seq<Element>, w: int, h: int, biasess: Seq<Seq<bool>>)
    requires
        0 <= w,
        0 <= h,
        cells.len() == w * h,
        cells_canonical(cells),
    ensures
        forall|k: int|
            0 <= k < cells.len() ==> ((#[trigger] run_frames(cells, w, h, biasess)[k]).kind
                == SubstanceKind::Stone <==> cells[k].kind == SubstanceKind::Stone),
    decreases biasess.len(),
{
    if biasess.len() > 0 {
        let next = frame(cells, w, h, biasess[0]);
        lemma_stone_immobility_frame(cells, w, h, biasess[0]);
        if cells.len() > 0 {
            lemma_dims_pos(w, h, 0);
            lemma_frame_upto_len(cells, w, h, biasess[0], cells.len() as int);
            lemma_frame_upto_canonical(cells, w, h, biasess[0], cells.len() as int);
        }
        lemma_stone_immobility(next, w, h, biasess.subrange(1, biasess.len() as int));
    }
}

/// A grid that is all air over a stone floor on the bottom row, except for
/// a single grain of sand at `(x, y)`.
pub open spec fn settling_grid(w: int, h: int, x: int, y: int) -> Seq<Element> {
    Seq::new(
        (w * h) as nat,
        |i: int|
            if i == y * w + x {
                Element::sand_spec()
            } else if i >= w * (h - 1) {
                Element::stone_spec()
            } else {
                Element::air_spec()
            },
    )
}

/// When every cell but `i0` stays put, the whole frame reduces to the one
/// step of cell `i0`.
proof fn lemma_frame_single_mover_upto(
    cells: Seq<Element>,
    w: int,
    h: int,
    biases: Seq<bool>,
    i0: int,
    n: int,
)
    requires
        0 <= i0 < cells.len(),
        0 <= n <= cells.len(),
        forall|i: int|
            0 <= i < cells.len() && i != i0 ==> (#[trigger] dest_of(cells, w, h, i, biases[i]))
                is None,
    ensures
        frame_upto(cells, w, h, biases, n) == (if n > i0 {
            apply_step(cells, cells, w, h, i0, biases[i0])
        } else {
            cells
        }),
    decreases n,
{
    if n > 0 {
        lemma_frame_single_mover_upto(cells, w, h, biases, i0, n - 1);
    }
}

/// The row that a flat index within coordinates `(x, y)` lies on decides
/// whether it falls on the stone floor.
proof fn lemma_floor_row(w: int, h: int, x: int, y: int)
    requires
        0 <= x < w,
        0 <= y < h,
    ensures
        (y * w + x >= w * (h - 1)) <==> (y == h - 1),
{
    assert((y * w + x >= w * (h - 1)) <==> (y == h - 1)) by (nonlinear_arith)
        requires
            0 <= x < w,
            0 <= y < h,
    ;
}

/// Settling, one frame: the single grain of sand above an all-air column
/// falls exactly one row, and once it rests on the row above the stone
/// floor the frame leaves the grid unchanged — whatever biases are drawn.
pub proof fn lemma_settling_step(w: int, h: int, x: int, y: int, biases: Seq<bool>)
    requires
        0 < w,
        2 <= h,
        0 <= x < w,
        0 <= y <= h - 2,
    ensures
        frame(settling_grid(w, h, x, y), w, h, biases) == settling_grid(
            w,
            h,
            x,
            if y < h - 2 {
                y + 1
            } else {
                y
            },
        ),
{
    let g = settling_grid(w, h, x, y);
    let i0 = y * w + x;
    lemma_index_bound(x, y, w, h);
    lemma_pos_of_index(x, y, w, h);
    lemma_floor_row(w, h, x, y);
    assert forall|i: int|
        0 <= i < g.len() && i != i0 implies (#[trigger] dest_of(g, w, h, i, biases[i])) is None by {
        assert(g[i] == Element::stone_spec() || g[i] == Element::air_spec());
    }
    lemma_frame_single_mover_upto(g, w, h, biases, i0, g.len() as int);
    assert(below_row(y, h) == y + 1);
    let bi = below_index(i0, w, h);
    assert(bi == (y + 1) * w + x);
    lemma_index_bound(x, y + 1, w, h);
    lemma_floor_row(w, h, x, y + 1);
    assert(bi != i0) by (nonlinear_arith)
        requires
            0 < w,
            bi == (y + 1) * w + x,
            i0 == y * w + x,
    ;
    if y < h - 2 {
        assert(g[bi] == Element::air_spec());
        assert(dest_of(g, w, h, i0, biases[i0]) == Some(bi));
        let res = swap_cells(g, i0, bi);
        let tgt = settling_grid(w, h, x, y + 1);
        assert forall|k: int| 0 <= k < res.len() implies res[k] == tgt[k] by {
            if k == i0 {
                assert(res[k] == g[bi]);
            } else if k == bi {
                assert(res[k] == g[i0]);
            } else {
                assert(res[k] == g[k]);
            }
        }
        assert(res =~= tgt);
    } else {
        assert(g[bi] == Element::stone_spec());
        assert(0 <= side_col(i0, w, biases[i0]) < w);
        assert(diag_index(i0, w, h, biases[i0]) == (y + 1) * w + side_col(i0, w, biases[i0]));
        lemma_index_bound(side_col(i0, w, biases[i0]), y + 1, w, h);
        lemma_floor_row(w, h, side_col(i0, w, biases[i0]), y + 1);
        assert(g[diag_index(i0, w, h, biases[i0])].is_stationary);
        assert(dest_of(g, w, h, i0, biases[i0]) is None);
        assert(frame(g, w, h, biases) == g);
    }
}

/// Settling: a grain of sand at `(x, y)` above an otherwise all-air column
/// of height `h` with a stone floor falls one row per frame until it rests
/// on row `h - 2`, adjacent to the floor, and stays there on every later
/// frame — whatever biases each frame draws.
pub proof fn lemma_settling(w: int, h: int, x: int, y: int, biasess: Seq<Seq<bool>>)
    requires
        0 < w,
        2 <= h,
        0 <= x < w,
        0 <= y <= h - 2,
    ensures
        run_frames(settling_grid(w, h, x, y), w, h, biasess) == settling_grid(
            w,
            h,
            x,
            if y + biasess.len() < h - 2 {
                y + biasess.len()
            } else {
                h - 2
            },
        ),
    decreases biasess.len(),
{
    if biasess.len() > 0 {
        lemma_settling_step(w, h, x, y, biasess[0]);
        let y2 = if y < h - 2 {
            y + 1
        } else {
            y
        };
        lemma_settling(w, h, x, y2, biasess.subrange(1, biasess.len() as int));
    }
}

/// The frame-atomicity scenario: two stacked water cells over one air cell
/// and the stone floor, in a single-column grid.
pub open spec fn stacked_liquid_column() -> Seq<Element> {
    seq![
        Element::water_spec(),
        Element::water_spec(),
        Element::air_spec(),
        Element::stone_spec(),
    ]
}

/// Frame atomicity: every movement decision of a frame reads the pre-frame
/// snapshot, never a slot another cell vacated within the same frame. In
/// the stacked column only the lower water cell falls on the first frame —
/// the upper one still sees its neighbour below in the snapshot — and the
/// upper cell follows into the vacated cell only on the second frame,
/// whatever biases the two frames draw.
pub proof fn lemma_frame_atomicity(biases1: Seq<bool>, biases2: Seq<bool>)
    ensures
        frame(stacked_liquid_column(), 1, 4, biases1) == seq![
            Element::water_spec(),
            Element::air_spec(),
            Element::water_spec(),
            Element::stone_spec(),
        ],
        frame(frame(stacked_liquid_column(), 1, 4, biases1), 1, 4, biases2) == seq![
            Element::air_spec(),
            Element::water_spec(),
            Element::water_spec(),
            Element::stone_spec(),
        ],
{
    let c0 = stacked_liquid_column();
    assert(c0.len() == 4);
    assert(dest_of(c0, 1, 4, 0, biases1[0]) is None);
    assert(dest_of(c0, 1, 4, 1, biases1[1]) == Some(2int));
    assert(dest_of(c0, 1, 4, 2, biases1[2]) is None);
    assert(dest_of(c0, 1, 4, 3, biases1[3]) is None);
    let s1 = swap_cells(c0, 1, 2);
    assert(frame_upto(c0, 1, 4, biases1, 0) == c0);
    assert(frame_upto(c0, 1, 4, biases1, 1) == c0);
    assert(frame_upto(c0, 1, 4, biases1, 2) == s1);
    assert(frame_upto(c0, 1, 4, biases1, 3) == s1);
    assert(frame_upto(c0, 1, 4, biases1, 4) == s1);
    let mid = seq![
        Element::water_spec(),
        Element::air_spec(),
        Element::water_spec(),
        Element::stone_spec(),
    ];
    assert(s1 =~= mid);
    assert(frame(c0, 1, 4, biases1) == mid);
    assert(dest_of(mid, 1, 4, 0, biases2[0]) == Some(1int));
    assert(dest_of(mid, 1, 4, 1, biases2[1]) is None);
    assert(dest_of(mid, 1, 4, 2, biases2[2]) is None);
    assert(dest_of(mid, 1, 4, 3, biases2[3]) is None);
    let s2 = swap_cells(mid, 0, 1);
    assert(frame_upto(mid, 1, 4, biases2, 0) == mid);
    assert(frame_upto(mid, 1, 4, biases2, 1) == s2);
    assert(frame_upto(mid, 1, 4, biases2, 2) == s2);
    assert(frame_upto(mid, 1, 4, biases2, 3) == s2);
    assert(frame_upto(mid, 1, 4, biases2, 4) == s2);
    assert(s2 =~= seq![
        Element::air_spec(),
        Element::water_spec(),
        Element::water_spec(),
        Element::stone_spec(),
    ]);
}

} // verus!
