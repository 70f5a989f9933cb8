//! The grid engine: two same-sized row-major buffers of substance cells,
//! mutation by dropping substances, the per-frame update step, and rendering
//! into an RGBA pixel buffer.

use vstd::prelude::*;
use vstd::string::StringExecFns;

use crate::element::Element;
use crate::element::SubstanceKind;
use crate::rules::cells_canonical;
use crate::rules::frame;
use crate::rules::frame_upto;
use crate::rules::lemma_dims_pos;
use crate::rules::lemma_frame_upto_canonical;
use crate::rules::lemma_frame_upto_len;
use crate::rules::lemma_index_bound;
use crate::rules::swap_cells;

verus! {

/// The first `n` cells of a row-major buffer of width `w` as text: a line
/// break before each row, then one symbol per cell.
pub open spec fn rendered(cells: Seq<Element>, w: int, n: int) -> Seq<char>
    decreases n,
{
    if n <= 0 {
        Seq::empty()
    } else {
        rendered(cells, w, n - 1) + (if (n - 1) % w == 0 {
            seq!['\n']
        } else {
            Seq::<char>::empty()
        }) + cells[n - 1].symbol_spec()
    }
}

/// Relies on `rand::random::<bool>`: draws one boolean, uniformly at random,
/// independently per call; nothing is promised of the value.
#[verifier::external_body]
fn random_bool() -> bool {
    rand::random()
}

/// A fixed-size 2-D grid of substance cells held as two flat row-major
/// buffers of identical length `width * height` (`index = y * width + x`).
///
/// `matrix` is the current, authoritative state; `scrap_matrix` is the
/// scratch buffer that accumulates a frame's swaps and becomes current when
/// the frame commits. Between public calls the two buffers are always equal.
pub struct World {
    pub width: usize,
    pub height: usize,
    /// The current buffer; host code should mutate it only through the
    /// engine's methods.
    pub matrix: Vec<Element>,
    /// The scratch buffer; host code should mutate it only through the
    /// engine's methods.
    pub scrap_matrix: Vec<Element>,
}

impl World {
    /// The current buffer: the state observed at the start of a frame.
    pub open spec fn cells(self) -> Seq<Element> {
        self.matrix@
    }

    /// The scratch buffer accumulating the frame's swaps.
    pub open spec fn scratch(self) -> Seq<Element> {
        self.scrap_matrix@
    }

    /// Both buffers hold exactly `width * height` cells.
    pub open spec fn dims_ok(self) -> bool {
        &&& self.cells().len() == self.width as int * self.height as int
        &&& self.scratch().len() == self.cells().len()
    }

    /// The resting invariant, established by construction and preserved by
    /// every public operation: correctly sized buffers, scratch synchronized
    /// to current, and every cell a canonical substance value.
    pub open spec fn wf(self) -> bool {
        &&& self.dims_ok()
        &&& self.scratch() == self.cells()
        &&& cells_canonical(self.cells())
    }

    /// Builds a grid with both buffers filled entirely with air.
    pub fn new(width: usize, height: usize) -> (r: World)
        requires
            width * height <= usize::MAX,
        ensures
            r.wf(),
            r.width == width,
            r.height == height,
            forall|i: int| 0 <= i < r.cells().len() ==> r.cells()[i] == Element::air_spec(),
    {
        let size: usize = width * height;
        let mut matrix: Vec<Element> = Vec::new();
        let mut i: usize = 0;
        while i < size
            invariant
                i <= size,
                matrix@.len() == i,
                forall|k: int| 0 <= k < i ==> matrix@[k] == Element::air_spec(),
            decreases size - i,
        {
            matrix.push(Element::air());
            i = i + 1;
        }
        let mut scrap_matrix: Vec<Element> = Vec::new();
        let mut j: usize = 0;
        while j < size
            invariant
                j <= size,
                scrap_matrix@.len() == j,
                forall|k: int| 0 <= k < j ==> scrap_matrix@[k] == Element::air_spec(),
            decreases size - j,
        {
            scrap_matrix.push(Element::air());
            j = j + 1;
        }
        proof {
            assert(matrix@ =~= scrap_matrix@);
        }
        World { width, height, matrix, scrap_matrix }
    }

    /// Seeds the scene: fills the bottom row with stone to form a floor and
    /// synchronizes the scratch buffer to match.
    pub fn setup(&mut self)
        requires
            old(self).wf(),
        ensures
            final(self).wf(),
            final(self).width == old(self).width,
            final(self).height == old(self).height,
            final(self).cells().len() == old(self).cells().len(),
            forall|i: int|
                0 <= i < final(self).cells().len() ==> final(self).cells()[i] == (
                if i >= old(self).width as int * (old(self).height as int - 1) {
                    Element::stone_spec()
                } else {
                    old(self).cells()[i]
                }),
            final(self).scratch() == final(self).cells(),
    {
        if self.height == 0 {
            return;
        }
        let size: usize = self.matrix.len();
        proof {
            assert(self.width as int * (self.height as int - 1) <= self.width as int
                * self.height as int) by (nonlinear_arith)
                requires
                    self.width >= 0,
                    self.height >= 1,
            ;
        }
        let start: usize = self.width * (self.height - 1);
        let mut i: usize = start;
        while i < size
            invariant
                start <= i <= size,
                self.width == old(self).width,
                self.height == old(self).height,
                self.matrix@.len() == size,
                size == old(self).cells().len(),
                self.scrap_matrix@ == old(self).scratch(),
                forall|k: int| start <= k < i ==> self.matrix@[k] == Element::stone_spec(),
                forall|k: int|
                    0 <= k < size && !(start <= k < i) ==> self.matrix@[k] == old(self).cells()[k],
            decreases size - i,
        {
            self.matrix.set(i, Element::stone());
            i = i + 1;
        }
        let mut j: usize = 0;
        while j < size
            invariant
                j <= size,
                self.width == old(self).width,
                self.height == old(self).height,
                self.matrix@.len() == size,
                self.scrap_matrix@.len() == size,
                size == old(self).cells().len(),
                start as int == old(self).width as int * (old(self).height as int - 1),
                forall|k: int| start <= k < size ==> self.matrix@[k] == Element::stone_spec(),
                forall|k: int| 0 <= k < start ==> self.matrix@[k] == old(self).cells()[k],
                forall|k: int| 0 <= k < j ==> self.scrap_matrix@[k] == self.matrix@[k],
            decreases size - j,
        {
            let e = self.matrix[j];
            self.scrap_matrix.set(j, e);
            j = j + 1;
        }
        proof {
            assert(self.scrap_matrix@ =~= self.matrix@);
            assert forall|k: int|
                0 <= k < self.matrix@.len() implies (#[trigger] self.matrix@[k]).is_canonical() by {
                if k < start {
                    assert(self.matrix@[k] == old(self).cells()[k]);
                    assert(old(self).cells()[k].is_canonical());
                }
            }
        }
    }

    /// Writes `element` into the cell at `index` in both buffers: a drop is
    /// immediate, not deferred to the next frame.
    pub fn add(&mut self, element: Element, index: usize)
        requires
            old(self).wf(),
            index < old(self).cells().len(),
            element.is_canonical(),
        ensures
            final(self).wf(),
            final(self).width == old(self).width,
            final(self).height == old(self).height,
            final(self).cells() == old(self).cells().update(index as int, element),
            final(self).scratch() == final(self).cells(),
    {
        self.matrix.set(index, element);
        self.scrap_matrix.set(index, element);
    }

    /// Overwrites the cell at `(x, y)` with a freshly built substance of the
    /// given kind and synchronizes the scratch buffer; coordinates outside
    /// the grid make the call a no-op.
    pub fn drop_substance(&mut self, kind: SubstanceKind, x: usize, y: usize)
        requires
            old(self).wf(),
        ensures
            final(self).wf(),
            final(self).width == old(self).width,
            final(self).height == old(self).height,
            x < old(self).width && y < old(self).height ==> final(self).cells() == old(self)
                .cells()
                .update(
                y as int * old(self).width as int + x as int,
                Element::of_kind_spec(kind),
            ),
            x < old(self).width && y < old(self).height ==> final(self).scratch() == final(self)
                .cells(),
            !(x < old(self).width && y < old(self).height) ==> *final(self) == *old(self),
    {
        if x < self.width && y < self.height {
            proof {
                assert(self.matrix.len() == self.matrix@.len());
                lemma_index_bound(x as int, y as int, self.width as int, self.height as int);
            }
            let idx = self.index(x, y);
            let e = Element::of_kind(kind);
            self.add(e, idx);
        }
    }

    /// A borrow of the cell at `index` in the scratch buffer (equal to the
    /// current buffer whenever the grid is at rest).
    pub fn element(&self, index: usize) -> (r: &Element)
        requires
            index < self.scratch().len(),
        ensures
            *r == self.scratch()[index as int],
    {
        &self.scrap_matrix[index]
    }

    /// A copy of the cell at `index` in the current buffer: the pre-frame
    /// snapshot that every movement decision reads.
    pub fn cell(&self, index: usize) -> (r: Element)
        requires
            index < self.cells().len(),
        ensures
            r == self.cells()[index as int],
    {
        self.matrix[index]
    }

    /// The flat buffer index of the cell at `(x, y)`.
    pub fn index(&self, x: usize, y: usize) -> (r: usize)
        requires
            x < self.width,
            y < self.height,
            self.width as int * self.height as int <= usize::MAX,
        ensures
            r == y as int * self.width as int + x as int,
    {
        proof {
            lemma_index_bound(x as int, y as int, self.width as int, self.height as int);
        }
        x + y * self.width
    }

    /// Exchanges the contents of two cells of the scratch buffer.
    pub fn switch(&mut self, index1: usize, index2: usize)
        requires
            index1 < old(self).scratch().len(),
            index2 < old(self).scratch().len(),
        ensures
            final(self).width == old(self).width,
            final(self).height == old(self).height,
            final(self).cells() == old(self).cells(),
            final(self).scratch() == swap_cells(old(self).scratch(), index1 as int, index2 as int),
    {
        let a = self.scrap_matrix[index1];
        let b = self.scrap_matrix[index2];
        self.scrap_matrix.set(index1, b);
        self.scrap_matrix.set(index2, a);
    }

    /// The grid as text: a line break before each row, then the symbol of
    /// each cell of the current buffer in row-major order.
    pub fn description(&self) -> (r: String)
        requires
            0 < self.width,
        ensures
            r@ == rendered(self.cells(), self.width as int, self.cells().len() as int),
    {
        let mut combined: String = <String as StringExecFns>::from_str("");
        proof {
            reveal_strlit("");
            assert(combined@ =~= rendered(self.cells(), self.width as int, 0));
        }
        let n = self.matrix.len();
        let mut i: usize = 0;
        while i < n
            invariant
                i <= n,
                0 < self.width,
                n == self.cells().len(),
                combined@ == rendered(self.cells(), self.width as int, i as int),
            decreases n - i,
        {
            if i % self.width == 0 {
                combined.append("\n");
                proof {
                    reveal_strlit("\n");
                    assert("\n"@ =~= seq!['\n']);
                }
            }
            let e = self.matrix[i];
            let s = e.symbol();
            combined.append(s);
            i = i + 1;
        }
        combined
    }

    /// Whether `x` is a valid column, without wrapping on negative input.
    pub fn within_bounds(&self, x: i32) -> (r: bool)
        ensures
            r == (0 <= x && (x as int) < self.width as int),
    {
        x >= 0 && (x as usize) < self.width
    }

    /// Advances the grid one frame with an explicitly supplied side bias per
    /// cell: every movement decision reads the pre-frame snapshot, the swaps
    /// accumulate in the scratch buffer in ascending index order, and the
    /// scratch buffer then becomes the new current state.
    pub fn update_with_biases(&mut self, biases: &Vec<bool>)
        requires
            old(self).wf(),
            biases@.len() == old(self).cells().len(),
        ensures
            final(self).wf(),
            final(self).width == old(self).width,
            final(self).height == old(self).height,
            final(self).cells() == frame(
                old(self).cells(),
                old(self).width as int,
                old(self).height as int,
                biases@,
            ),
            final(self).scratch() == final(self).cells(),
    {
        let ghost snap = self.matrix@;
        let ghost w = self.width as int;
        let ghost h = self.height as int;
        let n = self.matrix.len();
        let mut i: usize = 0;
        while i < n
            invariant
                i <= n,
                self.width == old(self).width,
                self.height == old(self).height,
                n == snap.len(),
                snap == old(self).cells(),
                self.cells() == snap,
                snap.len() == w * h,
                w == self.width as int,
                h == self.height as int,
                cells_canonical(snap),
                biases@.len() == n,
                self.scratch() == frame_upto(snap, w, h, biases@, i as int),
                self.scratch().len() == snap.len(),
            decreases n - i,
        {
            proof {
                lemma_dims_pos(w, h, i as int);
                lemma_frame_upto_len(snap, w, h, biases@, i as int + 1);
            }
            let e = self.matrix[i];
            let b = biases[i];
            e.step(self, i, b);
            i = i + 1;
        }
        proof {
            if n > 0 {
                lemma_dims_pos(w, h, 0);
                lemma_frame_upto_canonical(snap, w, h, biases@, n as int);
            }
            assert(frame(snap, w, h, biases@) == frame_upto(snap, w, h, biases@, n as int));
        }
        let ghost committed = self.scrap_matrix@;
        let mut j: usize = 0;
        while j < n
            invariant
                j <= n,
                self.width == old(self).width,
                self.height == old(self).height,
                self.matrix@.len() == n,
                self.scrap_matrix@ == committed,
                committed.len() == n,
                forall|k: int| 0 <= k < j ==> self.matrix@[k] == committed[k],
            decreases n - j,
        {
            let v = self.scrap_matrix[j];
            self.matrix.set(j, v);
            j = j + 1;
        }
        proof {
            assert(self.matrix@ =~= self.scrap_matrix@);
        }
    }

    /// Advances the grid one frame, drawing each cell's side bias uniformly
    /// at random: the result is the deterministic frame function applied to
    /// the old state under some per-cell bias sequence.
    pub fn update(&mut self)
        requires
            old(self).wf(),
        ensures
            final(self).wf(),
            final(self).width == old(self).width,
            final(self).height == old(self).height,
            exists|b: Seq<bool>|
                b.len() == old(self).cells().len() && final(self).cells() == frame(
                    old(self).cells(),
                    old(self).width as int,
                    old(self).height as int,
                    b,
                ),
            final(self).scratch() == final(self).cells(),
    {
        let n = self.matrix.len();
        let mut biases: Vec<bool> = Vec::new();
        let mut i: usize = 0;
        while i < n
            invariant
                i <= n,
                biases@.len() == i,
            decreases n - i,
        {
            biases.push(random_bool());
            i = i + 1;
        }
        self.update_with_biases(&biases);
        proof {
            assert(self.cells() == frame(
                old(self).cells(),
                old(self).width as int,
                old(self).height as int,
                biases@,
            ));
        }
    }

    /// Renders the current state: writes every cell's color into the
    /// corresponding four-byte RGBA slot of `pixel_buffer`, row-major.
    pub fn draw(&self, pixel_buffer: &mut Vec<u8>)
        requires
            self.dims_ok(),
            old(pixel_buffer)@.len() == self.width as int * self.height as int * 4,
        ensures
            final(pixel_buffer)@.len() == old(pixel_buffer)@.len(),
            forall|i: int|
                0 <= i < self.cells().len() ==> {
                    let c = (#[trigger] self.cells()[i]).color;
                    &&& final(pixel_buffer)@[4 * i] == c.r
                    &&& final(pixel_buffer)@[4 * i + 1] == c.g
                    &&& final(pixel_buffer)@[4 * i + 2] == c.b
                    &&& final(pixel_buffer)@[4 * i + 3] == c.a
                },
    {
        let n = self.matrix.len();
        proof {
            assert(pixel_buffer.len() == pixel_buffer@.len());
        }
        let mut i: usize = 0;
        while i < n
            invariant
                i <= n,
                n == self.cells().len(),
                pixel_buffer@.len() == 4 * n,
                pixel_buffer@.len() <= usize::MAX,
                forall|k: int|
                    0 <= k < i ==> {
                        let c = (#[trigger] self.cells()[k]).color;
                        &&& pixel_buffer@[4 * k] == c.r
                        &&& pixel_buffer@[4 * k + 1] == c.g
                        &&& pixel_buffer@[4 * k + 2] == c.b
                        &&& pixel_buffer@[4 * k + 3] == c.a
                    },
            decreases n - i,
        {
            let e = self.matrix[i];
            pixel_buffer.set(4 * i, e.color.r);
            pixel_buffer.set(4 * i + 1, e.color.g);
            pixel_buffer.set(4 * i + 2, e.color.b);
            pixel_buffer.set(4 * i + 3, e.color.a);
            i = i + 1;
        }
    }
}

} // verus!
