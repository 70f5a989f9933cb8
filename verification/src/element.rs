//! The substance registry: the closed set of substance kinds and the static
//! physical properties attached to each (display color, mobility flags,
//! density).

use vstd::prelude::*;

use crate::rules::apply_step;
use crate::rules::cells_canonical;
use crate::rules::dest_of;
use crate::rules::lemma_dims_pos;
use crate::rules::lemma_grid_pos;
use crate::rules::lemma_index_bound;
use crate::world::World;

verus! {

/// The closed set of substances a cell can hold.
#[derive(Clone, Copy, PartialEq, Eq, Structural, Debug)]
pub enum SubstanceKind {
    Air,
    Stone,
    Sand,
    Water,
}

/// A display color, four bytes per cell in RGBA order.
#[derive(Clone, Copy, PartialEq, Eq, Structural, Debug)]
pub struct Rgba {
    pub r: u8,
    pub g: u8,
    pub b: u8,
    pub a: u8,
}

/// The static descriptor attached to every grid cell: a substance kind plus
/// the physical properties the update algorithm reads.
///
/// Densities are stored in integer half-units (air 0, water 1, sand and
/// stone 2); only the strict order between two densities ever matters.
#[derive(Clone, Copy, PartialEq, Eq, Structural, Debug)]
pub struct Element {
    pub kind: SubstanceKind,
    pub color: Rgba,
    /// Once settled, this substance does not move without an external push.
    /// Air is the only substance with `is_stationary == false`: every
    /// movement rule treats it as freely displaceable.
    pub is_stationary: bool,
    /// Whether this substance participates in the per-frame movement
    /// algorithm at all (sand and water do; air and stone do not).
    pub is_updatable: bool,
    /// Density in half-units; decides which of two vertically adjacent
    /// substances displaces the other.
    pub density: u32,
}

impl Element {
    /// The air descriptor: empty space, freely displaceable, never updated.
    pub open spec fn air_spec() -> Element {
        Element {
            kind: SubstanceKind::Air,
            color: Rgba { r: 0x00, g: 0x00, b: 0x00, a: 0xff },
            is_stationary: false,
            is_updatable: false,
            density: 0,
        }
    }

    /// The stone descriptor: immovable solid, never updated.
    pub open spec fn stone_spec() -> Element {
        Element {
            kind: SubstanceKind::Stone,
            color: Rgba { r: 0x7f, g: 0x7f, b: 0x7f, a: 0xff },
            is_stationary: true,
            is_updatable: false,
            density: 2,
        }
    }

    /// The sand descriptor: movable solid.
    pub open spec fn sand_spec() -> Element {
        Element {
            kind: SubstanceKind::Sand,
            color: Rgba { r: 0x5e, g: 0x48, b: 0x00, a: 0xff },
            is_stationary: true,
            is_updatable: true,
            density: 2,
        }
    }

    /// The water descriptor: liquid, less dense than sand.
    pub open spec fn water_spec() -> Element {
        Element {
            kind: SubstanceKind::Water,
            color: Rgba { r: 0x5e, g: 0x48, b: 0xe8, a: 0xff },
            is_stationary: true,
            is_updatable: true,
            density: 1,
        }
    }

    /// The canonical descriptor for a kind.
    pub open spec fn of_kind_spec(kind: SubstanceKind) -> Element {
        match kind {
            SubstanceKind::Air => Element::air_spec(),
            SubstanceKind::Stone => Element::stone_spec(),
            SubstanceKind::Sand => Element::sand_spec(),
            SubstanceKind::Water => Element::water_spec(),
        }
    }

    /// Whether this value is one of the four canonical descriptors; every
    /// cell of a well-formed grid holds a canonical value.
    pub open spec fn is_canonical(self) -> bool {
        self == Element::of_kind_spec(self.kind)
    }

    pub fn air() -> (r: Element)
        ensures
            r == Element::air_spec(),
    {
        Element {
            kind: SubstanceKind::Air,
            color: Rgba { r: 0x00, g: 0x00, b: 0x00, a: 0xff },
            is_stationary: false,
            is_updatable: false,
            density: 0,
        }
    }

    pub fn stone() -> (r: Element)
        ensures
            r == Element::stone_spec(),
    {
        Element {
            kind: SubstanceKind::Stone,
            color: Rgba { r: 0x7f, g: 0x7f, b: 0x7f, a: 0xff },
            is_stationary: true,
            is_updatable: false,
            density: 2,
        }
    }

    pub fn sand() -> (r: Element)
        ensures
            r == Element::sand_spec(),
    {
        Element {
            kind: SubstanceKind::Sand,
            color: Rgba { r: 0x5e, g: 0x48, b: 0x00, a: 0xff },
            is_stationary: true,
            is_updatable: true,
            density: 2,
        }
    }

    pub fn water() -> (r: Element)
        ensures
            r == Element::water_spec(),
    {
        Element {
            kind: SubstanceKind::Water,
            color: Rgba { r: 0x5e, g: 0x48, b: 0xe8, a: 0xff },
            is_stationary: true,
            is_updatable: true,
            density: 1,
        }
    }

    /// Builds the canonical descriptor for the given kind.
    pub fn of_kind(kind: SubstanceKind) -> (r: Element)
        ensures
            r == Element::of_kind_spec(kind),
            r.is_canonical(),
    {
        match kind {
            SubstanceKind::Air => Element::air(),
            SubstanceKind::Stone => Element::stone(),
            SubstanceKind::Sand => Element::sand(),
            SubstanceKind::Water => Element::water(),
        }
    }

    /// The one-character text symbol that stands for this substance in a
    /// textual rendering of the grid.
    pub open spec fn symbol_spec(self) -> Seq<char> {
        match self.kind {
            SubstanceKind::Air => seq!['.'],
            SubstanceKind::Stone => seq!['#'],
            SubstanceKind::Sand => seq!['*'],
            SubstanceKind::Water => seq!['~'],
        }
    }

    /// The text symbol for this substance.
    pub fn symbol(&self) -> (r: &'static str)
        ensures
            r@ == self.symbol_spec(),
    {
        match self.kind {
            SubstanceKind::Air => {
                proof {
                    reveal_strlit(".");
                    assert("."@ =~= seq!['.']);
                }
                "."
            },
            SubstanceKind::Stone => {
                proof {
                    reveal_strlit("#");
                    assert("#"@ =~= seq!['#']);
                }
                "#"
            },
            SubstanceKind::Sand => {
                proof {
                    reveal_strlit("*");
                    assert("*"@ =~= seq!['*']);
                }
                "*"
            },
            SubstanceKind::Water => {
                proof {
                    reveal_strlit("~");
                    assert("~"@ =~= seq!['~']);
                }
                "~"
            },
        }
    }

    /// One cell's move for this frame: decides from the pre-frame snapshot
    /// (the current buffer of `world`) where the substance at `index` goes,
    /// and applies the swap, if any, to the scratch buffer. `bias` is the
    /// cell's random side preference for this frame (`true` means left).
    pub fn step(&self, world: &mut World, index: usize, bias: bool)
        requires
            old(world).dims_ok(),
            cells_canonical(old(world).cells()),
            index < old(world).cells().len(),
            *self == old(world).cells()[index as int],
        ensures
            final(world).width == old(world).width,
            final(world).height == old(world).height,
            final(world).cells() == old(world).cells(),
            final(world).scratch() == apply_step(
                old(world).scratch(),
                old(world).cells(),
                old(world).width as int,
                old(world).height as int,
                index as int,
                bias,
            ),
    {
        if !self.is_updatable {
            return;
        }
        proof {
            assert(old(world).cells()[index as int].is_canonical());
        }
        match self.kind {
            SubstanceKind::Sand => {
                self.update_sand(world, index, bias);
            },
            SubstanceKind::Water => {
                self.update_water(world, index, bias);
            },
            SubstanceKind::Air => {
                proof {
                    assert(false);
                }
            },
            SubstanceKind::Stone => {
                proof {
                    assert(false);
                }
            },
        }
    }

    /// The movement tiers of a movable solid: straight down if the cell
    /// below is displaceable (not stationary, or strictly less dense), else
    /// diagonally down on the biased side. Returns whether the cell moved.
    fn update_sand(&self, world: &mut World, index: usize, bias: bool) -> (moved: bool)
        requires
            old(world).dims_ok(),
            index < old(world).cells().len(),
            *self == old(world).cells()[index as int],
            self.is_updatable,
            self.kind != SubstanceKind::Water,
        ensures
            final(world).width == old(world).width,
            final(world).height == old(world).height,
            final(world).cells() == old(world).cells(),
            final(world).scratch() == apply_step(
                old(world).scratch(),
                old(world).cells(),
                old(world).width as int,
                old(world).height as int,
                index as int,
                bias,
            ),
            moved == (dest_of(
                old(world).cells(),
                old(world).width as int,
                old(world).height as int,
                index as int,
                bias,
            ) is Some),
    {
        let w = world.width;
        let h = world.height;
        proof {
            assert(world.matrix.len() == world.matrix@.len());
            assert(world.cells().len() <= usize::MAX);
            lemma_dims_pos(w as int, h as int, index as int);
            lemma_grid_pos(index as int, w as int, h as int);
        }
        let x: usize = index % w;
        let y: usize = index / w;
        let below_y: usize = if y + 1 < h {
            y + 1
        } else {
            h - 1
        };
        proof {
            lemma_index_bound(x as int, below_y as int, w as int, h as int);
        }
        let below_i: usize = below_y * w + x;
        let below = world.cell(below_i);
        if !below.is_stationary || self.density > below.density {
            world.switch(index, below_i);
            return true;
        }
        let cx: usize = if bias {
            if x == 0 {
                0
            } else {
                x - 1
            }
        } else {
            if x + 1 < w {
                x + 1
            } else {
                w - 1
            }
        };
        proof {
            lemma_index_bound(cx as int, below_y as int, w as int, h as int);
        }
        let diag_i: usize = below_y * w + cx;
        let diag = world.cell(diag_i);
        if !diag.is_stationary {
            world.switch(index, diag_i);
            return true;
        }
        false
    }

    /// The movement tiers of a liquid: straight down if the cell below is
    /// displaceable, else diagonally down on the biased side, else laterally
    /// on the biased side. Returns whether the cell moved.
    fn update_water(&self, world: &mut World, index: usize, bias: bool) -> (moved: bool)
        requires
            old(world).dims_ok(),
            index < old(world).cells().len(),
            *self == old(world).cells()[index as int],
            self.is_updatable,
            self.kind == SubstanceKind::Water,
        ensures
            final(world).width == old(world).width,
            final(world).height == old(world).height,
            final(world).cells() == old(world).cells(),
            final(world).scratch() == apply_step(
                old(world).scratch(),
                old(world).cells(),
                old(world).width as int,
                old(world).height as int,
                index as int,
                bias,
            ),
            moved == (dest_of(
                old(world).cells(),
                old(world).width as int,
                old(world).height as int,
                index as int,
                bias,
            ) is Some),
    {
        let w = world.width;
        let h = world.height;
        proof {
            assert(world.matrix.len() == world.matrix@.len());
            assert(world.cells().len() <= usize::MAX);
            lemma_dims_pos(w as int, h as int, index as int);
            lemma_grid_pos(index as int, w as int, h as int);
        }
        let x: usize = index % w;
        let y: usize = index / w;
        let below_y: usize = if y + 1 < h {
            y + 1
        } else {
            h - 1
        };
        proof {
            lemma_index_bound(x as int, below_y as int, w as int, h as int);
        }
        let below_i: usize = below_y * w + x;
        let below = world.cell(below_i);
        if !below.is_stationary || self.density > below.density {
            world.switch(index, below_i);
            return true;
        }
        let cx: usize = if bias {
            if x == 0 {
                0
            } else {
                x - 1
            }
        } else {
            if x + 1 < w {
                x + 1
            } else {
                w - 1
            }
        };
        proof {
            lemma_index_bound(cx as int, below_y as int, w as int, h as int);
        }
        let diag_i: usize = below_y * w + cx;
        let diag = world.cell(diag_i);
        if !diag.is_stationary {
            world.switch(index, diag_i);
            return true;
        }
        proof {
            lemma_index_bound(cx as int, y as int, w as int, h as int);
        }
        let side_i: usize = y * w + cx;
        let side = world.cell(side_i);
        if !side.is_stationary {
            world.switch(index, side_i);
            return true;
        }
        false
    }
}

} // verus!
