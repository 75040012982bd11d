//! The heat grid: its dimensions, its cells, and its model as rows of levels.

use crate::palette::MAX_LEVEL;
use vstd::prelude::*;

verus! {

/// Number of rows. Row 0 is the heat source and is shown at the bottom.
pub const ROWS: usize = 90;

/// Number of columns. The first and the last column are neighbours.
pub const COLS: usize = 160;

/// The level left when a cell at `level` loses `decay_amount`: the difference,
/// or zero where the decay exceeds the level.
pub open spec fn cooled(level: nat, decay_amount: nat) -> nat {
    if level >= decay_amount {
        (level - decay_amount) as nat
    } else {
        0
    }
}

/// One cell of the grid. It holds an intensity level, which is at all times an
/// index into the palette.
#[derive(Clone, Copy)]
pub struct FirePixel {
    index: usize,
}

impl View for FirePixel {
    type V = nat;

    /// The pixel's intensity level.
    closed spec fn view(&self) -> nat {
        self.index as nat
    }
}

impl FirePixel {
    #[verifier::type_invariant]
    spec fn within_palette(self) -> bool {
        self.index <= MAX_LEVEL
    }

    /// A cold pixel, at level 0.
    pub fn new() -> (pixel: FirePixel)
        ensures
            pixel@ == 0,
    {
        FirePixel { index: 0 }
    }

    /// A pixel at the given level, or `None` where the palette has no such
    /// level.
    pub fn with_index(index: usize) -> (pixel: Option<FirePixel>)
        ensures
            pixel is Some <==> index <= MAX_LEVEL,
            pixel matches Some(p) ==> p@ == index,
    {
        if index <= MAX_LEVEL {
            Some(FirePixel { index })
        } else {
            None
        }
    }

    /// The pixel's level. It never exceeds `MAX_LEVEL`.
    pub fn index(&self) -> (index: usize)
        ensures
            index == self@,
            index <= MAX_LEVEL,
    {
        proof {
            use_type_invariant(self);
        }
        self.index
    }

    /// This pixel after losing `decay_amount` levels, stopping at zero.
    pub fn cooled(self, decay_amount: usize) -> (pixel: FirePixel)
        ensures
            pixel@ == cooled(self@, decay_amount as nat),
    {
        proof {
            use_type_invariant(&self);
        }
        FirePixel { index: self.index.saturating_sub(decay_amount) }
    }
}

/// The grid as the simulation stores it, indexed `[row][column]`.
pub type FireGrid = [[FirePixel; COLS]; ROWS];

/// The model of a grid: `ROWS` rows of `COLS` levels each.
pub open spec fn levels(grid: FireGrid) -> Seq<Seq<nat>> {
    Seq::new(ROWS as nat, |r: int| Seq::new(COLS as nat, |c: int| grid[r][c]@))
}

/// A sequence of rows has the shape of the grid.
pub open spec fn is_field(m: Seq<Seq<nat>>) -> bool {
    &&& m.len() == ROWS
    &&& forall|r: int| 0 <= r < ROWS ==> (#[trigger] m[r]).len() == COLS
}

/// Every level of the field is one the palette has a color for.
pub open spec fn in_palette(m: Seq<Seq<nat>>) -> bool {
    forall|r: int, c: int| 0 <= r < ROWS && 0 <= c < COLS ==> #[trigger] m[r][c] <= MAX_LEVEL
}

/// The field a simulation starts from: the source row at the hottest level,
/// every other cell cold.
pub open spec fn cold_start() -> Seq<Seq<nat>> {
    Seq::new(
        ROWS as nat,
        |r: int| Seq::new(COLS as nat, |c: int| if r == 0 { MAX_LEVEL as nat } else { 0nat }),
    )
}

/// The model of a stored grid always has the shape of the grid.
pub proof fn lemma_levels_is_field(grid: FireGrid)
    ensures
        is_field(levels(grid)),
{
}

/// The starting field is well formed: it has the shape of the grid, and every
/// level of it is in the palette.
pub proof fn lemma_cold_start_is_valid()
    ensures
        is_field(cold_start()),
        in_palette(cold_start()),
{
}

} // verus!
