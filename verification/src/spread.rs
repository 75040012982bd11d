//! The propagation rule for a single cell.
//!
//! A target cell takes the level of a source cell next to it, less a small
//! decay. Which neighbour and how much decay is a matter of chance; a
//! [`Flicker`] records one such choice. [`spread_fire_with`] applies a given
//! choice, [`spread_fire`] draws one at random and applies it.

use crate::grid::{cooled, in_palette, is_field, levels, FireGrid, COLS, ROWS};
use crate::rng::{gen_range_isize, gen_range_usize};
use vstd::prelude::*;

verus! {

/// The three random choices behind the update of one cell.
#[derive(Clone, Copy, Debug)]
pub struct Flicker {
    /// Horizontal offset of the source from the target: -1, 0 or +1.
    pub lateral_shift: isize,
    /// How many rows below the target the source lies: 0 or 1.
    pub decay_step: usize,
    /// How many levels are lost on the way: 0 or 1.
    pub decay_amount: usize,
}

impl Flicker {
    /// Each choice is within the range it is drawn from.
    pub open spec fn valid(self) -> bool {
        &&& -1 <= self.lateral_shift <= 1
        &&& self.decay_step <= 1
        &&& self.decay_amount <= 1
    }
}

/// The column a target reads from. The grid wraps around horizontally, so the
/// column left of the first is the last, and the column right of the last is
/// the first.
pub open spec fn source_column(target_col: int, lateral_shift: int) -> int {
    (target_col + lateral_shift + COLS) % (COLS as int)
}

/// The field after the cell at `(row, col)` has been updated with the given
/// choices: that cell now holds the cooled level of its source, read from the
/// field as it stands; every other cell is as before.
pub open spec fn spread(m: Seq<Seq<nat>>, row: int, col: int, flicker: Flicker) -> Seq<Seq<nat>> {
    let source = m[row - flicker.decay_step][source_column(col, flicker.lateral_shift as int)];
    m.update(row, m[row].update(col, cooled(source, flicker.decay_amount as nat)))
}

/// `after` is what an update of the cell at `(row, col)` can make of `before`,
/// for some valid choices.
pub open spec fn spreads_to(
    before: Seq<Seq<nat>>,
    row: int,
    col: int,
    after: Seq<Seq<nat>>,
) -> bool {
    exists|flicker: Flicker|
        #[trigger] flicker.valid() && after == spread(before, row, col, flicker)
}

/// Updates the target cell from the source that `flicker` selects, with the
/// decay that it gives. The source row is never a target.
pub fn spread_fire_with(
    target_y: usize,
    target_x: usize,
    fire_grid: &mut FireGrid,
    flicker: Flicker,
)
    requires
        1 <= target_y < ROWS,
        target_x < COLS,
        flicker.valid(),
    ensures
        levels(*final(fire_grid)) == spread(
            levels(*old(fire_grid)),
            target_y as int,
            target_x as int,
            flicker,
        ),
{
    let source_fire_pixel = {
        let source_x = {
            let cols = COLS as isize;
            ((target_x as isize + flicker.lateral_shift + cols) % cols) as usize
        };
        let source_y = target_y - flicker.decay_step;
        fire_grid[source_y][source_x]
    };
    fire_grid[target_y][target_x] = source_fire_pixel.cooled(flicker.decay_amount);
    assert(levels(*fire_grid) =~~= spread(
        levels(*old(fire_grid)),
        target_y as int,
        target_x as int,
        flicker,
    ));
}

/// Updates the target cell with choices drawn at random: the lateral shift
/// from -1, 0, +1, the decay step and the decay amount each from 0, 1.
///
/// Whatever is drawn, the grid afterwards is the outcome of [`spread`] for
/// some valid choices.
pub fn spread_fire(target_y: usize, target_x: usize, fire_grid: &mut FireGrid)
    requires
        1 <= target_y < ROWS,
        target_x < COLS,
    ensures
        spreads_to(
            levels(*old(fire_grid)),
            target_y as int,
            target_x as int,
            levels(*final(fire_grid)),
        ),
{
    let mut rng = rand::thread_rng();
    let lateral_shift = gen_range_isize(&mut rng, -1, 2);
    let decay_step = gen_range_usize(&mut rng, 0, 2);
    let decay_amount = gen_range_usize(&mut rng, 0, 2);
    let flicker = Flicker { lateral_shift, decay_step, decay_amount };
    spread_fire_with(target_y, target_x, fire_grid, flicker);
    assert(flicker.valid());
}

/// The source column is a column of the grid, and it is the target's column
/// moved by the shift, with the two edges joined.
pub proof fn lemma_source_column_wraps(target_col: int, lateral_shift: int)
    requires
        0 <= target_col < COLS,
        -1 <= lateral_shift <= 1,
    ensures
        0 <= source_column(target_col, lateral_shift) < COLS,
        source_column(target_col, lateral_shift) == (if target_col + lateral_shift < 0 {
            COLS - 1
        } else if target_col + lateral_shift >= COLS {
            0
        } else {
            target_col + lateral_shift
        }),
{
}

/// Across the seam: a target in the first column that looks left reads from
/// the last column, and a target in the last column that looks right reads
/// from the first.
pub proof fn lemma_spread_reads_across_seam(m: Seq<Seq<nat>>, row: int, flicker: Flicker)
    requires
        is_field(m),
        1 <= row < ROWS,
        flicker.valid(),
    ensures
        flicker.lateral_shift == -1 ==> spread(m, row, 0, flicker)[row][0] == cooled(
            m[row - flicker.decay_step][COLS - 1],
            flicker.decay_amount as nat,
        ),
        flicker.lateral_shift == 1 ==> spread(m, row, COLS - 1, flicker)[row][COLS - 1] == cooled(
            m[row - flicker.decay_step][0],
            flicker.decay_amount as nat,
        ),
{
}

/// Decay only subtracts and stops at zero: the target is never hotter than the
/// source it read, and a cold source leaves a cold target whatever the decay.
pub proof fn lemma_spread_never_heats(m: Seq<Seq<nat>>, row: int, col: int, flicker: Flicker)
    requires
        is_field(m),
        1 <= row < ROWS,
        0 <= col < COLS,
        flicker.valid(),
    ensures
        ({
            let source_col = source_column(col, flicker.lateral_shift as int);
            let source = m[row - flicker.decay_step][source_col];
            let target = spread(m, row, col, flicker)[row][col];
            &&& target <= source
            &&& target >= source - flicker.decay_amount
            &&& source == 0 ==> target == 0
        }),
{
}

/// One update keeps the shape of the field and changes no cell but its target.
pub proof fn lemma_spread_changes_target_only(
    m: Seq<Seq<nat>>,
    row: int,
    col: int,
    flicker: Flicker,
)
    requires
        is_field(m),
        1 <= row < ROWS,
        0 <= col < COLS,
    ensures
        is_field(spread(m, row, col, flicker)),
        forall|r: int, c: int|
            0 <= r < ROWS && 0 <= c < COLS && (r != row || c != col) ==> #[trigger] spread(
                m,
                row,
                col,
                flicker,
            )[r][c] == m[r][c],
        spread(m, row, col, flicker)[0] == m[0],
{
}

/// One update keeps every level within the palette.
pub proof fn lemma_spread_keeps_palette(m: Seq<Seq<nat>>, row: int, col: int, flicker: Flicker)
    requires
        is_field(m),
        in_palette(m),
        1 <= row < ROWS,
        0 <= col < COLS,
        flicker.valid(),
    ensures
        in_palette(spread(m, row, col, flicker)),
{
}

} // verus!
