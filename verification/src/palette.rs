//! The color table that turns an intensity level into a pixel color.

use crate::grid::{is_field, COLS, ROWS};
use vstd::prelude::*;

verus! {

/// Number of colors, and so of distinct intensity levels.
pub const PALETTE_SIZE: usize = 36;

/// The hottest intensity level, which is the index of the last color.
pub const MAX_LEVEL: usize = PALETTE_SIZE - 1;

/// Colors as `0x00RRGGBB`, ordered from the coldest level (near black) to the
/// hottest (pure white). A level indexes this table directly.
pub const COLORS: [u32; PALETTE_SIZE] = [
    0x0007_0707,
    0x001f_0707,
    0x002f_0f07,
    0x0047_0f07,
    0x0057_1707,
    0x0067_1f07,
    0x0077_1f07,
    0x008f_2707,
    0x009f_2f07,
    0x00af_3f07,
    0x00bf_4707,
    0x00c7_4707,
    0x00df_4f07,
    0x00df_5707,
    0x00df_5707,
    0x00d7_5f07,
    0x00d7_670f,
    0x00cf_6f0f,
    0x00cf_770f,
    0x00cf_7f0f,
    0x00cf_8717,
    0x00c7_8717,
    0x00c7_8f17,
    0x00c7_971f,
    0x00bf_9f1f,
    0x00bf_9f1f,
    0x00bf_a727,
    0x00bf_a727,
    0x00bf_af2f,
    0x00b7_af2f,
    0x00b7_b72f,
    0x00b7_b737,
    0x00cf_cf6f,
    0x00df_df9f,
    0x00ef_efc7,
    0x00ff_ffff,
];

/// The picture of a field of levels: `ROWS * COLS` colors, row-major, with the
/// field flipped vertically so that its row 0 fills the last line of the
/// picture. Position `i` shows the cell of row `ROWS - 1 - i / COLS` and
/// column `i % COLS`.
pub open spec fn painted(m: Seq<Seq<nat>>) -> Seq<u32> {
    Seq::new(
        (ROWS * COLS) as nat,
        |i: int| COLORS[m[ROWS - 1 - i / (COLS as int)][i % (COLS as int)] as int],
    )
}

/// What a buffer holds once a field has been painted over it: the picture of
/// the field, followed by whatever the buffer held beyond the picture's length.
pub open spec fn repainted(m: Seq<Seq<nat>>, buffer: Seq<u32>) -> Seq<u32> {
    painted(m) + buffer.skip((ROWS * COLS) as int)
}

/// The vertical flip, cell by cell: the cell at `(row, col)` is shown at
/// position `col + (ROWS - 1 - row) * COLS` in the color of its level.
pub proof fn lemma_painted_flips_rows(m: Seq<Seq<nat>>, row: int, col: int)
    requires
        0 <= row < ROWS,
        0 <= col < COLS,
    ensures
        0 <= col + (ROWS - 1 - row) * COLS < painted(m).len(),
        painted(m)[col + (ROWS - 1 - row) * COLS] == COLORS[m[row][col] as int],
{
}

/// A field that holds one level everywhere is painted in one color everywhere.
pub proof fn lemma_painted_uniform(m: Seq<Seq<nat>>, level: nat)
    requires
        is_field(m),
        forall|r: int, c: int| 0 <= r < ROWS && 0 <= c < COLS ==> #[trigger] m[r][c] == level,
    ensures
        painted(m).len() == ROWS * COLS,
        forall|i: int| 0 <= i < ROWS * COLS ==> #[trigger] painted(m)[i] == COLORS[level as int],
{
    assert forall|i: int| 0 <= i < ROWS * COLS implies #[trigger] painted(m)[i]
        == COLORS[level as int] by {
        let r = ROWS - 1 - i / (COLS as int);
        let c = i % (COLS as int);
        assert(m[r][c] == level);
    }
}

/// Painting is a function of the field alone: nothing of what a buffer of
/// `ROWS * COLS` cells held before shows afterwards, so two such buffers
/// painted from the same field are equal.
pub proof fn lemma_repainted_forgets_buffer(m: Seq<Seq<nat>>, first: Seq<u32>, second: Seq<u32>)
    requires
        first.len() == ROWS * COLS,
        second.len() == ROWS * COLS,
    ensures
        repainted(m, first) == painted(m),
        repainted(m, first) == repainted(m, second),
{
    assert(repainted(m, first) =~= painted(m));
    assert(repainted(m, second) =~= painted(m));
}

/// Painting the same field a second time changes nothing.
pub proof fn lemma_repainted_idempotent(m: Seq<Seq<nat>>, buffer: Seq<u32>)
    requires
        buffer.len() >= ROWS * COLS,
    ensures
        repainted(m, repainted(m, buffer)) == repainted(m, buffer),
{
    assert(repainted(m, repainted(m, buffer)) =~= repainted(m, buffer));
}

} // verus!
