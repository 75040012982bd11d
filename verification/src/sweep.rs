//! The model of one frame, and of a run of frames.
//!
//! A frame updates every cell above the source row once, row by row from the
//! one next to the source upwards, and within a row from the first column to
//! the last. The grid is updated in place: a cell that has already been
//! updated in this frame is read with its new level. The order is therefore
//! part of the rule.

use crate::grid::{cold_start, in_palette, is_field, lemma_cold_start_is_valid, COLS, ROWS};
use crate::palette::MAX_LEVEL;
use crate::spread::{
    lemma_source_column_wraps, lemma_spread_changes_target_only, lemma_spread_keeps_palette, spread,
    Flicker,
};
use vstd::prelude::*;

verus! {

/// Number of cells that a frame updates: all but those of the source row.
pub const TARGETS: usize = (ROWS - 1) * COLS;

/// Row of the `k`-th cell that a frame updates, counting from zero.
pub open spec fn target_row(k: int) -> int {
    1 + k / (COLS as int)
}

/// Column of the `k`-th cell that a frame updates, counting from zero.
pub open spec fn target_col(k: int) -> int {
    k % (COLS as int)
}

/// Every choice in the sequence is valid.
pub open spec fn all_valid(flickers: Seq<Flicker>) -> bool {
    forall|k: int| 0 <= k < flickers.len() ==> (#[trigger] flickers[k]).valid()
}

/// The sequence holds valid choices for one whole frame, one for each cell
/// that the frame updates, in the order of the updates.
pub open spec fn is_frame(flickers: Seq<Flicker>) -> bool {
    &&& flickers.len() == TARGETS
    &&& all_valid(flickers)
}

/// The field after the first `flickers.len()` updates of a frame, the `k`-th
/// of them made with `flickers[k]`. With choices for a whole frame this is the
/// field after the frame.
pub open spec fn sweep(m: Seq<Seq<nat>>, flickers: Seq<Flicker>) -> Seq<Seq<nat>>
    decreases flickers.len(),
{
    if flickers.len() == 0 {
        m
    } else {
        let k = flickers.len() - 1;
        spread(sweep(m, flickers.drop_last()), target_row(k), target_col(k), flickers.last())
    }
}

/// `after` is what one frame can make of `before`, for some valid choices.
pub open spec fn steps_to(before: Seq<Seq<nat>>, after: Seq<Seq<nat>>) -> bool {
    exists|flickers: Seq<Flicker>| #[trigger] is_frame(flickers) && after == sweep(before, flickers)
}

/// The field after a run of frames, the `t`-th of them made with the choices
/// `frames[t]`.
pub open spec fn run(m: Seq<Seq<nat>>, frames: Seq<Seq<Flicker>>) -> Seq<Seq<nat>>
    decreases frames.len(),
{
    if frames.len() == 0 {
        m
    } else {
        sweep(run(m, frames.drop_last()), frames.last())
    }
}

/// The cells that a frame updates are cells of the grid above the source row.
pub proof fn lemma_target_is_above_source(k: int)
    requires
        0 <= k < TARGETS,
    ensures
        1 <= target_row(k) < ROWS,
        0 <= target_col(k) < COLS,
        k == (target_row(k) - 1) * COLS + target_col(k),
{
}

/// The source row is only ever read: whatever is drawn, a frame leaves it as
/// it was, and the field keeps its shape.
pub proof fn lemma_sweep_keeps_source_row(m: Seq<Seq<nat>>, flickers: Seq<Flicker>)
    requires
        is_field(m),
        flickers.len() <= TARGETS,
    ensures
        is_field(sweep(m, flickers)),
        sweep(m, flickers)[0] == m[0],
    decreases flickers.len(),
{
    if flickers.len() > 0 {
        let k = flickers.len() - 1;
        lemma_sweep_keeps_source_row(m, flickers.drop_last());
        lemma_target_is_above_source(k);
        lemma_spread_changes_target_only(
            sweep(m, flickers.drop_last()),
            target_row(k),
            target_col(k),
            flickers.last(),
        );
    }
}

/// A frame with valid choices keeps every level within the palette.
pub proof fn lemma_sweep_keeps_palette(m: Seq<Seq<nat>>, flickers: Seq<Flicker>)
    requires
        is_field(m),
        in_palette(m),
        flickers.len() <= TARGETS,
        all_valid(flickers),
    ensures
        in_palette(sweep(m, flickers)),
    decreases flickers.len(),
{
    if flickers.len() > 0 {
        let k = flickers.len() - 1;
        lemma_sweep_keeps_palette(m, flickers.drop_last());
        lemma_sweep_keeps_source_row(m, flickers.drop_last());
        lemma_target_is_above_source(k);
        lemma_spread_keeps_palette(
            sweep(m, flickers.drop_last()),
            target_row(k),
            target_col(k),
            flickers.last(),
        );
    }
}

/// After any number of frames from the cold start, whatever was drawn, the
/// source row is still at the hottest level in every column and every level of
/// the field is within the palette.
pub proof fn lemma_run_from_cold_start(frames: Seq<Seq<Flicker>>)
    requires
        forall|t: int| 0 <= t < frames.len() ==> is_frame(#[trigger] frames[t]),
    ensures
        is_field(run(cold_start(), frames)),
        in_palette(run(cold_start(), frames)),
        forall|c: int| 0 <= c < COLS ==> #[trigger] run(cold_start(), frames)[0][c] == MAX_LEVEL,
    decreases frames.len(),
{
    if frames.len() == 0 {
        lemma_cold_start_is_valid();
    } else {
        let earlier = frames.drop_last();
        lemma_run_from_cold_start(earlier);
        lemma_sweep_keeps_source_row(run(cold_start(), earlier), frames.last());
        lemma_sweep_keeps_palette(run(cold_start(), earlier), frames.last());
    }
}

/// The first updates of a frame from the cold start, where every cell next to
/// the source row draws its source from the source row and no cell of the row
/// above draws from the row beneath it: each updated cell next to the source
/// holds the hottest level less its decay, and everything else is as at the
/// start.
proof fn lemma_first_updates_from_cold_start(flickers: Seq<Flicker>)
    requires
        flickers.len() <= TARGETS,
        all_valid(flickers),
        forall|k: int|
            0 <= k < flickers.len() && k < COLS ==> (#[trigger] flickers[k]).decay_step == 1,
        forall|k: int|
            COLS <= k < flickers.len() && k < 2 * COLS ==> (#[trigger] flickers[k]).decay_step == 0,
    ensures
        is_field(sweep(cold_start(), flickers)),
        forall|c: int|
            0 <= c < COLS ==> #[trigger] sweep(cold_start(), flickers)[0][c] == MAX_LEVEL,
        forall|c: int|
            0 <= c < COLS && c < flickers.len() ==> #[trigger] sweep(cold_start(), flickers)[1][c]
                == MAX_LEVEL - flickers[c].decay_amount,
        forall|c: int|
            0 <= c < COLS && c >= flickers.len() ==> #[trigger] sweep(cold_start(), flickers)[1][c]
                == 0,
        forall|r: int, c: int|
            2 <= r < ROWS && 0 <= c < COLS ==> #[trigger] sweep(cold_start(), flickers)[r][c] == 0,
    decreases flickers.len(),
{
    if flickers.len() == 0 {
        lemma_cold_start_is_valid();
    } else {
        let k = flickers.len() - 1;
        let earlier = flickers.drop_last();
        lemma_first_updates_from_cold_start(earlier);
        lemma_target_is_above_source(k);
        let before = sweep(cold_start(), earlier);
        lemma_spread_changes_target_only(before, target_row(k), target_col(k), flickers.last());
        lemma_source_column_wraps(target_col(k), flickers.last().lateral_shift as int);
        assert(flickers.last() == flickers[k]);
        assert(flickers[k].valid());
        assert forall|c: int| 0 <= c < COLS && c < flickers.len() implies #[trigger] sweep(
            cold_start(),
            flickers,
        )[1][c] == MAX_LEVEL - flickers[c].decay_amount by {
            if c < k {
                assert(earlier[c] == flickers[c]);
            }
        }
    }
}

/// The first frame from the cold start, where every cell next to the source
/// row draws its source from the source row and no cell of the row above
/// draws from the row beneath it: the row next to the source holds the hottest
/// level or one less in every column, namely the hottest level less the decay
/// drawn for the cell, and every row above it is still cold.
///
/// Without the two conditions the conclusion can fail, because cells are
/// updated in place: a cell next to the source that reads its own, still cold
/// row stays cold, and a cell of the row above that reads the row beneath it
/// finds that row already heated.
pub proof fn lemma_first_frame_from_cold_start(flickers: Seq<Flicker>)
    requires
        is_frame(flickers),
        forall|k: int| 0 <= k < COLS ==> (#[trigger] flickers[k]).decay_step == 1,
        forall|k: int| COLS <= k < 2 * COLS ==> (#[trigger] flickers[k]).decay_step == 0,
    ensures
        forall|c: int|
            0 <= c < COLS ==> #[trigger] sweep(cold_start(), flickers)[0][c] == MAX_LEVEL,
        forall|c: int|
            0 <= c < COLS ==> #[trigger] sweep(cold_start(), flickers)[1][c] == MAX_LEVEL
                - flickers[c].decay_amount,
        forall|c: int|
            0 <= c < COLS ==> MAX_LEVEL - 1 <= #[trigger] sweep(cold_start(), flickers)[1][c]
                <= MAX_LEVEL,
        forall|r: int, c: int|
            2 <= r < ROWS && 0 <= c < COLS ==> #[trigger] sweep(cold_start(), flickers)[r][c] == 0,
{
    lemma_first_updates_from_cold_start(flickers);
    assert forall|c: int| 0 <= c < COLS implies MAX_LEVEL - 1 <= #[trigger] sweep(
        cold_start(),
        flickers,
    )[1][c] <= MAX_LEVEL by {
        assert(flickers[c].valid());
    }
}

} // verus!
