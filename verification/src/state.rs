//! The simulation state: creation, the per-frame update, and drawing.

use crate::grid::{
    cold_start, in_palette, lemma_levels_is_field, levels, FireGrid, FirePixel, COLS, ROWS,
};
use crate::palette::{repainted, COLORS};
use crate::spread::{spread, spread_fire, spread_fire_with, Flicker};
use crate::sweep::{
    all_valid, is_frame, lemma_sweep_keeps_palette, lemma_sweep_keeps_source_row, steps_to, sweep,
    TARGETS,
};
use vstd::prelude::*;

verus! {

/// The state of a simulation: the grid of fire pixels.
pub struct State {
    pub fire_grid: FireGrid,
}

impl View for State {
    type V = Seq<Seq<nat>>;

    /// The grid as rows of levels.
    open spec fn view(&self) -> Seq<Seq<nat>> {
        levels(self.fire_grid)
    }
}

impl State {
    /// A new state in which every pixel is cold, except for those of the first
    /// row, which are at full heat.
    pub fn new() -> (state: State)
        ensures
            state@ == cold_start(),
    {
        let hottest = FirePixel::with_index(COLORS.len() - 1).unwrap();
        let mut fire_grid = [[FirePixel::new(); COLS]; ROWS];
        fire_grid[0] = [hottest; COLS];
        assert(levels(fire_grid) =~~= cold_start());
        State { fire_grid }
    }

    /// Advances the simulation by one frame, drawing the choices for each cell
    /// at random.
    ///
    /// Whatever is drawn, the grid afterwards is the outcome of [`sweep`] for
    /// some valid choices. In particular the source row is untouched, and
    /// levels that were within the palette stay within it.
    pub fn update(&mut self)
        ensures
            steps_to(old(self)@, final(self)@),
            final(self)@[0] == old(self)@[0],
            in_palette(old(self)@) ==> in_palette(final(self)@),
    {
        let ghost start = levels(self.fire_grid);
        let ghost mut flickers: Seq<Flicker> = Seq::empty();
        for y in 1..ROWS
            invariant
                flickers.len() == (y - 1) * COLS,
                all_valid(flickers),
                levels(self.fire_grid) == sweep(start, flickers),
        {
            for x in 0..COLS
                invariant
                    1 <= y < ROWS,
                    flickers.len() == (y - 1) * COLS + x,
                    all_valid(flickers),
                    levels(self.fire_grid) == sweep(start, flickers),
            {
                let ghost before = levels(self.fire_grid);
                spread_fire(y, x, &mut self.fire_grid);
                proof {
                    let after = levels(self.fire_grid);
                    let flicker = choose|flicker: Flicker|
                        #[trigger] flicker.valid() && after == spread(
                            before,
                            y as int,
                            x as int,
                            flicker,
                        );
                    assert(flickers.push(flicker).drop_last() =~= flickers);
                    flickers = flickers.push(flicker);
                }
            }
        }
        proof {
            assert(is_frame(flickers));
            lemma_levels_is_field(old(self).fire_grid);
            lemma_sweep_keeps_source_row(start, flickers);
            if in_palette(start) {
                lemma_sweep_keeps_palette(start, flickers);
            }
        }
    }

    /// Advances the simulation by one frame with the given choices, the
    /// `k`-th of them for the `k`-th cell that the frame updates.
    pub fn update_with(&mut self, flickers: &[Flicker])
        requires
            is_frame(flickers@),
        ensures
            final(self)@ == sweep(old(self)@, flickers@),
    {
        let ghost start = levels(self.fire_grid);
        for y in 1..ROWS
            invariant
                is_frame(flickers@),
                levels(self.fire_grid) == sweep(start, flickers@.take((y - 1) * COLS)),
        {
            for x in 0..COLS
                invariant
                    1 <= y < ROWS,
                    is_frame(flickers@),
                    levels(self.fire_grid) == sweep(start, flickers@.take((y - 1) * COLS + x)),
            {
                let k = (y - 1) * COLS + x;
                let flicker = flickers[k];
                spread_fire_with(y, x, &mut self.fire_grid, flicker);
                assert(flickers@.take(k + 1).drop_last() =~= flickers@.take(k as int));
            }
        }
        assert(flickers@.take(TARGETS as int) =~= flickers@);
    }

    /// Paints the grid into `buffer`, one color per cell, row-major and
    /// flipped vertically so that the source row comes out at the bottom.
    /// The first `ROWS * COLS` cells of the buffer are overwritten; any beyond
    /// them are left alone.
    pub fn draw(&self, buffer: &mut [u32])
        requires
            old(buffer)@.len() >= ROWS * COLS,
        ensures
            final(buffer)@ == repainted(self@, old(buffer)@),
            forall|row: int, col: int|
                0 <= row < ROWS && 0 <= col < COLS ==> final(buffer)@[col + (ROWS - 1 - row) * COLS]
                    == COLORS[#[trigger] self@[row][col] as int],
    {
        for y in 0..ROWS
            invariant
                buffer@.len() == old(buffer)@.len(),
                buffer@.len() >= ROWS * COLS,
                forall|i: int|
                    (ROWS - y) * COLS <= i < ROWS * COLS ==> buffer@[i] == repainted(
                        self@,
                        old(buffer)@,
                    )[i],
                forall|i: int|
                    ROWS * COLS <= i < buffer@.len() ==> buffer@[i] == old(buffer)@[i],
        {
            for x in 0..COLS
                invariant
                    y < ROWS,
                    buffer@.len() == old(buffer)@.len(),
                    buffer@.len() >= ROWS * COLS,
                    forall|i: int|
                        (ROWS - y) * COLS <= i < ROWS * COLS ==> buffer@[i] == repainted(
                            self@,
                            old(buffer)@,
                        )[i],
                    forall|i: int|
                        (ROWS - 1 - y) * COLS <= i < (ROWS - 1 - y) * COLS + x ==> buffer@[i]
                            == repainted(self@, old(buffer)@)[i],
                    forall|i: int|
                        ROWS * COLS <= i < buffer@.len() ==> buffer@[i] == old(buffer)@[i],
            {
                let fire_pixel = self.fire_grid[y][x];
                let color = COLORS[fire_pixel.index()];
                let y = ROWS - y - 1;
                buffer[x + y * COLS] = color;
            }
        }
        assert(buffer@ =~= repainted(self@, old(buffer)@));
    }
}

} // verus!
