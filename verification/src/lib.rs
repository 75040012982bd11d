//! A stochastic fire simulation on a fixed pixel grid.
//!
//! Heat enters through a permanently hot bottom row and drifts upwards and
//! sideways, fading at random on the way. [`state::State`] holds the grid,
//! advances it one frame at a time and maps it onto a buffer of colors.
//!
//! * [`palette`] — the color table and the model of a painted buffer.
//! * [`grid`] — the pixel type, the grid type and its model as rows of levels.
//! * [`rng`] — the random number source, the only part taken on trust.
//! * [`spread`] — the rule that updates a single cell.
//! * [`sweep`] — the model of a whole frame and of a run of frames.
//! * [`state`] — the simulation state: creation, update and drawing.

pub mod grid;
pub mod palette;
pub mod rng;
pub mod spread;
pub mod state;
pub mod sweep;
