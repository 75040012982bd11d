use doom_fire::grid::{FirePixel, COLS, ROWS};
use doom_fire::spread::Flicker;
use doom_fire::state::State;
use doom_fire::sweep::TARGETS;

fn frame_of(choose: fn(usize, usize) -> Flicker) -> Vec<Flicker> {
    let mut flickers = Vec::with_capacity(TARGETS);
    for row in 1..ROWS {
        for col in 0..COLS {
            flickers.push(choose(row, col));
        }
    }
    flickers
}

fn straight_up_no_decay(_row: usize, _col: usize) -> Flicker {
    Flicker { lateral_shift: 0, decay_step: 1, decay_amount: 0 }
}

fn straight_up_full_decay(_row: usize, _col: usize) -> Flicker {
    Flicker { lateral_shift: 0, decay_step: 1, decay_amount: 1 }
}

fn stay_in_row(_row: usize, col: usize) -> Flicker {
    Flicker { lateral_shift: (col % 3) as isize - 1, decay_step: 0, decay_amount: col % 2 }
}

fn first_row_from_source_second_in_row(row: usize, col: usize) -> Flicker {
    Flicker {
        lateral_shift: ((row + col) % 3) as isize - 1,
        decay_step: if row == 1 {
            1
        } else if row == 2 {
            0
        } else {
            (row + col / 3) % 2
        },
        decay_amount: (col / 2 + row) % 2,
    }
}

fn chain_from_the_left(row: usize, col: usize) -> Flicker {
    if row == 1 && col == 0 {
        Flicker { lateral_shift: 0, decay_step: 1, decay_amount: 0 }
    } else {
        Flicker { lateral_shift: -1, decay_step: 0, decay_amount: 0 }
    }
}

fn chain_from_the_right(row: usize, col: usize) -> Flicker {
    if row == 1 && col == 0 {
        Flicker { lateral_shift: 0, decay_step: 1, decay_amount: 0 }
    } else {
        Flicker { lateral_shift: 1, decay_step: 0, decay_amount: 0 }
    }
}

#[test]
fn frame_has_one_target_for_each_cell_above_the_source() {
    assert_eq!(TARGETS, 14240);
    assert_eq!(TARGETS, (ROWS - 1) * COLS);
}

#[test]
fn new_state_is_hot_at_the_source_and_cold_elsewhere() {
    let state = State::new();
    for c in 0..COLS {
        assert_eq!(state.fire_grid[0][c].index(), 35);
    }
    for r in 1..ROWS {
        for c in 0..COLS {
            assert_eq!(state.fire_grid[r][c].index(), 0);
        }
    }
}

#[test]
fn first_frame_heats_only_the_row_next_to_the_source() {
    let mut state = State::new();
    let flickers = frame_of(first_row_from_source_second_in_row);
    state.update_with(&flickers);
    for c in 0..COLS {
        assert_eq!(state.fire_grid[0][c].index(), 35);
    }
    for c in 0..COLS {
        let level = state.fire_grid[1][c].index();
        assert!(level == 34 || level == 35);
        assert_eq!(level, 35 - (c / 2 + 1) % 2);
    }
    for r in 2..ROWS {
        for c in 0..COLS {
            assert_eq!(state.fire_grid[r][c].index(), 0);
        }
    }
}

#[test]
fn frame_reads_rows_already_updated_in_the_same_frame() {
    let mut state = State::new();
    state.update_with(&frame_of(straight_up_no_decay));
    for r in 0..ROWS {
        for c in 0..COLS {
            assert_eq!(state.fire_grid[r][c].index(), 35);
        }
    }
}

#[test]
fn heat_fades_by_one_level_per_row_under_full_decay() {
    let mut state = State::new();
    state.update_with(&frame_of(straight_up_full_decay));
    for r in 0..ROWS {
        for c in 0..COLS {
            let expected = if r <= 35 { 35 - r } else { 0 };
            assert_eq!(state.fire_grid[r][c].index(), expected);
        }
    }
}

#[test]
fn cold_rows_that_read_only_themselves_stay_cold() {
    let mut state = State::new();
    state.update_with(&frame_of(stay_in_row));
    for c in 0..COLS {
        assert_eq!(state.fire_grid[0][c].index(), 35);
    }
    for r in 1..ROWS {
        for c in 0..COLS {
            assert_eq!(state.fire_grid[r][c].index(), 0);
        }
    }
}

#[test]
fn frame_visits_columns_in_ascending_order() {
    let mut from_left = State::new();
    from_left.update_with(&frame_of(chain_from_the_left));
    for c in 0..COLS {
        assert_eq!(from_left.fire_grid[1][c].index(), 35);
    }
    for r in 2..ROWS {
        assert_eq!(from_left.fire_grid[r][0].index(), 0);
    }

    let mut from_right = State::new();
    from_right.update_with(&frame_of(chain_from_the_right));
    assert_eq!(from_right.fire_grid[1][0].index(), 35);
    for c in 1..COLS - 1 {
        assert_eq!(from_right.fire_grid[1][c].index(), 0);
    }
    assert_eq!(from_right.fire_grid[1][COLS - 1].index(), 35);
}

#[test]
fn second_frame_builds_on_the_first() {
    let mut state = State::new();
    state.update_with(&frame_of(first_row_from_source_second_in_row));
    state.update_with(&frame_of(straight_up_full_decay));
    for c in 0..COLS {
        assert_eq!(state.fire_grid[0][c].index(), 35);
        assert_eq!(state.fire_grid[1][c].index(), 34);
        assert_eq!(state.fire_grid[2][c].index(), 33);
        assert_eq!(state.fire_grid[35][c].index(), 0);
        assert_eq!(state.fire_grid[ROWS - 1][c].index(), 0);
    }
}

#[test]
fn update_with_works_on_any_grid_within_the_palette() {
    let mut state = State::new();
    for r in 0..ROWS {
        for c in 0..COLS {
            state.fire_grid[r][c] = FirePixel::with_index((r * 13 + c) % 36).unwrap();
        }
    }
    state.update_with(&frame_of(straight_up_full_decay));
    for c in 0..COLS {
        let source = c % 36;
        assert_eq!(state.fire_grid[0][c].index(), source);
        for r in 1..ROWS {
            let expected = if source >= r { source - r } else { 0 };
            assert_eq!(state.fire_grid[r][c].index(), expected);
        }
    }
}

#[test]
fn random_update_keeps_the_source_row_hot() {
    let mut state = State::new();
    for _ in 0..60 {
        state.update();
        for c in 0..COLS {
            assert_eq!(state.fire_grid[0][c].index(), 35);
        }
    }
}

#[test]
fn random_update_keeps_levels_within_the_palette() {
    let mut state = State::new();
    for _ in 0..60 {
        state.update();
        for r in 0..ROWS {
            for c in 0..COLS {
                assert!(state.fire_grid[r][c].index() <= 35);
            }
        }
    }
}

#[test]
fn random_update_lets_heat_rise() {
    let mut state = State::new();
    state.update();
    let mut warm_next_to_source = 0;
    for c in 0..COLS {
        if state.fire_grid[1][c].index() > 0 {
            warm_next_to_source += 1;
        }
    }
    assert!(warm_next_to_source > 0);
    for _ in 0..200 {
        state.update();
    }
    let mut warm_higher_up = 0;
    for c in 0..COLS {
        if state.fire_grid[8][c].index() > 0 {
            warm_higher_up += 1;
        }
    }
    assert!(warm_higher_up > 0);
}

#[test]
fn random_update_cools_as_well_as_copies() {
    let mut state = State::new();
    for _ in 0..20 {
        state.update();
    }
    let mut below_full_heat = 0;
    let mut at_full_heat = 0;
    for r in 1..6 {
        for c in 0..COLS {
            let level = state.fire_grid[r][c].index();
            if level == 35 {
                at_full_heat += 1;
            } else if level > 0 {
                below_full_heat += 1;
            }
        }
    }
    assert!(below_full_heat > 0);
    assert!(at_full_heat > 0);
}
