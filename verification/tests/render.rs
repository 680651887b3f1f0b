use minefield::{DrawCommand, DrawKind, GameState, GRID_SIZE};

fn square(x: u128, y: u128) -> DrawCommand {
    DrawCommand { kind: DrawKind::Square, x, y }
}

fn flag(x: u128, y: u128) -> DrawCommand {
    DrawCommand { kind: DrawKind::Flag, x, y }
}

#[test]
fn the_side_of_a_square_is_thirty_two_pixels() {
    assert_eq!(GRID_SIZE, 32);
}

#[test]
fn a_fresh_field_draws_one_square_per_cell_row_by_row() {
    let state = GameState::with_mines((3, 2), &vec![0]).unwrap();
    assert_eq!(
        state.draw_squares(),
        vec![
            square(0, 0),
            square(32, 0),
            square(64, 0),
            square(0, 32),
            square(32, 32),
            square(64, 32),
        ]
    );
}

#[test]
fn a_flagged_cell_draws_its_flag_right_after_its_square() {
    let mut state = GameState::with_mines((3, 2), &Vec::new()).unwrap();
    state.update_with(1_000_000_001, 4);
    assert_eq!(
        state.draw_squares(),
        vec![
            square(0, 0),
            square(32, 0),
            square(64, 0),
            square(0, 32),
            square(32, 32),
            flag(32, 32),
            square(64, 32),
        ]
    );
}

#[test]
fn clearing_the_flag_removes_its_command() {
    let mut state = GameState::with_mines((2, 1), &Vec::new()).unwrap();
    state.update_with(1_000_000_001, 1);
    assert_eq!(state.draw_squares(), vec![square(0, 0), square(32, 0), flag(32, 0)]);
    state.update_with(1_000_000_001, 0);
    assert_eq!(
        state.draw_squares(),
        vec![square(0, 0), flag(0, 0), square(32, 0), flag(32, 0)]
    );
    state.update_with(1_000_000_001, 1);
    assert_eq!(state.draw_squares(), vec![square(0, 0), flag(0, 0), square(32, 0)]);
}

#[test]
fn drawing_twice_gives_the_same_list() {
    let mut state = GameState::new((4, 4), 3).unwrap();
    state.update(1_200_000_000);
    let first = state.draw_squares();
    let second = state.draw_squares();
    assert_eq!(first, second);
    assert_eq!(first.len(), 17);
}

#[test]
fn positions_scale_with_the_cell_on_a_wide_grid() {
    let state = GameState::with_mines((100, 1), &Vec::new()).unwrap();
    let commands = state.draw_squares();
    assert_eq!(commands.len(), 100);
    assert_eq!(commands[99], square(3168, 0));
    let tall = GameState::with_mines((1, 100), &Vec::new()).unwrap();
    assert_eq!(tall.draw_squares()[99], square(0, 3168));
}
