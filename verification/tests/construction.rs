use minefield::{ConfigurationError, GameState, SquareState};

fn mine_count(field: &GameState) -> usize {
    let (width, height) = field.game_size();
    let mut count = 0;
    for i in 0..width * height {
        if field.is_mine(i) {
            count += 1;
        }
    }
    count
}

#[test]
fn new_places_exactly_the_requested_mines() {
    for k in 0..=25 {
        let field = GameState::new((5, 5), k).unwrap();
        assert_eq!(field.number_of_mines(), k);
        assert_eq!(mine_count(&field), k);
    }
}

#[test]
fn new_keeps_every_mine_on_the_grid() {
    for _ in 0..50 {
        let field = GameState::new((4, 3), 5).unwrap();
        assert_eq!(field.number_of_mines(), 5);
        assert_eq!(mine_count(&field), 5);
        for i in 12..200 {
            assert!(!field.is_mine(i));
        }
    }
}

#[test]
fn new_on_a_single_cell_mines_that_cell() {
    for _ in 0..20 {
        let field = GameState::new((1, 1), 1).unwrap();
        assert!(field.is_mine(0));
        assert!(!field.is_mine(1));
        assert_eq!(field.number_of_mines(), 1);
    }
}

#[test]
fn new_starts_closed_unflagged_and_with_timer_at_zero() {
    let field = GameState::new((6, 4), 7).unwrap();
    assert_eq!(field.game_size(), (6, 4));
    assert_eq!(field.timer(), 0);
    for i in 0..24 {
        assert_eq!(field.square(i), SquareState::Closed(false));
    }
}

#[test]
fn new_with_all_cells_mined_succeeds() {
    let field = GameState::new((5, 5), 25).unwrap();
    assert_eq!(field.number_of_mines(), 25);
    for i in 0..25 {
        assert!(field.is_mine(i));
    }
}

#[test]
fn new_with_one_mine_too_many_fails() {
    assert_eq!(
        GameState::new((5, 5), 26).unwrap_err(),
        ConfigurationError::TooManyMines
    );
}

#[test]
fn new_with_no_mines_succeeds() {
    let field = GameState::new((3, 2), 0).unwrap();
    assert_eq!(field.number_of_mines(), 0);
    assert_eq!(mine_count(&field), 0);
}

#[test]
fn new_rejects_mines_on_a_grid_without_cells() {
    assert_eq!(
        GameState::new((0, 5), 1).unwrap_err(),
        ConfigurationError::TooManyMines
    );
    assert_eq!(
        GameState::new((5, 0), 3).unwrap_err(),
        ConfigurationError::TooManyMines
    );
}

#[test]
fn new_rejects_an_empty_grid() {
    assert_eq!(
        GameState::new((0, 5), 0).unwrap_err(),
        ConfigurationError::EmptyGrid
    );
    assert_eq!(
        GameState::new((5, 0), 0).unwrap_err(),
        ConfigurationError::EmptyGrid
    );
    assert_eq!(
        GameState::new((0, 0), 0).unwrap_err(),
        ConfigurationError::EmptyGrid
    );
}

#[test]
fn new_rejects_a_grid_too_large_to_index() {
    assert_eq!(
        GameState::new((usize::MAX, 2), 0).unwrap_err(),
        ConfigurationError::GridTooLarge
    );
    assert_eq!(
        GameState::new((usize::MAX, usize::MAX), usize::MAX).unwrap_err(),
        ConfigurationError::GridTooLarge
    );
}

#[test]
fn new_spreads_the_mines_over_the_grid() {
    let mut seen = [false; 6];
    for _ in 0..400 {
        let field = GameState::new((3, 2), 1).unwrap();
        for (i, cell) in seen.iter_mut().enumerate() {
            if field.is_mine(i) {
                *cell = true;
            }
        }
    }
    assert_eq!(seen, [true; 6]);
}

#[test]
fn with_mines_places_the_given_layout() {
    let field = GameState::with_mines((3, 3), &vec![4, 0, 8]).unwrap();
    assert_eq!(field.game_size(), (3, 3));
    assert_eq!(field.number_of_mines(), 3);
    assert_eq!(field.timer(), 0);
    for i in 0..9 {
        assert_eq!(field.is_mine(i), i == 0 || i == 4 || i == 8);
        assert_eq!(field.square(i), SquareState::Closed(false));
    }
}

#[test]
fn with_mines_counts_a_repeated_index_once() {
    let field = GameState::with_mines((2, 2), &vec![1, 1, 3, 1]).unwrap();
    assert_eq!(field.number_of_mines(), 2);
    assert!(field.is_mine(1));
    assert!(field.is_mine(3));
    assert!(!field.is_mine(0));
    assert!(!field.is_mine(2));
}

#[test]
fn with_mines_rejects_an_index_off_the_grid() {
    assert_eq!(
        GameState::with_mines((3, 3), &vec![4, 9]).unwrap_err(),
        ConfigurationError::MineOutOfRange
    );
    assert_eq!(
        GameState::with_mines((3, 3), &vec![usize::MAX]).unwrap_err(),
        ConfigurationError::MineOutOfRange
    );
}

#[test]
fn with_mines_rejects_an_empty_or_oversized_grid() {
    assert_eq!(
        GameState::with_mines((0, 3), &vec![0]).unwrap_err(),
        ConfigurationError::EmptyGrid
    );
    assert_eq!(
        GameState::with_mines((3, 0), &Vec::new()).unwrap_err(),
        ConfigurationError::EmptyGrid
    );
    assert_eq!(
        GameState::with_mines((usize::MAX, 3), &Vec::new()).unwrap_err(),
        ConfigurationError::GridTooLarge
    );
}
