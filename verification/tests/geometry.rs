use minefield::{GameState, Point};

fn empty_field(width: usize, height: usize) -> GameState {
    GameState::with_mines((width, height), &Vec::new()).unwrap()
}

#[test]
fn index_to_point_is_row_major() {
    let field = empty_field(4, 3);
    assert_eq!(field.index_to_point(0), Point { x: 0, y: 0 });
    assert_eq!(field.index_to_point(3), Point { x: 3, y: 0 });
    assert_eq!(field.index_to_point(4), Point { x: 0, y: 1 });
    assert_eq!(field.index_to_point(6), Point { x: 2, y: 1 });
    assert_eq!(field.index_to_point(11), Point { x: 3, y: 2 });
}

#[test]
fn point_to_index_is_row_major() {
    let field = empty_field(4, 3);
    assert_eq!(field.point_to_index(Point { x: 0, y: 0 }), 0);
    assert_eq!(field.point_to_index(Point { x: 3, y: 0 }), 3);
    assert_eq!(field.point_to_index(Point { x: 0, y: 1 }), 4);
    assert_eq!(field.point_to_index(Point { x: 1, y: 2 }), 9);
    assert_eq!(field.point_to_index(Point { x: 3, y: 2 }), 11);
}

#[test]
fn index_round_trip_over_whole_grid() {
    let field = empty_field(7, 5);
    for i in 0..35 {
        assert_eq!(field.point_to_index(field.index_to_point(i)), i);
    }
}

#[test]
fn point_round_trip_over_whole_grid() {
    let field = empty_field(7, 5);
    for y in 0..5 {
        for x in 0..7 {
            let point = Point { x, y };
            assert_eq!(field.index_to_point(field.point_to_index(point)), point);
        }
    }
}

#[test]
fn round_trip_on_single_row_and_single_column() {
    let row = empty_field(6, 1);
    let column = empty_field(1, 6);
    for i in 0..6 {
        assert_eq!(row.index_to_point(i), Point { x: i, y: 0 });
        assert_eq!(column.index_to_point(i), Point { x: 0, y: i });
        assert_eq!(row.point_to_index(Point { x: i, y: 0 }), i);
        assert_eq!(column.point_to_index(Point { x: 0, y: i }), i);
    }
}

#[test]
fn geometry_gives_the_same_answer_every_time() {
    let mut field = empty_field(5, 4);
    let first = field.index_to_point(13);
    let second = field.index_to_point(13);
    assert_eq!(first, second);
    assert_eq!(first, Point { x: 3, y: 2 });
    let index = field.point_to_index(first);
    assert_eq!(index, field.point_to_index(first));
    assert_eq!(index, 13);
    let commands = field.draw_squares();
    field.update_with(1_500_000_000, 13);
    assert_eq!(field.index_to_point(13), first);
    assert_eq!(field.point_to_index(first), 13);
    assert_eq!(field.game_size(), (5, 4));
    assert_eq!(commands.len(), 20);
}
