use minefield::sampling::place_mine;
use std::collections::HashSet;

#[test]
fn place_mine_takes_a_fresh_draw() {
    let mut mines = HashSet::new();
    mines.insert(2usize);
    place_mine(&mut mines, 5, 3);
    let expected: HashSet<usize> = [2, 3].into_iter().collect();
    assert_eq!(mines, expected);
}

#[test]
fn place_mine_takes_the_limit_for_a_repeated_draw() {
    let mut mines = HashSet::new();
    mines.insert(2usize);
    place_mine(&mut mines, 5, 2);
    let expected: HashSet<usize> = [2, 5].into_iter().collect();
    assert_eq!(mines, expected);
}

#[test]
fn place_mine_can_draw_the_limit_itself() {
    let mut mines = HashSet::new();
    place_mine(&mut mines, 0, 0);
    let expected: HashSet<usize> = [0].into_iter().collect();
    assert_eq!(mines, expected);
}

#[test]
fn a_run_of_steps_gives_one_cell_per_step() {
    let draws = [0usize, 0, 0, 4, 1, 7];
    let mut mines = HashSet::new();
    for (step, draw) in draws.iter().enumerate() {
        let limit = 4 + step;
        place_mine(&mut mines, limit, *draw);
        assert_eq!(mines.len(), step + 1);
        assert!(mines.iter().all(|m| *m <= limit));
    }
    let expected: HashSet<usize> = [0, 5, 6, 4, 1, 7].into_iter().collect();
    assert_eq!(mines, expected);
}
