use snake_game::grid::{step, Cell, Direction, GRID_SIZE};

const ALL: [Direction; 4] = [Direction::Up, Direction::Down, Direction::Left, Direction::Right];

#[test]
fn grid_is_thirty_two_wide() {
    assert_eq!(GRID_SIZE, 32);
}

#[test]
fn step_inside_the_grid() {
    let c = Cell { row: 10, col: 20 };
    assert_eq!(step(c, Direction::Up, 32), Cell { row: 9, col: 20 });
    assert_eq!(step(c, Direction::Down, 32), Cell { row: 11, col: 20 });
    assert_eq!(step(c, Direction::Left, 32), Cell { row: 10, col: 19 });
    assert_eq!(step(c, Direction::Right, 32), Cell { row: 10, col: 21 });
}

#[test]
fn step_wraps_at_the_top() {
    assert_eq!(step(Cell { row: 0, col: 5 }, Direction::Up, 32), Cell { row: 31, col: 5 });
}

#[test]
fn step_wraps_at_the_bottom() {
    assert_eq!(step(Cell { row: 31, col: 5 }, Direction::Down, 32), Cell { row: 0, col: 5 });
}

#[test]
fn step_wraps_at_the_left() {
    assert_eq!(step(Cell { row: 7, col: 0 }, Direction::Left, 32), Cell { row: 7, col: 31 });
}

#[test]
fn step_wraps_at_the_right() {
    assert_eq!(step(Cell { row: 7, col: 31 }, Direction::Right, 32), Cell { row: 7, col: 0 });
}

#[test]
fn step_follows_the_formula() {
    for n in [1usize, 2, 3, 7, 32] {
        for x in 0..n {
            let c = Cell { row: x, col: x };
            assert_eq!(step(c, Direction::Up, n).row, (x + n - 1) % n);
            assert_eq!(step(c, Direction::Down, n).row, (x + 1) % n);
            assert_eq!(step(c, Direction::Left, n).col, (x + n - 1) % n);
            assert_eq!(step(c, Direction::Right, n).col, (x + 1) % n);
        }
    }
}

#[test]
fn step_on_a_grid_of_one_cell_stays() {
    let c = Cell { row: 0, col: 0 };
    for d in ALL {
        assert_eq!(step(c, d, 1), c);
    }
}

#[test]
fn step_takes_the_largest_numbers() {
    let c = Cell { row: usize::MAX - 1, col: 0 };
    assert_eq!(step(c, Direction::Down, usize::MAX).row, 0);
    assert_eq!(step(c, Direction::Up, usize::MAX).row, usize::MAX - 2);
}

#[test]
fn n_steps_in_one_direction_lead_back() {
    for n in [1usize, 2, 5, 32] {
        for d in ALL {
            for start in [Cell { row: 0, col: 0 }, Cell { row: n - 1, col: n / 2 }] {
                let mut c = start;
                for _ in 0..n {
                    c = step(c, d, n);
                }
                assert_eq!(c, start);
            }
        }
    }
}

#[test]
fn a_step_and_a_step_back_lead_back() {
    for d in ALL {
        for start in [Cell { row: 0, col: 0 }, Cell { row: 31, col: 31 }, Cell { row: 4, col: 9 }] {
            assert_eq!(step(step(start, d, 32), d.opposite(), 32), start);
        }
    }
}

#[test]
fn opposite_directions() {
    assert_eq!(Direction::Up.opposite(), Direction::Down);
    assert_eq!(Direction::Down.opposite(), Direction::Up);
    assert_eq!(Direction::Left.opposite(), Direction::Right);
    assert_eq!(Direction::Right.opposite(), Direction::Left);
}
