use std::collections::VecDeque;

use snake_game::fruit::{
    accept_draw, eat_fruit, first_free_cell, index_range, respawn, Fruit, FIRST_VALUE,
    LEVEL_FACTOR, VALUE_STEP,
};
use snake_game::grid::{Cell, Direction, GRID_SIZE};
use snake_game::snake::Snake;

fn cell(row: usize, col: usize) -> Cell {
    Cell { row, col }
}

fn all_cells_but(free: &[Cell]) -> VecDeque<Cell> {
    let mut cells = VecDeque::new();
    for row in 0..GRID_SIZE {
        for col in 0..GRID_SIZE {
            if !free.contains(&cell(row, col)) {
                cells.push_back(cell(row, col));
            }
        }
    }
    cells
}

#[test]
fn first_fruit_is_worth_five() {
    let f = Fruit::new();
    assert_eq!(f.pos, cell(10, 16));
    assert_eq!(f.value, 5);
    assert_eq!(FIRST_VALUE, 5);
    assert_eq!(VALUE_STEP, 5);
    assert_eq!(LEVEL_FACTOR, 20);
}

#[test]
fn value_rises_when_the_score_reaches_twenty_times_the_value() {
    let mut f = Fruit::new();
    f.maybe_level_up(99);
    assert_eq!(f.value, 5);
    f.maybe_level_up(100);
    assert_eq!(f.value, 10);
    // the next threshold is 200
    f.maybe_level_up(199);
    assert_eq!(f.value, 10);
    f.maybe_level_up(200);
    assert_eq!(f.value, 15);
    f.maybe_level_up(299);
    assert_eq!(f.value, 15);
    f.maybe_level_up(300);
    assert_eq!(f.value, 20);
}

#[test]
fn value_rises_by_one_step_at_a_time() {
    let mut f = Fruit::new();
    f.maybe_level_up(1_000_000);
    assert_eq!(f.value, 10);
}

#[test]
fn level_up_leaves_the_position() {
    let mut f = Fruit { pos: cell(3, 4), value: 5 };
    f.maybe_level_up(100);
    assert_eq!(f.pos, cell(3, 4));
}

#[test]
fn level_up_of_a_worthless_fruit() {
    let mut f = Fruit { pos: cell(3, 4), value: 0 };
    f.maybe_level_up(0);
    assert_eq!(f.value, 5);
}

#[test]
fn level_up_with_a_value_too_large_to_multiply() {
    let big = usize::MAX / 2;
    let mut f = Fruit { pos: cell(3, 4), value: big };
    f.maybe_level_up(usize::MAX);
    assert_eq!(f.value, big);
}

#[test]
fn change_position_and_points() {
    let mut f = Fruit::new();
    f.change_position(cell(1, 2));
    assert_eq!(f, Fruit { pos: cell(1, 2), value: 5 });
    f.change_points(40);
    assert_eq!(f, Fruit { pos: cell(1, 2), value: 40 });
}

#[test]
fn index_range_counts_from_zero() {
    assert_eq!(index_range(0), Vec::<usize>::new());
    assert_eq!(index_range(4), vec![0, 1, 2, 3]);
    assert_eq!(index_range(GRID_SIZE).len(), 32);
}

#[test]
fn accept_draw_takes_a_cell_off_the_snake() {
    let s = Snake::new(String::from("Ann"));
    assert_eq!(accept_draw(Some(3), Some(4), s.cells()), Some(cell(3, 4)));
}

#[test]
fn accept_draw_turns_down_a_cell_on_the_snake() {
    let s = Snake::new(String::from("Ann"));
    assert_eq!(accept_draw(Some(29), Some(16), s.cells()), None);
}

#[test]
fn accept_draw_wants_both_numbers() {
    let s = Snake::new(String::from("Ann"));
    assert_eq!(accept_draw(None, Some(4), s.cells()), None);
    assert_eq!(accept_draw(Some(3), None, s.cells()), None);
    assert_eq!(accept_draw(None, None, s.cells()), None);
}

#[test]
fn first_free_cell_reads_row_by_row() {
    assert_eq!(first_free_cell(&VecDeque::new()), Some(cell(0, 0)));
    let mut taken = VecDeque::new();
    taken.push_back(cell(0, 0));
    taken.push_back(cell(0, 1));
    assert_eq!(first_free_cell(&taken), Some(cell(0, 2)));
    assert_eq!(first_free_cell(&all_cells_but(&[cell(7, 9), cell(20, 0)])), Some(cell(7, 9)));
}

#[test]
fn first_free_cell_of_a_full_grid() {
    assert_eq!(first_free_cell(&all_cells_but(&[])), None);
}

#[test]
fn respawn_gives_a_cell_on_the_grid_and_off_the_snake() {
    let s = Snake::new(String::from("Ann"));
    for _ in 0..500 {
        let c = respawn(s.cells());
        assert!(c.row < GRID_SIZE && c.col < GRID_SIZE);
        assert!(!s.occupies(c));
    }
}

#[test]
fn respawn_does_not_always_give_the_same_cell() {
    let s = Snake::new(String::from("Ann"));
    let first = respawn(s.cells());
    let mut other = false;
    for _ in 0..200 {
        if respawn(s.cells()) != first {
            other = true;
        }
    }
    assert!(other);
}

#[test]
fn respawn_finds_the_only_free_cell() {
    let taken = all_cells_but(&[cell(17, 3)]);
    assert_eq!(respawn(&taken), cell(17, 3));
}

#[test]
fn eat_fruit_scores_logs_and_moves_the_fruit() {
    let mut s = Snake::new(String::from("Ann"));
    let mut f = Fruit::new();
    eat_fruit(&mut s, &mut f);
    assert_eq!(s.points(), 5);
    assert_eq!(s.fruits(), &vec![cell(10, 16)]);
    assert_eq!(s.len(), 3);
    assert_eq!(s.direction(), Direction::Up);
    assert!(f.pos.row < GRID_SIZE && f.pos.col < GRID_SIZE);
    assert!(!s.occupies(f.pos));
    assert_eq!(f.value, 5);
}

#[test]
fn eat_fruit_raises_the_value_at_a_score_of_a_hundred() {
    let mut s = Snake::new(String::from("Ann"));
    let mut f = Fruit::new();
    for eaten in 1..=19 {
        eat_fruit(&mut s, &mut f);
        assert_eq!(s.points(), 5 * eaten);
        assert_eq!(f.value, 5);
    }
    eat_fruit(&mut s, &mut f);
    assert_eq!(s.points(), 100);
    assert_eq!(f.value, 10);
    // from here on ten points a fruit, up to the next threshold of 200
    for eaten in 1..=9 {
        eat_fruit(&mut s, &mut f);
        assert_eq!(s.points(), 100 + 10 * eaten);
        assert_eq!(f.value, 10);
    }
    eat_fruit(&mut s, &mut f);
    assert_eq!(s.points(), 200);
    assert_eq!(f.value, 15);
    assert_eq!(s.fruits().len(), 30);
}
