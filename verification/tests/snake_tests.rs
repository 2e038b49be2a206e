use snake_game::grid::{Cell, Direction};
use snake_game::snake::{Outcome, Snake};

fn cell(row: usize, col: usize) -> Cell {
    Cell { row, col }
}

fn snake_of(body: Vec<Cell>, direction: Direction) -> Snake {
    match Snake::with_body(String::from("Ann"), &body, direction) {
        Some(s) => s,
        None => panic!("the body is empty or off the grid"),
    }
}

#[test]
fn new_snake_is_three_long_and_heads_up() {
    let s = Snake::new(String::from("Ann"));
    assert_eq!(s.body(), vec![cell(28, 16), cell(29, 16), cell(30, 16)]);
    assert_eq!(s.head(), cell(28, 16));
    assert_eq!(s.len(), 3);
    assert_eq!(s.direction(), Direction::Up);
    assert_eq!(s.points(), 0);
    assert!(s.moves().is_empty());
    assert!(s.fruits().is_empty());
    assert_eq!(s.name().as_str(), "Ann");
}

#[test]
fn with_body_wants_a_head() {
    assert!(Snake::with_body(String::from("Ann"), &Vec::new(), Direction::Up).is_none());
}

#[test]
fn with_body_wants_cells_on_the_grid() {
    assert!(Snake::with_body(String::from("Ann"), &vec![cell(0, 32)], Direction::Up).is_none());
    assert!(Snake::with_body(String::from("Ann"), &vec![cell(1, 1), cell(32, 1)], Direction::Up)
        .is_none());
    assert!(Snake::with_body(String::from("Ann"), &vec![cell(31, 31)], Direction::Up).is_some());
}

#[test]
fn turn_back_is_ignored_for_every_direction() {
    // the head lies one step ahead of the cell behind it, in direction d
    let cases = [
        (Direction::Up, vec![cell(4, 4), cell(5, 4)]),
        (Direction::Down, vec![cell(5, 4), cell(4, 4)]),
        (Direction::Left, vec![cell(4, 4), cell(4, 5)]),
        (Direction::Right, vec![cell(4, 5), cell(4, 4)]),
    ];
    for (d, body) in cases {
        let mut s = snake_of(body, d);
        s.turn(d.opposite());
        assert_eq!(s.direction(), d);
    }
}

#[test]
fn turn_back_is_ignored_across_the_edge() {
    let mut s = snake_of(vec![cell(0, 7), cell(31, 7)], Direction::Down);
    s.turn(Direction::Up);
    assert_eq!(s.direction(), Direction::Down);
}

#[test]
fn turn_back_is_ignored_right_after_a_move() {
    for d in [Direction::Up, Direction::Left, Direction::Right] {
        let mut s = Snake::new(String::from("Ann"));
        s.turn(d);
        assert_eq!(s.direction(), d);
        assert_eq!(s.advance(), Outcome::Continuing);
        s.drop_tail();
        s.turn(d.opposite());
        assert_eq!(s.direction(), d);
    }
}

#[test]
fn turn_sideways_is_taken() {
    let mut s = Snake::new(String::from("Ann"));
    s.turn(Direction::Left);
    assert_eq!(s.direction(), Direction::Left);
    s.turn(Direction::Up);
    assert_eq!(s.direction(), Direction::Up);
}

#[test]
fn turn_goes_by_the_cell_behind_the_head_not_by_the_heading() {
    // Heading left without having moved there: the cell behind the head lies
    // below it, so heading right is no reversal and is taken.
    let mut s = Snake::new(String::from("Ann"));
    s.turn(Direction::Left);
    s.turn(Direction::Right);
    assert_eq!(s.direction(), Direction::Right);
    // heading down would run straight back into the body
    s.turn(Direction::Down);
    assert_eq!(s.direction(), Direction::Right);
}

#[test]
fn turn_of_a_lone_head_is_always_taken() {
    let mut s = snake_of(vec![cell(3, 3)], Direction::Up);
    s.turn(Direction::Down);
    assert_eq!(s.direction(), Direction::Down);
}

#[test]
fn turn_changes_nothing_else() {
    let mut s = Snake::new(String::from("Ann"));
    s.turn(Direction::Right);
    assert_eq!(s.body(), vec![cell(28, 16), cell(29, 16), cell(30, 16)]);
    assert!(s.moves().is_empty());
    assert_eq!(s.points(), 0);
}

#[test]
fn advance_puts_the_new_head_in_front_and_logs_it() {
    let mut s = Snake::new(String::from("Ann"));
    assert_eq!(s.advance(), Outcome::Continuing);
    assert_eq!(s.body(), vec![cell(27, 16), cell(28, 16), cell(29, 16), cell(30, 16)]);
    assert_eq!(s.moves(), &vec![cell(27, 16)]);
    s.drop_tail();
    assert_eq!(s.body(), vec![cell(27, 16), cell(28, 16), cell(29, 16)]);
}

#[test]
fn advance_wraps_round_the_grid() {
    let mut s = snake_of(vec![cell(0, 0), cell(1, 0)], Direction::Up);
    assert_eq!(s.advance(), Outcome::Continuing);
    assert_eq!(s.head(), cell(31, 0));
    s.turn(Direction::Left);
    assert_eq!(s.advance(), Outcome::Continuing);
    assert_eq!(s.head(), cell(31, 31));
}

#[test]
fn advance_into_a_closed_loop_collides_and_is_logged() {
    // a square of four cells; the next head lands on the tail
    let body = vec![cell(5, 5), cell(5, 6), cell(6, 6), cell(6, 5)];
    let mut s = snake_of(body, Direction::Down);
    assert_eq!(s.advance(), Outcome::Collided);
    assert_eq!(s.len(), 5);
    assert_eq!(s.body(), vec![cell(6, 5), cell(5, 5), cell(5, 6), cell(6, 6), cell(6, 5)]);
    assert_eq!(s.moves(), &vec![cell(6, 5)]);
}

#[test]
fn advance_into_the_middle_of_the_body_collides() {
    let body = vec![cell(5, 5), cell(5, 6), cell(6, 6), cell(6, 5), cell(6, 4), cell(6, 3)];
    let mut s = snake_of(body, Direction::Down);
    assert_eq!(s.advance(), Outcome::Collided);
    assert_eq!(s.len(), 7);
    assert_eq!(s.head(), cell(6, 5));
    assert_eq!(s.moves().len(), 1);
}

#[test]
fn advance_beside_the_body_goes_on() {
    let body = vec![cell(5, 5), cell(5, 6), cell(6, 6)];
    let mut s = snake_of(body, Direction::Down);
    assert_eq!(s.advance(), Outcome::Continuing);
    assert_eq!(s.len(), 4);
}

#[test]
fn drop_tail_removes_the_last_cell() {
    let mut s = Snake::new(String::from("Ann"));
    s.drop_tail();
    assert_eq!(s.body(), vec![cell(28, 16), cell(29, 16)]);
}

#[test]
fn drop_tail_leaves_a_lone_head() {
    let mut s = snake_of(vec![cell(3, 3)], Direction::Up);
    s.drop_tail();
    assert_eq!(s.body(), vec![cell(3, 3)]);
}

#[test]
fn score_adds_up() {
    let mut s = Snake::new(String::from("Ann"));
    s.score(5);
    s.score(0);
    s.score(10);
    assert_eq!(s.points(), 15);
}

#[test]
fn record_fruit_appends() {
    let mut s = Snake::new(String::from("Ann"));
    s.record_fruit(cell(10, 16));
    s.record_fruit(cell(2, 3));
    assert_eq!(s.fruits(), &vec![cell(10, 16), cell(2, 3)]);
}

#[test]
fn occupies_tells_the_body_cells() {
    let s = Snake::new(String::from("Ann"));
    assert!(s.occupies(cell(28, 16)));
    assert!(s.occupies(cell(30, 16)));
    assert!(!s.occupies(cell(27, 16)));
    assert!(!s.occupies(cell(31, 16)));
}

#[test]
fn snapshot_holds_name_score_and_logs() {
    let mut s = Snake::new(String::from("Ann"));
    s.advance();
    s.score(5);
    s.record_fruit(cell(27, 16));
    s.advance();
    s.drop_tail();
    let r = s.snapshot();
    assert_eq!(r.name, "Ann");
    assert_eq!(r.points, 5);
    assert_eq!(r.moves, vec![cell(27, 16), cell(26, 16)]);
    assert_eq!(r.fruits, vec![cell(27, 16)]);
    // the snake is left as it was
    assert_eq!(s.points(), 5);
    assert_eq!(s.moves().len(), 2);
}
