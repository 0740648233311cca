use snake_game::direction::step;
use snake_game::grid::{free_positions, occupies};
use snake_game::{Direction, Position};
use std::collections::VecDeque;

fn deque(cells: &[Position]) -> VecDeque<Position> {
    cells.iter().copied().collect()
}

#[test]
fn step_moves_by_one_cell() {
    assert_eq!(step((4, 7), Direction::UP), Some((4, 6)));
    assert_eq!(step((4, 7), Direction::RIGHT), Some((5, 7)));
    assert_eq!(step((4, 7), Direction::DOWN), Some((4, 8)));
    assert_eq!(step((4, 7), Direction::LEFT), Some((3, 7)));
}

#[test]
fn step_does_not_wrap_below_zero() {
    assert_eq!(step((0, 3), Direction::LEFT), None);
    assert_eq!(step((3, 0), Direction::UP), None);
    assert_eq!(step((0, 0), Direction::RIGHT), Some((1, 0)));
    assert_eq!(step((0, 0), Direction::DOWN), Some((0, 1)));
}

#[test]
fn step_does_not_wrap_at_the_top_of_the_range() {
    assert_eq!(step((usize::MAX, 3), Direction::RIGHT), None);
    assert_eq!(step((3, usize::MAX), Direction::DOWN), None);
    assert_eq!(step((usize::MAX, 3), Direction::LEFT), Some((usize::MAX - 1, 3)));
    assert_eq!(step((3, usize::MAX), Direction::UP), Some((3, usize::MAX - 1)));
}

#[test]
fn opposite_pairs_up_the_directions() {
    assert_eq!(Direction::UP.opposite(), Direction::DOWN);
    assert_eq!(Direction::DOWN.opposite(), Direction::UP);
    assert_eq!(Direction::LEFT.opposite(), Direction::RIGHT);
    assert_eq!(Direction::RIGHT.opposite(), Direction::LEFT);
}

#[test]
fn from_key_knows_the_four_arrow_keys() {
    assert_eq!(Direction::from_key("ArrowUp"), Some(Direction::UP));
    assert_eq!(Direction::from_key("ArrowDown"), Some(Direction::DOWN));
    assert_eq!(Direction::from_key("ArrowLeft"), Some(Direction::LEFT));
    assert_eq!(Direction::from_key("ArrowRight"), Some(Direction::RIGHT));
}

#[test]
fn from_key_drops_every_other_key() {
    assert_eq!(Direction::from_key(""), None);
    assert_eq!(Direction::from_key("a"), None);
    assert_eq!(Direction::from_key("Enter"), None);
    assert_eq!(Direction::from_key("arrowup"), None);
    assert_eq!(Direction::from_key("ArrowUp "), None);
    assert_eq!(Direction::from_key("Arrow"), None);
    assert_eq!(Direction::from_key("UP"), None);
}

#[test]
fn occupies_finds_each_segment() {
    let snake = deque(&[(1, 1), (1, 2), (2, 2)]);
    assert!(occupies(&snake, (1, 1)));
    assert!(occupies(&snake, (1, 2)));
    assert!(occupies(&snake, (2, 2)));
    assert!(!occupies(&snake, (2, 1)));
    assert!(!occupies(&snake, (0, 0)));
    assert!(!occupies(&VecDeque::new(), (0, 0)));
}

#[test]
fn free_positions_lists_rows_from_the_top() {
    let free = free_positions(3, 2, (1, 0), &deque(&[(0, 0)]));
    assert_eq!(free, vec![(2, 0), (0, 1), (1, 1), (2, 1)]);
}

#[test]
fn free_positions_of_a_snake_free_grid_are_all_but_the_head() {
    let free = free_positions(2, 3, (1, 1), &VecDeque::new());
    assert_eq!(free, vec![(0, 0), (1, 0), (0, 1), (0, 2), (1, 2)]);
}

#[test]
fn free_positions_of_a_full_grid_are_none() {
    let free = free_positions(2, 2, (1, 0), &deque(&[(0, 0), (0, 1), (1, 1)]));
    assert!(free.is_empty());
    assert!(free_positions(0, 5, (0, 0), &VecDeque::new()).is_empty());
    assert!(free_positions(5, 0, (0, 0), &VecDeque::new()).is_empty());
}

#[test]
fn free_positions_and_snake_make_up_the_grid() {
    let body = deque(&[(3, 1), (3, 2), (2, 2), (1, 2)]);
    let free = free_positions(5, 4, (3, 0), &body);
    assert_eq!(free.len() + body.len() + 1, 5 * 4);
    for i in 1..free.len() {
        let before = free[i - 1].1 * 5 + free[i - 1].0;
        let after = free[i].1 * 5 + free[i].0;
        assert!(before < after);
    }
    for cell in &free {
        assert!(cell.0 < 5 && cell.1 < 4);
        assert!(*cell != (3, 0) && !body.contains(cell));
    }
}
