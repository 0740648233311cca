use snake_game::{Cell, Direction, Position, SnakeGame};
use std::collections::VecDeque;

fn game(
    width: usize,
    height: usize,
    snake: &[Position],
    direction: Direction,
    food: Position,
) -> SnakeGame {
    let body: VecDeque<Position> = snake.iter().copied().collect();
    SnakeGame::from_parts(width, height, body, direction, food).unwrap()
}

fn segments(game: &SnakeGame) -> Vec<Position> {
    game.snake().iter().copied().collect()
}

#[test]
fn eating_on_five_by_five_grows_and_respawns_among_23_cells() {
    let mut free: Vec<Position> = Vec::new();
    for y in 0..5usize {
        for x in 0..5usize {
            if (x, y) != (2, 2) && (x, y) != (3, 2) {
                free.push((x, y));
            }
        }
    }
    assert_eq!(free.len(), 23);
    for pick in 0..23usize {
        let mut g = game(5, 5, &[(2, 2)], Direction::RIGHT, (3, 2));
        assert_eq!(g.food_choices(), 23);
        g.tick(pick);
        assert_eq!(segments(&g), vec![(3, 2), (2, 2)]);
        assert_eq!(g.food(), free[pick]);
        assert!(!g.finished());
        assert_eq!(g.direction(), Direction::RIGHT);
    }
    let mut g = game(5, 5, &[(2, 2)], Direction::RIGHT, (3, 2));
    g.tick(12);
    assert_eq!(g.food(), (4, 2));
    let mut g = game(5, 5, &[(2, 2)], Direction::RIGHT, (3, 2));
    g.tick(22);
    assert_eq!(g.food(), (4, 4));
}

#[test]
fn third_move_right_on_three_by_three_hits_the_wall() {
    let mut g = game(3, 3, &[(0, 0)], Direction::RIGHT, (1, 2));
    g.tick(0);
    assert_eq!(segments(&g), vec![(1, 0)]);
    assert!(!g.finished());
    g.tick(0);
    assert_eq!(segments(&g), vec![(2, 0)]);
    assert!(!g.finished());
    g.tick(0);
    assert!(g.finished());
    assert_eq!(segments(&g), vec![(2, 0)]);
    assert_eq!(g.food(), (1, 2));
}

#[test]
fn request_to_reverse_is_rejected() {
    let mut g = game(3, 3, &[(1, 1), (1, 0)], Direction::DOWN, (0, 2));
    g.change_direction(Direction::UP);
    assert_eq!(g.next_direction(), Direction::DOWN);
    assert_eq!(g.direction(), Direction::DOWN);
    assert_eq!(segments(&g), vec![(1, 1), (1, 0)]);
    g.tick(0);
    assert!(!g.finished());
    assert_eq!(segments(&g), vec![(1, 2), (1, 1)]);
}

#[test]
fn eating_the_last_free_cell_ends_the_game() {
    let mut g = game(2, 2, &[(0, 0), (0, 1), (1, 1)], Direction::RIGHT, (1, 0));
    g.tick(0);
    assert!(g.finished());
    assert_eq!(g.food(), (1, 0));
    assert_eq!(segments(&g), vec![(1, 0), (0, 0), (0, 1), (1, 1)]);
    assert_eq!(g.direction(), Direction::RIGHT);
}

#[test]
fn a_whole_game_on_two_by_two_fills_the_grid() {
    let mut g = SnakeGame::new(2, 2);
    assert_eq!(segments(&g), vec![(0, 1)]);
    assert_eq!(g.food(), (1, 1));
    g.change_direction(Direction::UP);
    g.tick(0);
    assert_eq!(segments(&g), vec![(0, 0)]);
    g.change_direction(Direction::RIGHT);
    g.tick(0);
    assert_eq!(segments(&g), vec![(1, 0)]);
    g.change_direction(Direction::DOWN);
    assert_eq!(g.food_choices(), 2);
    g.tick(0);
    assert_eq!(segments(&g), vec![(1, 1), (1, 0)]);
    assert_eq!(g.food(), (0, 0));
    g.change_direction(Direction::LEFT);
    g.tick(0);
    assert_eq!(segments(&g), vec![(0, 1), (1, 1)]);
    assert_eq!(g.food(), (0, 0));
    g.change_direction(Direction::UP);
    assert_eq!(g.food_choices(), 1);
    g.tick(0);
    assert_eq!(segments(&g), vec![(0, 0), (0, 1), (1, 1)]);
    assert_eq!(g.food(), (1, 0));
    assert!(!g.finished());
    g.change_direction(Direction::RIGHT);
    assert_eq!(g.food_choices(), 0);
    g.tick(5);
    assert!(g.finished());
    assert_eq!(segments(&g), vec![(1, 0), (0, 0), (0, 1), (1, 1)]);
    assert_eq!(g.food(), (1, 0));
    g.tick(1);
    assert!(g.finished());
    assert_eq!(segments(&g), vec![(1, 0), (0, 0), (0, 1), (1, 1)]);
    assert_eq!(g.food(), (1, 0));
}

#[test]
fn a_new_game_without_a_turn_ends_at_the_left_wall() {
    let mut g = SnakeGame::new(3, 3);
    g.tick(0);
    assert!(g.finished());
    assert_eq!(segments(&g), vec![(0, 1)]);
    assert_eq!(g.food(), (2, 1));
}

#[test]
fn cell_at_tells_food_head_body_and_empty() {
    let g = game(3, 2, &[(1, 0), (0, 0)], Direction::RIGHT, (2, 1));
    assert_eq!(g.cell_at((2, 1)), Cell::Food);
    assert_eq!(g.cell_at((1, 0)), Cell::Head);
    assert_eq!(g.cell_at((0, 0)), Cell::Body);
    assert_eq!(g.cell_at((2, 0)), Cell::Empty);
    assert_eq!(g.cell_at((0, 1)), Cell::Empty);
    assert_eq!(g.cell_at((7, 7)), Cell::Empty);
}

#[test]
fn cell_at_shows_the_food_over_the_snake() {
    let g = SnakeGame::new(5, 5);
    assert_eq!(g.cell_at((2, 2)), Cell::Food);
    let g = game(3, 3, &[(0, 0), (1, 0)], Direction::LEFT, (1, 0));
    assert_eq!(g.cell_at((1, 0)), Cell::Food);
    assert_eq!(g.cell_at((0, 0)), Cell::Head);
}

#[test]
fn cells_lists_the_grid_row_by_row() {
    let g = game(3, 2, &[(1, 0), (0, 0)], Direction::RIGHT, (2, 1));
    assert_eq!(
        g.cells(),
        vec![Cell::Body, Cell::Head, Cell::Empty, Cell::Empty, Cell::Empty, Cell::Food]
    );
    let g = SnakeGame::new(4, 3);
    let all = g.cells();
    assert_eq!(all.len(), 12);
    for y in 0..3usize {
        for x in 0..4usize {
            assert_eq!(all[y * 4 + x], g.cell_at((x, y)));
        }
    }
    assert_eq!(all[4 + 1], Cell::Head);
    assert_eq!(all[4 + 2], Cell::Food);
    assert_eq!(all.iter().filter(|c| **c == Cell::Empty).count(), 10);
}
