//! A game of snake on a bounded grid, as a verified state machine.
//!
//! A [`SnakeGame`] holds the grid's size, the snake, its direction and the
//! food. It changes by two operations only: [`SnakeGame::tick`] moves the
//! snake by one cell, lets it eat and grow, and ends the game at a wall, at
//! the snake's own body, or when the grid is full;
//! [`SnakeGame::change_direction`] asks for a turn. Timer, keyboard,
//! rendering and the source of random numbers belong to the host, which
//! hands the engine plain values.

pub mod direction;
pub mod grid;
pub mod laws;
pub mod snake;

pub use crate::direction::Direction;
pub use crate::direction::Position;
pub use crate::snake::Cell;
pub use crate::snake::GameState;
pub use crate::snake::SnakeGame;
