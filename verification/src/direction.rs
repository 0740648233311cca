//! Grid coordinates and the four directions of motion.

use vstd::prelude::*;
use vstd::string::*;

verus! {

/// A cell of the grid: column `x` first, row `y` second. Row 0 is the top row.
pub type Position = (usize, usize);

/// A direction of motion on the grid.
#[derive(Debug, Clone, Copy, PartialEq, Eq, Structural)]
pub enum Direction {
    UP,
    RIGHT,
    DOWN,
    LEFT,
}

impl Direction {
    /// The direction that points the other way along the same axis.
    pub open spec fn reversed(self) -> Direction {
        match self {
            Direction::UP => Direction::DOWN,
            Direction::RIGHT => Direction::LEFT,
            Direction::DOWN => Direction::UP,
            Direction::LEFT => Direction::RIGHT,
        }
    }

    /// Whether a snake moving in direction `self` must ignore a request to
    /// move in direction `requested`: the request names the same axis, either
    /// the current direction itself or its reversal.
    pub open spec fn rejects(self, requested: Direction) -> bool {
        requested == self || requested == self.reversed()
    }

    /// The direction that a key stands for, by the key's name: the four
    /// arrow keys stand for the four directions, every other key for none.
    pub open spec fn of_key(key: Seq<char>) -> Option<Direction> {
        if key == "ArrowUp"@ {
            Some(Direction::UP)
        } else if key == "ArrowDown"@ {
            Some(Direction::DOWN)
        } else if key == "ArrowLeft"@ {
            Some(Direction::LEFT)
        } else if key == "ArrowRight"@ {
            Some(Direction::RIGHT)
        } else {
            None
        }
    }

    /// The direction that the key named `key` stands for, if any.
    pub fn from_key(key: &str) -> (r: Option<Direction>)
        ensures
            r == Direction::of_key(key@),
    {
        let name = String::from_str(key);
        if name == String::from_str("ArrowUp") {
            Some(Direction::UP)
        } else if name == String::from_str("ArrowDown") {
            Some(Direction::DOWN)
        } else if name == String::from_str("ArrowLeft") {
            Some(Direction::LEFT)
        } else if name == String::from_str("ArrowRight") {
            Some(Direction::RIGHT)
        } else {
            None
        }
    }

    /// The direction that points the other way along the same axis.
    pub fn opposite(self) -> (r: Direction)
        ensures
            r == self.reversed(),
    {
        match self {
            Direction::UP => Direction::DOWN,
            Direction::RIGHT => Direction::LEFT,
            Direction::DOWN => Direction::UP,
            Direction::LEFT => Direction::RIGHT,
        }
    }
}

/// The change of the two coordinates that one step in direction `d` makes.
/// Rows count from the top, so a step up lowers `y`.
pub open spec fn delta(d: Direction) -> (int, int) {
    match d {
        Direction::UP => (0, -1),
        Direction::RIGHT => (1, 0),
        Direction::DOWN => (0, 1),
        Direction::LEFT => (-1, 0),
    }
}

/// The cell one step away from `p` in direction `d`, or `None` where that
/// cell has a coordinate below zero or beyond what a `usize` holds.
pub open spec fn neighbor(p: Position, d: Direction) -> Option<Position> {
    let x = p.0 + delta(d).0;
    let y = p.1 + delta(d).1;
    if 0 <= x <= usize::MAX && 0 <= y <= usize::MAX {
        Some((x as usize, y as usize))
    } else {
        None
    }
}

/// Computes the cell one step away from `p` in direction `d`. A step below
/// coordinate zero, or beyond the largest `usize`, gives `None` instead of
/// wrapping around.
pub fn step(p: Position, d: Direction) -> (r: Option<Position>)
    ensures
        r == neighbor(p, d),
{
    match d {
        Direction::UP => if p.1 > 0 {
            Some((p.0, p.1 - 1))
        } else {
            None
        },
        Direction::RIGHT => if p.0 < usize::MAX {
            Some((p.0 + 1, p.1))
        } else {
            None
        },
        Direction::DOWN => if p.1 < usize::MAX {
            Some((p.0, p.1 + 1))
        } else {
            None
        },
        Direction::LEFT => if p.0 > 0 {
            Some((p.0 - 1, p.1))
        } else {
            None
        },
    }
}

} // verus!
