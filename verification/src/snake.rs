//! The game engine: the state of one game and the two operations that
//! change it, a tick and a request to turn.

use crate::direction::{step, neighbor, Direction, Position};
use crate::grid::{cell, free_cells, free_positions, in_bounds, lemma_cell_at_rank, occupies};
use crate::laws::{lemma_initial_wf, lemma_tick_keeps_wf, lemma_tick_places_food_on_free_cell};
use std::collections::VecDeque;
use vstd::arithmetic::div_mod::lemma_small_mod;
use vstd::prelude::*;

verus! {

/// What a cell of the grid shows.
#[derive(Debug, Clone, Copy, PartialEq, Eq, Structural)]
pub enum Cell {
    /// The food.
    Food,
    /// The first segment of the snake.
    Head,
    /// A segment of the snake other than the first.
    Body,
    /// Nothing.
    Empty,
}

/// The state of a game as a mathematical value.
pub struct GameState {
    /// Number of columns of the grid.
    pub width: usize,
    /// Number of rows of the grid.
    pub height: usize,
    /// The snake's segments, head first and tail last.
    pub snake: Seq<Position>,
    /// The direction of the most recent tick that was carried out.
    pub direction: Direction,
    /// The direction the next tick will move in.
    pub pending: Direction,
    /// The cell that holds the food.
    pub food: Position,
    /// Whether the game is over.
    pub finished: bool,
}

impl GameState {
    /// The state in which every game on a `width` by `height` grid starts:
    /// a snake of one segment three columns from the right edge (or in
    /// column 0 on a narrower grid), heading left, and the food in column 2
    /// (or in the last column of a narrower grid), both in the middle row.
    pub open spec fn initial(width: usize, height: usize) -> GameState {
        GameState {
            width,
            height,
            snake: seq![(vstd::math::max(width - 3, 0) as usize, height / 2)],
            direction: Direction::LEFT,
            pending: Direction::LEFT,
            food: (vstd::math::min(2, width - 1) as usize, height / 2),
            finished: false,
        }
    }

    /// The invariant of every state: the grid has a cell, the snake has a
    /// segment, every segment and the food lie on the grid, no cell holds
    /// two segments, the pending direction does not reverse the current
    /// one, and a finished game is one whose next move, in the direction it
    /// last took, cannot be made.
    pub open spec fn wf(self) -> bool {
        &&& self.width >= 1
        &&& self.height >= 1
        &&& self.snake.len() >= 1
        &&& forall|i: int|
            0 <= i < self.snake.len() ==> in_bounds(self.width, self.height, #[trigger] self.snake[i])
        &&& self.snake.no_duplicates()
        &&& in_bounds(self.width, self.height, self.food)
        &&& self.pending != self.direction.reversed()
        &&& self.finished ==> self.pending == self.direction && self.crashes()
    }

    /// The snake's head.
    pub open spec fn head(self) -> Position {
        self.snake[0]
    }

    /// The cell the head moves to on the next tick, or `None` where that
    /// cell would have a coordinate that no `usize` holds.
    pub open spec fn target(self) -> Option<Position> {
        neighbor(self.head(), self.pending)
    }

    /// Whether the next move leaves the grid or runs into the snake.
    pub open spec fn crashes(self) -> bool {
        match self.target() {
            None => true,
            Some(p) => !in_bounds(self.width, self.height, p) || self.snake.contains(p),
        }
    }

    /// Whether the next move is possible and lands on the food.
    pub open spec fn eats(self) -> bool {
        !self.crashes() && self.target() == Some(self.food)
    }

    /// The snake after a move that eats: the new head in front of all
    /// segments.
    pub open spec fn grown(self) -> Seq<Position> {
        seq![self.target().unwrap()] + self.snake
    }

    /// The snake after a move that does not eat: the new head in front, the
    /// tail gone.
    pub open spec fn slid(self) -> Seq<Position> {
        seq![self.target().unwrap()] + self.snake.drop_last()
    }

    /// Whether the next tick moves the head onto the food: the game is
    /// running and the move is possible and lands there.
    pub open spec fn moves_onto_food(self) -> bool {
        !self.finished && self.eats()
    }

    /// The number of free cells among which the next tick picks the new
    /// food; 0 where the next tick places no food.
    pub open spec fn food_choices(self) -> nat {
        if self.moves_onto_food() {
            free_cells(self.width, self.height, self.grown()).len()
        } else {
            0
        }
    }

    /// The state after one tick in which `pick` selects the new food.
    ///
    /// A finished game stays as it is. Otherwise the pending direction
    /// becomes the current one, and the head tries to move one cell that way.
    /// A move off the grid or onto the snake ends the game and moves nothing.
    /// A move onto any cell but the food drags the tail along. A move onto
    /// the food lengthens the snake by the new head; the food then goes to
    /// the free cell at place `pick` modulo the number of free cells in
    /// row-major order, or stays and ends the game where no cell is free.
    pub open spec fn after_tick(self, pick: usize) -> GameState {
        if self.finished {
            self
        } else if self.crashes() {
            GameState { direction: self.pending, finished: true, ..self }
        } else if !self.eats() {
            GameState { direction: self.pending, snake: self.slid(), ..self }
        } else {
            let free = free_cells(self.width, self.height, self.grown());
            if free.len() == 0 {
                GameState { direction: self.pending, snake: self.grown(), finished: true, ..self }
            } else {
                GameState {
                    direction: self.pending,
                    snake: self.grown(),
                    food: free[pick as int % free.len() as int],
                    ..self
                }
            }
        }
    }

    /// What the cell `p` shows: the food, the snake's head, another segment
    /// of the snake, or nothing. The food wins over the snake where both are
    /// on `p`.
    pub open spec fn cell(self, p: Position) -> Cell {
        if p == self.food {
            Cell::Food
        } else if p == self.head() {
            Cell::Head
        } else if self.snake.contains(p) {
            Cell::Body
        } else {
            Cell::Empty
        }
    }

    /// What each cell of the grid shows, in row-major order: rows from the
    /// top, each row from the left.
    pub open spec fn cells(self) -> Seq<Cell> {
        Seq::new((self.width * self.height) as nat, |i: int| self.cell(cell(self.width, i)))
    }

    /// The state after a request to turn towards `requested`.
    ///
    /// The request is dropped where the game is finished and where it names
    /// the current direction or its reversal; otherwise it becomes the
    /// pending direction. Nothing else changes.
    pub open spec fn after_request(self, requested: Direction) -> GameState {
        if self.finished || self.direction.rejects(requested) {
            self
        } else {
            GameState { pending: requested, ..self }
        }
    }

    /// The state after a run of ticks, one for each draw of `picks` in turn.
    pub open spec fn after_ticks(self, picks: Seq<usize>) -> GameState
        decreases picks.len(),
    {
        if picks.len() == 0 {
            self
        } else {
            self.after_tick(picks[0]).after_ticks(picks.drop_first())
        }
    }
}

/// A game of snake on a grid of fixed size.
#[derive(Debug)]
pub struct SnakeGame {
    width: usize,
    height: usize,
    snake: VecDeque<Position>,
    direction: Direction,
    next_direction: Direction,
    food: Position,
    finished: bool,
}

impl View for SnakeGame {
    type V = GameState;

    closed spec fn view(&self) -> GameState {
        GameState {
            width: self.width,
            height: self.height,
            snake: self.snake@,
            direction: self.direction,
            pending: self.next_direction,
            food: self.food,
            finished: self.finished,
        }
    }
}

impl SnakeGame {
    /// The invariant of a game. It holds of every game that `new` or
    /// `from_parts` hands out, and every operation keeps it.
    pub open spec fn wf(&self) -> bool {
        self@.wf()
    }

    /// Starts a game on a grid with `width` columns and `height` rows.
    pub fn new(width: usize, height: usize) -> (game: SnakeGame)
        requires
            width >= 1,
            height >= 1,
        ensures
            game@ == GameState::initial(width, height),
            game.wf(),
    {
        proof {
            lemma_initial_wf(width, height);
        }
        let head: Position = (if width >= 3 { width - 3 } else { 0 }, height / 2);
        let food: Position = (if width >= 3 { 2 } else { width - 1 }, height / 2);
        let mut snake: VecDeque<Position> = VecDeque::new();
        snake.push_back(head);
        SnakeGame {
            width,
            height,
            snake,
            direction: Direction::LEFT,
            next_direction: Direction::LEFT,
            food,
            finished: false,
        }
    }

    /// Asks the snake to turn towards `direction` on the next tick.
    ///
    /// The request is dropped, and nothing changes, where the game is
    /// finished and where `direction` is the current direction or its
    /// reversal; either of the two other directions becomes the pending one.
    pub fn change_direction(&mut self, direction: Direction)
        ensures
            final(self)@ == old(self)@.after_request(direction),
            old(self).wf() ==> final(self).wf(),
            old(self)@.finished ==> final(self)@ == old(self)@,
            old(self)@.direction.rejects(direction) ==> final(self)@ == old(self)@,
            !old(self)@.finished && !old(self)@.direction.rejects(direction)
                ==> final(self)@.pending == direction,
    {
        if self.finished {
            return ;
        }
        if direction == self.direction || direction == self.direction.opposite() {
            return ;
        }
        self.next_direction = direction;
    }

    /// Whether `pos` is a cell of this game's grid.
    pub fn is_valid(&self, pos: Position) -> (valid: bool)
        ensures
            valid == in_bounds(self@.width, self@.height, pos),
    {
        pos.0 < self.width && pos.1 < self.height
    }

    /// Advances the game by one tick, as `GameState::after_tick` says.
    ///
    /// `pick` is the caller's random draw. It matters only where this tick
    /// eats the food and leaves a cell free: the new food is then the free
    /// cell at place `pick` modulo the number of free cells, in row-major
    /// order. A draw below `food_choices()` is taken as it is.
    pub fn tick(&mut self, pick: usize)
        requires
            old(self).wf(),
        ensures
            final(self).wf(),
            final(self)@ == old(self)@.after_tick(pick),
            final(self)@.width == old(self)@.width,
            final(self)@.height == old(self)@.height,
            old(self)@.finished ==> final(self)@ == old(self)@,
            !old(self)@.finished ==> final(self)@.direction == old(self)@.pending,
            final(self)@.pending == old(self)@.pending,
            old(self)@.moves_onto_food() ==> final(self)@.snake.len() == old(self)@.snake.len() + 1,
            !old(self)@.moves_onto_food() ==> final(self)@.snake.len() == old(self)@.snake.len(),
            final(self)@.snake.no_duplicates(),
            old(self)@.food_choices() > 0 ==> !final(self)@.snake.contains(final(self)@.food),
            pick < old(self)@.food_choices() ==> final(self)@.food == free_cells(
                old(self)@.width,
                old(self)@.height,
                old(self)@.grown(),
            )[pick as int],
    {
        proof {
            lemma_tick_keeps_wf(old(self)@, pick);
            if old(self)@.food_choices() > 0 {
                lemma_tick_places_food_on_free_cell(old(self)@, pick);
            }
            if pick < old(self)@.food_choices() {
                lemma_small_mod(pick as nat, old(self)@.food_choices());
            }
        }
        if self.finished {
            return ;
        }
        self.direction = self.next_direction;
        let head: Position = self.snake[0];
        match step(head, self.direction) {
            None => {
                self.finished = true;
            },
            Some(new_head) => {
                if !self.is_valid(new_head) || occupies(&self.snake, new_head) {
                    self.finished = true;
                } else if new_head.0 != self.food.0 || new_head.1 != self.food.1 {
                    self.snake.pop_back();
                    self.snake.push_front(new_head);
                    assert(self.snake@ =~= old(self)@.slid());
                } else {
                    let free = free_positions(self.width, self.height, new_head, &self.snake);
                    self.snake.push_front(new_head);
                    assert(self.snake@ =~= old(self)@.grown());
                    if free.len() == 0 {
                        self.finished = true;
                    } else {
                        self.food = free[pick % free.len()];
                    }
                }
            },
        }
    }

    /// The number of free cells among which the next tick picks the new
    /// food, or 0 where the next tick places no food. A caller that draws
    /// `pick` below this number decides the new food's place in the
    /// row-major order of the free cells.
    pub fn food_choices(&self) -> (n: usize)
        requires
            self.wf(),
        ensures
            n == self@.food_choices(),
    {
        if self.finished {
            return 0;
        }
        let head: Position = self.snake[0];
        match step(head, self.next_direction) {
            None => 0,
            Some(p) => {
                if p.0 == self.food.0 && p.1 == self.food.1 && !occupies(&self.snake, p) {
                    free_positions(self.width, self.height, p, &self.snake).len()
                } else {
                    0
                }
            },
        }
    }

    /// Builds a game that is under way from its parts: the grid's size, the
    /// snake's segments head first, the direction it moves in, and the
    /// food's cell. Gives `None` where the parts break the invariant of a
    /// game: an empty grid or snake, a segment or food off the grid, or a
    /// cell with two segments.
    pub fn from_parts(
        width: usize,
        height: usize,
        snake: VecDeque<Position>,
        direction: Direction,
        food: Position,
    ) -> (game: Option<SnakeGame>)
        ensures
            game is Some <==> (GameState {
                width,
                height,
                snake: snake@,
                direction,
                pending: direction,
                food,
                finished: false,
            }).wf(),
            game matches Some(g) ==> g@ == (GameState {
                width,
                height,
                snake: snake@,
                direction,
                pending: direction,
                food,
                finished: false,
            }),
    {
        if width >= 1 && height >= 1 && snake.len() >= 1 && food.0 < width && food.1 < height
            && all_in_bounds(width, height, &snake) && all_distinct(&snake) {
            Some(
                SnakeGame {
                    width,
                    height,
                    snake,
                    direction,
                    next_direction: direction,
                    food,
                    finished: false,
                },
            )
        } else {
            None
        }
    }

    /// What the cell `pos` shows.
    pub fn cell_at(&self, pos: Position) -> (c: Cell)
        requires
            self.wf(),
        ensures
            c == self@.cell(pos),
    {
        let head: Position = self.snake[0];
        if pos.0 == self.food.0 && pos.1 == self.food.1 {
            Cell::Food
        } else if pos.0 == head.0 && pos.1 == head.1 {
            Cell::Head
        } else if occupies(&self.snake, pos) {
            Cell::Body
        } else {
            Cell::Empty
        }
    }

    /// What each cell of the grid shows, in row-major order: rows from the
    /// top, each row from the left.
    pub fn cells(&self) -> (all: Vec<Cell>)
        requires
            self.wf(),
        ensures
            all@ == self@.cells(),
    {
        let mut all: Vec<Cell> = Vec::new();
        let mut y: usize = 0;
        while y < self.height
            invariant
                self.wf(),
                y <= self.height,
                all@ == Seq::new((y * self.width) as nat, |i: int| self@.cell(cell(self.width, i))),
            decreases self.height - y,
        {
            let mut x: usize = 0;
            while x < self.width
                invariant
                    self.wf(),
                    x <= self.width,
                    y < self.height,
                    all@ == Seq::new(
                        (y * self.width + x) as nat,
                        |i: int| self@.cell(cell(self.width, i)),
                    ),
                decreases self.width - x,
            {
                let c = self.cell_at((x, y));
                proof {
                    lemma_cell_at_rank(self.width, x, y);
                }
                all.push(c);
                x += 1;
            }
            assert((y + 1) * self.width == y * self.width + self.width) by (nonlinear_arith);
            y += 1;
        }
        assert(self.height * self.width == self.width * self.height) by (nonlinear_arith);
        all
    }

    /// Number of columns of the grid.
    pub fn width(&self) -> (w: usize)
        ensures
            w == self@.width,
    {
        self.width
    }

    /// Number of rows of the grid.
    pub fn height(&self) -> (h: usize)
        ensures
            h == self@.height,
    {
        self.height
    }

    /// The snake's segments, head first and tail last.
    pub fn snake(&self) -> (s: &VecDeque<Position>)
        ensures
            s@ == self@.snake,
    {
        &self.snake
    }

    /// The direction of the most recent tick that was carried out.
    pub fn direction(&self) -> (d: Direction)
        ensures
            d == self@.direction,
    {
        self.direction
    }

    /// The direction the next tick will move in.
    pub fn next_direction(&self) -> (d: Direction)
        ensures
            d == self@.pending,
    {
        self.next_direction
    }

    /// The cell that holds the food.
    pub fn food(&self) -> (p: Position)
        ensures
            p == self@.food,
    {
        self.food
    }

    /// Whether the game is over.
    pub fn finished(&self) -> (f: bool)
        ensures
            f == self@.finished,
    {
        self.finished
    }
}

/// Whether every segment of `snake` is a cell of the grid.
fn all_in_bounds(width: usize, height: usize, snake: &VecDeque<Position>) -> (r: bool)
    ensures
        r <==> forall|i: int|
            0 <= i < snake@.len() ==> in_bounds(width, height, #[trigger] snake@[i]),
{
    let mut i: usize = 0;
    while i < snake.len()
        invariant
            i <= snake@.len(),
            forall|j: int| 0 <= j < i ==> in_bounds(width, height, #[trigger] snake@[j]),
        decreases snake@.len() - i,
    {
        let p: Position = snake[i];
        if !(p.0 < width && p.1 < height) {
            return false;
        }
        i += 1;
    }
    true
}

/// Whether no two segments of `snake` are the same cell.
fn all_distinct(snake: &VecDeque<Position>) -> (r: bool)
    ensures
        r == snake@.no_duplicates(),
{
    let mut i: usize = 0;
    while i < snake.len()
        invariant
            i <= snake@.len(),
            forall|a: int, b: int| 0 <= a < i && a < b < snake@.len() ==> snake@[a] != snake@[b],
        decreases snake@.len() - i,
    {
        let p: Position = snake[i];
        let mut j: usize = i + 1;
        while j < snake.len()
            invariant
                i < j <= snake@.len(),
                p == snake@[i as int],
                forall|b: int| i < b < j ==> snake@[i as int] != snake@[b],
            decreases snake@.len() - j,
        {
            let q: Position = snake[j];
            if p.0 == q.0 && p.1 == q.1 {
                return false;
            }
            j += 1;
        }
        i += 1;
    }
    true
}

} // verus!
