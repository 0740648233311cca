//! What holds of every game, proved over the mathematical state: where a
//! game starts, the invariant that ticks and requests keep, and what a tick
//! can and cannot do to the snake and the food.

use crate::direction::Direction;
use crate::grid::{free_cells, in_bounds, lemma_free_cells_count, lemma_free_cells_membership};
use crate::snake::GameState;
use vstd::prelude::*;

verus! {

/// A new game is in a state that meets the invariant.
pub proof fn lemma_initial_wf(width: usize, height: usize)
    requires
        width >= 1,
        height >= 1,
    ensures
        GameState::initial(width, height).wf(),
{
}

/// On a grid of at least three columns and three rows, but not of exactly
/// five columns, a new game has its head on the grid and apart from the
/// food.
pub proof fn lemma_initial_head_apart_from_food(width: usize, height: usize)
    requires
        width >= 3,
        height >= 3,
        width != 5,
    ensures
        in_bounds(width, height, GameState::initial(width, height).head()),
        GameState::initial(width, height).head() != GameState::initial(width, height).food,
{
}

/// A new game has its head on the food on the grids of one column and of
/// five columns, and on no others.
pub proof fn lemma_initial_head_on_food(width: usize, height: usize)
    requires
        width >= 1,
        height >= 1,
    ensures
        GameState::initial(width, height).head() == GameState::initial(width, height).food <==> width
            == 1 || width == 5,
{
}

/// A request to turn keeps the invariant.
pub proof fn lemma_request_keeps_wf(g: GameState, requested: Direction)
    requires
        g.wf(),
    ensures
        g.after_request(requested).wf(),
{
}

/// A move that does not crash and drags the tail along keeps the snake on
/// the grid and free of repeated cells.
proof fn lemma_slid_wf(g: GameState)
    requires
        g.wf(),
        !g.crashes(),
    ensures
        (GameState { snake: g.slid(), direction: g.pending, ..g }).wf(),
{
    let s = g.slid();
    assert forall|i: int| 0 <= i < s.len() implies in_bounds(g.width, g.height, #[trigger] s[i]) by {
        if i > 0 {
            assert(s[i] == g.snake[i - 1]);
        }
    }
    assert forall|i: int, j: int| 0 <= i < s.len() && 0 <= j < s.len() && i != j implies s[i]
        != s[j] by {
        if i > 0 {
            assert(s[i] == g.snake[i - 1]);
        }
        if j > 0 {
            assert(s[j] == g.snake[j - 1]);
        }
    }
}

/// A move that does not crash and leaves the tail in place keeps the snake
/// on the grid and free of repeated cells.
proof fn lemma_grown_wf(g: GameState)
    requires
        g.wf(),
        !g.crashes(),
    ensures
        (GameState { snake: g.grown(), direction: g.pending, ..g }).wf(),
{
    let s = g.grown();
    assert forall|i: int| 0 <= i < s.len() implies in_bounds(g.width, g.height, #[trigger] s[i]) by {
        if i > 0 {
            assert(s[i] == g.snake[i - 1]);
        }
    }
    assert forall|i: int, j: int| 0 <= i < s.len() && 0 <= j < s.len() && i != j implies s[i]
        != s[j] by {
        if i > 0 {
            assert(s[i] == g.snake[i - 1]);
        }
        if j > 0 {
            assert(s[j] == g.snake[j - 1]);
        }
    }
}

/// A tick keeps the invariant, whatever the draw: the snake stays on the
/// grid, keeps at least one segment and never holds a cell twice, and the
/// food stays on the grid.
pub proof fn lemma_tick_keeps_wf(g: GameState, pick: usize)
    requires
        g.wf(),
    ensures
        g.after_tick(pick).wf(),
{
    if g.finished || g.crashes() {
    } else if !g.eats() {
        lemma_slid_wf(g);
    } else {
        lemma_grown_wf(g);
        let free = free_cells(g.width, g.height, g.grown());
        if free.len() > 0 {
            let k = pick as int % free.len() as int;
            assert(free.contains(free[k]));
            lemma_free_cells_membership(g.width, g.height, g.grown(), free[k]);
        } else {
            let after = g.after_tick(pick);
            if let Some(p) = after.target() {
                lemma_free_cells_membership(g.width, g.height, g.grown(), p);
            }
        }
    }
}

/// Every run of ticks keeps the invariant.
pub proof fn lemma_ticks_keep_wf(g: GameState, picks: Seq<usize>)
    requires
        g.wf(),
    ensures
        g.after_ticks(picks).wf(),
    decreases picks.len(),
{
    if picks.len() > 0 {
        lemma_tick_keeps_wf(g, picks[0]);
        lemma_ticks_keep_wf(g.after_tick(picks[0]), picks.drop_first());
    }
}

/// A finished game is final: no run of ticks, whatever the draws, changes
/// the snake, the food, the finished flag or anything else of its state.
pub proof fn lemma_finished_is_final(g: GameState, picks: Seq<usize>)
    requires
        g.finished,
    ensures
        g.after_ticks(picks) == g,
    decreases picks.len(),
{
    if picks.len() > 0 {
        lemma_finished_is_final(g, picks.drop_first());
    }
}

/// In a finished game the move that a tick would try cannot be made: were
/// the tick carried out in full, as on a running game, it would find the
/// way blocked and leave the very same state.
pub proof fn lemma_finished_cannot_move(g: GameState, pick: usize)
    requires
        g.wf(),
        g.finished,
    ensures
        (GameState { finished: false, ..g }).after_tick(pick) == g,
{
}

/// A tick changes the snake's length only by eating, and then by one
/// segment: the length after the tick is the length before it, plus one
/// exactly where the game was running and the move landed on the food.
pub proof fn lemma_tick_length(g: GameState, pick: usize)
    requires
        g.wf(),
    ensures
        g.moves_onto_food() ==> g.after_tick(pick).snake.len() == g.snake.len() + 1,
        !g.moves_onto_food() ==> g.after_tick(pick).snake.len() == g.snake.len(),
{
}

/// A tick that places food places it on a cell of the grid that the snake,
/// new head included, does not occupy.
pub proof fn lemma_tick_places_food_on_free_cell(g: GameState, pick: usize)
    requires
        g.wf(),
        g.food_choices() > 0,
    ensures
        in_bounds(g.width, g.height, g.after_tick(pick).food),
        !g.after_tick(pick).snake.contains(g.after_tick(pick).food),
        !g.after_tick(pick).finished,
{
    let free = free_cells(g.width, g.height, g.grown());
    let k = pick as int % free.len() as int;
    assert(free.contains(free[k]));
    lemma_free_cells_membership(g.width, g.height, g.grown(), free[k]);
}

/// While the food lies off the snake, or the snake is a single segment, a
/// tick leaves the food off the snake unless it ends the game.
pub proof fn lemma_food_stays_off_snake(g: GameState, pick: usize)
    requires
        g.wf(),
        !g.finished,
        !g.snake.contains(g.food) || g.snake.len() == 1,
    ensures
        g.after_tick(pick).finished || !g.after_tick(pick).snake.contains(g.after_tick(pick).food),
{
    if g.crashes() {
    } else if !g.eats() {
        let s = g.slid();
        let t = g.target().unwrap();
        assert(t != g.food);
        if s.contains(g.food) {
            let i = choose|i: int| 0 <= i < s.len() && s[i] == g.food;
            if i > 0 {
                assert(s[i] == g.snake[i - 1]);
                assert(g.snake.contains(g.food));
            }
        }
    } else {
        if g.food_choices() > 0 {
            lemma_tick_places_food_on_free_cell(g, pick);
        }
    }
}

/// A snake never outgrows its grid.
pub proof fn lemma_snake_fits_grid(g: GameState)
    requires
        g.wf(),
    ensures
        g.snake.len() <= g.width * g.height,
{
    lemma_free_cells_count(g.width, g.height, g.snake);
}

/// Where the next tick eats, it picks the new food among all cells of the
/// grid but those of the snake and the one the head moves to.
pub proof fn lemma_food_choices_count(g: GameState)
    requires
        g.wf(),
        g.moves_onto_food(),
    ensures
        g.food_choices() == g.width * g.height - g.snake.len() - 1,
{
    lemma_grown_wf(g);
    lemma_free_cells_count(g.width, g.height, g.grown());
}

} // verus!
