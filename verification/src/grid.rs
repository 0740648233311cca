//! The grid: its cells in row-major order, and the cells a snake leaves free.

use crate::direction::Position;
use std::collections::VecDeque;
use vstd::arithmetic::div_mod::{
    lemma_fundamental_div_mod, lemma_fundamental_div_mod_converse, lemma_mod_bound,
};
use vstd::prelude::*;
use vstd::seq_lib::seq_to_set_is_finite;
use vstd::set_lib::lemma_set_disjoint_lens;

verus! {

/// Whether `p` is a cell of the grid with `width` columns and `height` rows.
pub open spec fn in_bounds(width: usize, height: usize, p: Position) -> bool {
    p.0 < width && p.1 < height
}

/// The place of `p` in the row-major order of a grid with `width` columns:
/// rows from the top, each row from the left.
pub open spec fn rank(width: usize, p: Position) -> int {
    p.1 * width + p.0
}

/// The cell at place `i` of the row-major order of a grid with `width` columns.
pub open spec fn cell(width: usize, i: int) -> Position {
    ((i % (width as int)) as usize, (i / (width as int)) as usize)
}

/// The first `n` cells of a grid with `width` columns, in row-major order.
pub open spec fn cells_upto(width: usize, n: nat) -> Seq<Position> {
    Seq::new(n, |i: int| cell(width, i))
}

/// All cells of the grid in row-major order.
pub open spec fn grid(width: usize, height: usize) -> Seq<Position> {
    cells_upto(width, (width * height) as nat)
}

/// The test that a cell is not a segment of `snake`.
pub open spec fn unoccupied(snake: Seq<Position>) -> spec_fn(Position) -> bool {
    |p: Position| !snake.contains(p)
}

/// The cells of the grid that `snake` does not occupy, in row-major order.
pub open spec fn free_cells(width: usize, height: usize, snake: Seq<Position>) -> Seq<Position> {
    grid(width, height).filter(unoccupied(snake))
}

/// Filtering a sequence that ends in `a` keeps `a` exactly when `a` passes.
pub proof fn lemma_filter_push<A>(s: Seq<A>, pred: spec_fn(A) -> bool, a: A)
    ensures
        s.push(a).filter(pred) == if pred(a) {
            s.filter(pred).push(a)
        } else {
            s.filter(pred)
        },
{
    reveal(Seq::filter);
    assert(s.push(a).drop_last() =~= s);
}

/// In a grid with `width` columns the cell in column `x` of row `y` has
/// place `y * width + x`.
pub proof fn lemma_cell_at_rank(width: usize, x: usize, y: usize)
    requires
        x < width,
    ensures
        cell(width, y * width + x) == (x, y),
{
    lemma_fundamental_div_mod_converse(y * width + x, width as int, y as int, x as int);
}

/// Every cell of the row-major order lies on the grid: place `i` below
/// `width * height` is in a column below `width` and a row below `height`.
pub proof fn lemma_cell_in_bounds(width: usize, height: usize, i: int)
    requires
        0 <= i < width * height,
    ensures
        in_bounds(width, height, cell(width, i)),
        rank(width, cell(width, i)) == i,
{
    let w = width as int;
    assert(w > 0) by (nonlinear_arith)
        requires
            0 <= i < w * height,
            w >= 0,
    ;
    lemma_mod_bound(i, w);
    lemma_fundamental_div_mod(i, w);
    let q = i / w;
    assert(0 <= q < height) by (nonlinear_arith)
        requires
            i == w * q + i % w,
            0 <= i % w < w,
            0 <= i < w * height,
    ;
    assert(q * w == w * q) by (nonlinear_arith);
}

/// The grid lists exactly the cells with a column below `width` and a row
/// below `height`.
pub proof fn lemma_grid_membership(width: usize, height: usize, p: Position)
    ensures
        grid(width, height).contains(p) <==> in_bounds(width, height, p),
{
    let all = grid(width, height);
    if all.contains(p) {
        let i = choose|i: int| 0 <= i < all.len() && all[i] == p;
        lemma_cell_in_bounds(width, height, i);
    }
    if in_bounds(width, height, p) {
        let i = rank(width, p);
        assert(0 <= i < width * height) by (nonlinear_arith)
            requires
                i == p.1 * width + p.0,
                p.0 < width,
                p.1 < height,
        ;
        lemma_cell_at_rank(width, p.0, p.1);
        assert(all[i] == p);
    }
}

/// The free cells are exactly the cells of the grid that the snake does not
/// occupy.
pub proof fn lemma_free_cells_membership(
    width: usize,
    height: usize,
    snake: Seq<Position>,
    p: Position,
)
    ensures
        free_cells(width, height, snake).contains(p) <==> in_bounds(width, height, p)
            && !snake.contains(p),
{
    let all = grid(width, height);
    let keep = unoccupied(snake);
    lemma_grid_membership(width, height, p);
    if all.filter(keep).contains(p) {
        all.lemma_filter_contains_rev(keep, p);
    }
    if in_bounds(width, height, p) && !snake.contains(p) {
        let i = choose|i: int| 0 <= i < all.len() && all[i] == p;
        all.lemma_filter_contains(keep, i);
    }
}

/// The free cells of the first `n` places of the row-major order.
spec fn free_upto(width: usize, snake: Seq<Position>, n: nat) -> Seq<Position> {
    cells_upto(width, n).filter(unoccupied(snake))
}

/// Among the first `n` places, the free cells come in the order of their
/// places, each at a place below `n`.
proof fn lemma_free_upto_ordered(width: usize, height: usize, snake: Seq<Position>, n: nat)
    requires
        n <= width * height,
    ensures
        forall|k: int|
            0 <= k < free_upto(width, snake, n).len() ==> rank(
                width,
                #[trigger] free_upto(width, snake, n)[k],
            ) < n,
        forall|i: int, j: int|
            0 <= i < j < free_upto(width, snake, n).len() ==> rank(
                width,
                #[trigger] free_upto(width, snake, n)[i],
            ) < rank(width, #[trigger] free_upto(width, snake, n)[j]),
    decreases n,
{
    let keep = unoccupied(snake);
    let now = free_upto(width, snake, n);
    if n == 0 {
        cells_upto(width, 0).lemma_filter_len(keep);
    } else {
        let m = (n - 1) as nat;
        let before = free_upto(width, snake, m);
        let c = cell(width, m as int);
        lemma_free_upto_ordered(width, height, snake, m);
        assert(cells_upto(width, n) =~= cells_upto(width, m).push(c));
        lemma_filter_push(cells_upto(width, m), keep, c);
        lemma_cell_in_bounds(width, height, m as int);
        if keep(c) {
            assert(now == before.push(c));
            assert forall|k: int| 0 <= k < now.len() implies rank(width, #[trigger] now[k]) < n by {
                if k < before.len() {
                    assert(now[k] == before[k]);
                }
            }
            assert forall|i: int, j: int| 0 <= i < j < now.len() implies rank(
                width,
                #[trigger] now[i],
            ) < rank(width, #[trigger] now[j]) by {
                assert(now[i] == before[i]);
                if j < before.len() {
                    assert(now[j] == before[j]);
                }
            }
        } else {
            assert(now == before);
        }
    }
}

/// The free cells come in row-major order: a free cell listed earlier has
/// the lower place on the grid. So no free cell is listed twice.
pub proof fn lemma_free_cells_ordered(width: usize, height: usize, snake: Seq<Position>)
    ensures
        forall|i: int, j: int|
            0 <= i < j < free_cells(width, height, snake).len() ==> rank(
                width,
                #[trigger] free_cells(width, height, snake)[i],
            ) < rank(width, #[trigger] free_cells(width, height, snake)[j]),
        free_cells(width, height, snake).no_duplicates(),
{
    lemma_free_upto_ordered(width, height, snake, (width * height) as nat);
    let free = free_cells(width, height, snake);
    assert(free == free_upto(width, snake, (width * height) as nat));
    assert forall|i: int, j: int| 0 <= i < free.len() && 0 <= j < free.len() && i != j implies free[i]
        != free[j] by {
        if i < j {
            assert(rank(width, free[i]) < rank(width, free[j]));
        } else {
            assert(rank(width, free[j]) < rank(width, free[i]));
        }
    }
}

/// The grid lists each of its cells once.
pub proof fn lemma_grid_distinct(width: usize, height: usize)
    ensures
        grid(width, height).no_duplicates(),
        grid(width, height).len() == width * height,
{
    let all = grid(width, height);
    assert forall|i: int, j: int| 0 <= i < all.len() && 0 <= j < all.len() && i != j implies all[i]
        != all[j] by {
        lemma_cell_in_bounds(width, height, i);
        lemma_cell_in_bounds(width, height, j);
    }
}

/// A snake that lies on the grid and holds no cell twice leaves free as
/// many cells as the grid has beyond the snake's length.
pub proof fn lemma_free_cells_count(width: usize, height: usize, snake: Seq<Position>)
    requires
        forall|i: int| 0 <= i < snake.len() ==> in_bounds(width, height, #[trigger] snake[i]),
        snake.no_duplicates(),
    ensures
        free_cells(width, height, snake).len() + snake.len() == width * height,
{
    let all = grid(width, height);
    let free = free_cells(width, height, snake);
    lemma_grid_distinct(width, height);
    lemma_free_cells_ordered(width, height, snake);
    all.unique_seq_to_set();
    free.unique_seq_to_set();
    snake.unique_seq_to_set();
    assert forall|p: Position| free.to_set().union(snake.to_set()).contains(p) == all.to_set().contains(
        p,
    ) by {
        lemma_free_cells_membership(width, height, snake, p);
        lemma_grid_membership(width, height, p);
        if snake.contains(p) {
            let i = choose|i: int| 0 <= i < snake.len() && snake[i] == p;
            assert(in_bounds(width, height, snake[i]));
        }
    }
    assert(free.to_set().union(snake.to_set()) =~= all.to_set());
    assert(free.to_set().disjoint(snake.to_set())) by {
        assert forall|p: Position| !(free.to_set().contains(p) && snake.to_set().contains(p)) by {
            lemma_free_cells_membership(width, height, snake, p);
        }
    }
    seq_to_set_is_finite(free);
    seq_to_set_is_finite(snake);
    lemma_set_disjoint_lens(free.to_set(), snake.to_set());
}

/// Whether `p` is a segment of `snake`.
pub fn occupies(snake: &VecDeque<Position>, p: Position) -> (r: bool)
    ensures
        r == snake@.contains(p),
{
    let mut i: usize = 0;
    while i < snake.len()
        invariant
            i <= snake@.len(),
            forall|j: int| 0 <= j < i ==> snake@[j] != p,
        decreases snake@.len() - i,
    {
        let q: Position = snake[i];
        if q.0 == p.0 && q.1 == p.1 {
            return true;
        }
        i += 1;
    }
    false
}

/// Lists, in row-major order, the cells of the grid that are free once a
/// snake with segments `body` has moved its head onto `head`.
pub fn free_positions(
    width: usize,
    height: usize,
    head: Position,
    body: &VecDeque<Position>,
) -> (free: Vec<Position>)
    ensures
        free@ == free_cells(width, height, seq![head] + body@),
{
    let ghost snake = seq![head] + body@;
    let ghost keep = unoccupied(snake);
    let mut free: Vec<Position> = Vec::new();
    let mut y: usize = 0;
    proof {
        reveal(Seq::filter);
    }
    while y < height
        invariant
            y <= height,
            snake == seq![head] + body@,
            keep == unoccupied(snake),
            free@ == cells_upto(width, (y * width) as nat).filter(keep),
        decreases height - y,
    {
        let mut x: usize = 0;
        while x < width
            invariant
                x <= width,
                y < height,
                snake == seq![head] + body@,
                keep == unoccupied(snake),
                free@ == cells_upto(width, (y * width + x) as nat).filter(keep),
            decreases width - x,
        {
            let taken = (x == head.0 && y == head.1) || occupies(body, (x, y));
            proof {
                let n = (y * width + x) as nat;
                lemma_cell_at_rank(width, x, y);
                assert(cells_upto(width, n + 1) =~= cells_upto(width, n).push((x, y)));
                lemma_filter_push(cells_upto(width, n), keep, (x, y));
                assert(snake[0] == head);
                assert(forall|j: int| 0 <= j < body@.len() ==> snake[j + 1] == body@[j]);
            }
            if !taken {
                free.push((x, y));
            }
            x += 1;
        }
        proof {
            assert((y + 1) * width == y * width + width) by (nonlinear_arith);
        }
        y += 1;
    }
    proof {
        assert(height * width == width * height) by (nonlinear_arith);
    }
    free
}

} // verus!
