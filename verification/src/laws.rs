//! What holds of the simulation as a whole, proved over the model.

use crate::grid::Grid;
use crate::ring::lemma_ring_steps;
use crate::universe::Universe;
use vstd::arithmetic::div_mod::{lemma_fundamental_div_mod, lemma_fundamental_div_mod_converse};
use vstd::prelude::*;

verus! {

/// Every entry of the cell buffer is the cell of exactly one position:
/// entry `i` is the cell at row `i / width`, column `i % width`.
pub proof fn lemma_cell_of_entry(g: Grid, i: int)
    requires
        g.wf(),
        0 <= i < g.cells.len(),
    ensures
        g.width > 0,
        g.contains(i / (g.width as int), i % (g.width as int)),
        g.index(i / (g.width as int), i % (g.width as int)) == i,
        g.alive(i / (g.width as int), i % (g.width as int)) == g.cells[i],
{
    let w = g.width as int;
    let h = g.height as int;
    assert(w > 0) by (nonlinear_arith)
        requires
            0 <= i < w * h,
            0 <= w,
    ;
    lemma_fundamental_div_mod(i, w);
    let r = i / w;
    let c = i % w;
    assert(0 <= r < h) by (nonlinear_arith)
        requires
            0 <= i < w * h,
            i == w * r + c,
            0 <= c < w,
    ;
    assert(r * w + c == i) by (nonlinear_arith)
        requires
            i == w * r + c,
    ;
}

/// Every position of the grid has its own entry in the cell buffer, and the
/// position can be read back from the entry's index.
pub proof fn lemma_entry_of_cell(g: Grid, row: int, col: int)
    requires
        g.wf(),
        g.contains(row, col),
    ensures
        0 <= g.index(row, col) < g.cells.len(),
        g.index(row, col) / (g.width as int) == row,
        g.index(row, col) % (g.width as int) == col,
{
    let w = g.width as int;
    let h = g.height as int;
    assert(0 <= row * w + col < w * h) by (nonlinear_arith)
        requires
            0 <= row < h,
            0 <= col < w,
    ;
    lemma_fundamental_div_mod_converse(row * w + col, w, row, col);
}

/// A dead grid has one cell per position and none of them is alive.
pub proof fn lemma_dead_grid(width: nat, height: nat, row: int, col: int)
    requires
        0 <= row < height,
        0 <= col < width,
    ensures
        Grid::dead(width, height).wf(),
        !Grid::dead(width, height).alive(row, col),
{
    lemma_entry_of_cell(Grid::dead(width, height), row, col);
}

/// Changing a dimension leaves a grid of the new size in which no cell is
/// alive, whatever the grid held before.
pub proof fn lemma_resize_kills(g: Grid, width: nat, height: nat, row: int, col: int)
    ensures
        g.with_width(width).wf(),
        g.with_width(width).width == width && g.with_width(width).height == g.height,
        g.with_width(width).contains(row, col) ==> !g.with_width(width).alive(row, col),
        g.with_height(height).wf(),
        g.with_height(height).width == g.width && g.with_height(height).height == height,
        g.with_height(height).contains(row, col) ==> !g.with_height(height).alive(row, col),
{
    if g.with_width(width).contains(row, col) {
        lemma_dead_grid(width, g.height, row, col);
    }
    if g.with_height(height).contains(row, col) {
        lemma_dead_grid(g.width, height, row, col);
    }
}

/// Changing a dimension to the same value again changes nothing more.
pub proof fn lemma_resize_idempotent(g: Grid, width: nat, height: nat)
    ensures
        g.with_width(width).with_width(width) == g.with_width(width),
        g.with_height(height).with_height(height) == g.with_height(height),
{
}

/// Clearing twice is clearing once.
pub proof fn lemma_clear_idempotent(g: Grid)
    ensures
        g.cleared().cleared() == g.cleared(),
{
}

/// Clearing a grid gives the dead grid of its dimensions.
pub proof fn lemma_cleared_is_dead(g: Grid)
    requires
        g.wf(),
    ensures
        g.cleared() == Grid::dead(g.width, g.height),
{
}

/// Flipping a cell twice gives the grid back.
pub proof fn lemma_toggle_twice(g: Grid, row: int, col: int)
    requires
        g.wf(),
        g.contains(row, col),
    ensures
        g.toggled(row, col).toggled(row, col) == g,
        g.drawn(seq![(row, col), (row, col)]) == g,
{
    lemma_entry_of_cell(g, row, col);
    let once = g.toggled(row, col);
    assert(once.toggled(row, col).cells =~= g.cells);
    let twice = seq![(row, col), (row, col)];
    assert(g.drawn(twice.drop_last().drop_last()) == g);
    assert(g.drawn(twice.drop_last()) == once);
}

/// How many entries of `positions` name the cell at `(row, col)`.
pub open spec fn times_named(positions: Seq<(int, int)>, row: int, col: int) -> nat
    decreases positions.len(),
{
    if positions.len() == 0 {
        0
    } else {
        times_named(positions.drop_last(), row, col) + (if positions.last() == (row, col) {
            1nat
        } else {
            0nat
        })
    }
}

/// Drawing keeps the dimensions, and a cell ends flipped exactly when it was
/// named an odd number of times.
pub proof fn lemma_draw_parity(g: Grid, positions: Seq<(int, int)>, row: int, col: int)
    requires
        g.wf(),
        g.contains(row, col),
        forall|i: int|
            0 <= i < positions.len() ==> g.contains((#[trigger] positions[i]).0, positions[i].1),
    ensures
        g.drawn(positions).wf(),
        g.drawn(positions).width == g.width,
        g.drawn(positions).height == g.height,
        g.drawn(positions).alive(row, col) == (g.alive(row, col) != (times_named(
            positions,
            row,
            col,
        ) % 2 == 1)),
    decreases positions.len(),
{
    if positions.len() > 0 {
        let front = positions.drop_last();
        let (r, c) = positions.last();
        assert(forall|i: int| 0 <= i < front.len() ==> front[i] == positions[i]);
        lemma_draw_parity(g, front, row, col);
        let mid = g.drawn(front);
        lemma_entry_of_cell(mid, r, c);
        lemma_entry_of_cell(mid, row, col);
    }
}

/// Setting cells alive keeps the dimensions and only adds: afterwards a cell
/// is alive exactly when it was alive before or is one of those named.
pub proof fn lemma_with_alive_adds(g: Grid, positions: Seq<(int, int)>, row: int, col: int)
    requires
        g.wf(),
        g.contains(row, col),
        forall|i: int|
            0 <= i < positions.len() ==> g.contains((#[trigger] positions[i]).0, positions[i].1),
    ensures
        g.with_alive(positions).wf(),
        g.with_alive(positions).width == g.width,
        g.with_alive(positions).height == g.height,
        g.with_alive(positions).alive(row, col) == (g.alive(row, col) || positions.contains(
            (row, col),
        )),
    decreases positions.len(),
{
    if positions.len() > 0 {
        let front = positions.drop_last();
        let (r, c) = positions.last();
        assert(forall|i: int| 0 <= i < front.len() ==> front[i] == positions[i]);
        lemma_with_alive_adds(g, front, row, col);
        let mid = g.with_alive(front);
        lemma_entry_of_cell(mid, r, c);
        lemma_entry_of_cell(mid, row, col);
    }
}

/// The grid wraps at its edges: the cell in the last row and last column is
/// one of the eight neighbours of the cell in the first row and first column,
/// so when it is alive the corner cell counts it.
pub proof fn lemma_corner_wraps(g: Grid)
    requires
        g.wf(),
        g.height > 0,
        g.width > 0,
    ensures
        g.alive_wrapped(-1, -1) == g.alive(g.height - 1, g.width - 1),
        g.alive(g.height - 1, g.width - 1) ==> g.live_neighbours(0, 0) >= 1,
{
    lemma_ring_steps(0, g.height as int);
    lemma_ring_steps(0, g.width as int);
}

/// A tick keeps the dimensions and the number of cells.
pub proof fn lemma_tick_keeps_shape(g: Grid)
    requires
        g.wf(),
    ensures
        g.tick().wf(),
        g.tick().width == g.width,
        g.tick().height == g.height,
{
}

/// The simulation is deterministic: two universes seeded from the same draws
/// hold the same cells, and still do after any number of generations.
pub proof fn lemma_same_seed_same_history(
    a: Universe,
    b: Universe,
    draws: Seq<bool>,
    generations: nat,
)
    requires
        a@ == Grid::seeded(draws),
        b@ == Grid::seeded(draws),
    ensures
        a@.cells == b@.cells,
        a@.ticks(generations) == b@.ticks(generations),
{
}

} // verus!
