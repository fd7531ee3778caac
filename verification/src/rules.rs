//! The rule of the game, cell by cell.

use crate::grid::next_state;
use vstd::prelude::*;

verus! {

/// The state of a dead cell.
pub const DEAD_CELL: bool = false;

/// The state of a live cell.
pub const ALIVE_CELL: bool = true;

/// Flips a cell: dead becomes alive, alive becomes dead.
pub fn toggle(cell: bool) -> (flipped: bool)
    ensures
        flipped == !cell,
{
    match cell {
        DEAD_CELL => ALIVE_CELL,
        _ => DEAD_CELL,
    }
}

/// The state of a cell in the next generation, from its state now and the
/// number of its live neighbours.
pub fn next_cell(cell: bool, live_neighbours: u8) -> (next: bool)
    ensures
        next == next_state(cell, live_neighbours as nat),
{
    match (cell, live_neighbours) {
        (ALIVE_CELL, x) if x < 2 => DEAD_CELL,
        (ALIVE_CELL, 2) | (ALIVE_CELL, 3) => ALIVE_CELL,
        (ALIVE_CELL, x) if x > 3 => DEAD_CELL,
        (DEAD_CELL, 3) => ALIVE_CELL,
        (unchanged, _) => unchanged,
    }
}

} // verus!
