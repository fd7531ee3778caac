//! Coordinates handed in from outside, and what can be wrong with them.

use crate::grid::Grid;
use vstd::prelude::*;

verus! {

/// Why a batch of coordinates was refused. `index` is the position, in the
/// batch, of the first entry at fault.
#[derive(Clone, Copy, Debug, PartialEq, Eq)]
pub enum CoordinateError {
    /// The entry is not a pair: it does not have exactly two components.
    WrongArity { index: usize },
    /// The entry names a row or a column that the grid does not have.
    OutOfRange { index: usize },
}

/// What is wrong with one entry of a batch, if anything: an entry must be a
/// `(row, col)` pair that names a cell of `grid`.
pub open spec fn entry_fault(grid: Grid, entry: Seq<u32>, index: int) -> Option<CoordinateError> {
    if entry.len() != 2 {
        Some(CoordinateError::WrongArity { index: index as usize })
    } else if !grid.contains(entry[0] as int, entry[1] as int) {
        Some(CoordinateError::OutOfRange { index: index as usize })
    } else {
        None
    }
}

/// The fault of the first entry of the batch that has one, if any has.
pub open spec fn first_fault(grid: Grid, entries: Seq<Seq<u32>>) -> Option<CoordinateError>
    decreases entries.len(),
{
    if entries.len() == 0 {
        None
    } else {
        match first_fault(grid, entries.drop_last()) {
            Some(fault) => Some(fault),
            None => entry_fault(grid, entries.last(), entries.len() - 1),
        }
    }
}

/// A batch of coordinate lists, each list by its contents.
pub open spec fn listed(positions: Seq<Vec<u32>>) -> Seq<Seq<u32>> {
    Seq::new(positions.len(), |i: int| positions[i]@)
}

/// A batch of coordinate pairs, each pair as the list of its two components.
pub open spec fn paired(cells: Seq<(u32, u32)>) -> Seq<Seq<u32>> {
    Seq::new(cells.len(), |i: int| seq![cells[i].0, cells[i].1])
}

/// The `(row, col)` positions that a batch without fault names, in order.
pub open spec fn positions_of(entries: Seq<Seq<u32>>) -> Seq<(int, int)> {
    Seq::new(entries.len(), |i: int| (entries[i][0] as int, entries[i][1] as int))
}

/// A fault among the first `n` entries is the fault of the whole batch.
pub proof fn lemma_fault_in_prefix(grid: Grid, entries: Seq<Seq<u32>>, n: int)
    requires
        0 <= n <= entries.len(),
        first_fault(grid, entries.take(n)) is Some,
    ensures
        first_fault(grid, entries) == first_fault(grid, entries.take(n)),
    decreases entries.len() - n,
{
    if n < entries.len() {
        assert(entries.take(n + 1).drop_last() =~= entries.take(n));
        lemma_fault_in_prefix(grid, entries, n + 1);
    } else {
        assert(entries.take(n) =~= entries);
    }
}

/// A batch has no fault exactly when none of its entries has one.
pub proof fn lemma_no_fault(grid: Grid, entries: Seq<Seq<u32>>)
    ensures
        first_fault(grid, entries) is None <==> forall|i: int|
            0 <= i < entries.len() ==> (#[trigger] entry_fault(grid, entries[i], i)) is None,
    decreases entries.len(),
{
    if entries.len() > 0 {
        let front = entries.drop_last();
        lemma_no_fault(grid, front);
        assert(forall|i: int| 0 <= i < front.len() ==> front[i] == entries[i]);
    }
}

} // verus!
