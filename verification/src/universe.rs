//! The universe: a grid of cells that lives, dies and is drawn upon.

use crate::bitset::{bit_at, bits_of, packed};
use crate::coords::{
    entry_fault, first_fault, lemma_fault_in_prefix, lemma_no_fault, listed, paired,
    positions_of, CoordinateError,
};
use crate::grid::{glyph, Grid, DEFAULT_HEIGHT, DEFAULT_WIDTH};
use crate::rules::{next_cell, toggle, ALIVE_CELL, DEAD_CELL};
use fixedbitset::FixedBitSet;
use vstd::arithmetic::div_mod::{lemma_fundamental_div_mod_converse, lemma_mod_add_multiples_vanish};
use vstd::prelude::*;

verus! {

/// A toroidal grid of cells, one bit per cell, stored row by row.
pub struct Universe {
    width: u32,
    height: u32,
    cells: FixedBitSet,
    size: usize,
}

impl View for Universe {
    type V = Grid;

    /// The grid that the universe stores.
    closed spec fn view(&self) -> Grid {
        Grid {
            width: self.width as nat,
            height: self.height as nat,
            cells: bits_of(self.cells),
        }
    }
}

/// A buffer of `size` cells. With `draws`, cell `i` is alive exactly when
/// `draws[i]` is; without, every cell is dead.
fn seed_cells(size: usize, draws: Option<&[bool]>) -> (cells: FixedBitSet)
    requires
        draws matches Some(d) ==> d@.len() == size,
    ensures
        bits_of(cells) == (match draws {
            Some(d) => d@,
            None => Seq::new(size as nat, |i: int| false),
        }),
{
    let mut cells = FixedBitSet::with_capacity(size);
    let ghost wanted = match draws {
        Some(d) => d@,
        None => Seq::new(size as nat, |i: int| false),
    };
    for i in 0..size
        invariant
            draws matches Some(d) ==> d@.len() == size,
            wanted == (match draws {
                Some(d) => d@,
                None => Seq::new(size as nat, |i: int| false),
            }),
            bits_of(cells).len() == size,
            forall|j: int| 0 <= j < i ==> bits_of(cells)[j] == wanted[j],
    {
        match draws {
            None => cells.set(i, DEAD_CELL),
            Some(d) => {
                if d[i] {
                    cells.set(i, ALIVE_CELL);
                } else {
                    cells.set(i, DEAD_CELL);
                }
            },
        }
    }
    cells
}

/// The coordinate `delta` steps after `i` on a ring of `n` positions.
fn wrap_add(i: u32, delta: u32, n: u32) -> (wrapped: u32)
    requires
        i < n,
    ensures
        wrapped == (i + delta) % (n as int),
        wrapped < n,
{
    ((i as u64 + delta as u64) % (n as u64)) as u32
}

impl Universe {
    /// The number of cells that the universe has room for.
    pub closed spec fn spec_size(&self) -> nat {
        self.size as nat
    }

    /// The universe is consistent: it holds one cell per grid position, and it
    /// knows how many that is.
    pub open spec fn wf(&self) -> bool {
        &&& self@.wf()
        &&& self.spec_size() == self@.cells.len()
        &&& self@.width <= u32::MAX
        &&& self@.height <= u32::MAX
    }

    /// A universe of the default dimensions, seeded from `draws`: one draw per
    /// cell in row-major order, `true` for a cell that starts alive.
    pub fn new(draws: &[bool]) -> (universe: Universe)
        requires
            draws@.len() == DEFAULT_WIDTH * DEFAULT_HEIGHT,
        ensures
            universe.wf(),
            universe@ == Grid::seeded(draws@),
    {
        let width = DEFAULT_WIDTH;
        let height = DEFAULT_HEIGHT;
        let size = (width * height) as usize;
        let cells = seed_cells(size, Some(draws));
        Universe { width, height, cells, size }
    }

    /// The number of rows.
    pub fn height(&self) -> (height: u32)
        ensures
            height == self@.height,
    {
        self.height
    }

    /// The number of columns.
    pub fn width(&self) -> (width: u32)
        ensures
            width == self@.width,
    {
        self.width
    }

    /// Gives the universe `width` columns and kills every cell.
    pub fn set_width(&mut self, width: u32)
        requires
            old(self).wf(),
            width * old(self)@.height <= usize::MAX,
        ensures
            final(self).wf(),
            final(self)@ == old(self)@.with_width(width as nat),
    {
        self.width = width;
        let size = width as usize * self.height as usize;
        self.size = size;
        self.cells = seed_cells(size, None);
    }

    /// Gives the universe `height` rows and kills every cell.
    pub fn set_height(&mut self, height: u32)
        requires
            old(self).wf(),
            old(self)@.width * height <= usize::MAX,
        ensures
            final(self).wf(),
            final(self)@ == old(self)@.with_height(height as nat),
    {
        self.height = height;
        let size = self.width as usize * height as usize;
        self.size = size;
        self.cells = seed_cells(size, None);
    }

    /// Kills every cell; the dimensions stay.
    pub fn clear(&mut self)
        requires
            old(self).wf(),
        ensures
            final(self).wf(),
            final(self)@ == old(self)@.cleared(),
    {
        self.cells = seed_cells(self.size, None);
    }

    /// Seeds every cell anew from `draws`, one draw per cell in row-major
    /// order; the dimensions stay.
    pub fn reset(&mut self, draws: &[bool])
        requires
            old(self).wf(),
            draws@.len() == old(self)@.cells.len(),
        ensures
            final(self).wf(),
            final(self)@ == old(self)@.reseeded(draws@),
    {
        self.cells = seed_cells(self.size, Some(draws));
    }

    /// Row-major position of the cell at `(row, column)` in the buffer.
    fn get_index(&self, row: u32, column: u32) -> (idx: usize)
        requires
            self.wf(),
            self@.contains(row as int, column as int),
        ensures
            idx == self@.index(row as int, column as int),
            idx < self@.cells.len(),
    {
        assert(row * self.width + column < self.width * self.height) by (nonlinear_arith)
            requires
                row < self.height,
                column < self.width,
        ;
        row as usize * self.width as usize + column as usize
    }

    /// 1 when the cell at `(row, column)` is alive, else 0.
    fn live(&self, row: u32, column: u32) -> (n: u8)
        requires
            self.wf(),
            self@.contains(row as int, column as int),
        ensures
            n == (if self@.alive(row as int, column as int) { 1nat } else { 0nat }),
    {
        let idx = self.get_index(row, column);
        if bit_at(&self.cells, idx) {
            1
        } else {
            0
        }
    }

    /// How many of the eight cells around `(row, column)` are alive, the grid
    /// wrapping at its edges.
    pub fn live_neighbour_count(&self, row: u32, column: u32) -> (count: u8)
        requires
            self.wf(),
            self@.contains(row as int, column as int),
        ensures
            count == self@.live_neighbours(row as int, column as int),
    {
        let north = wrap_add(row, self.height - 1, self.height);
        let middle = wrap_add(row, 0, self.height);
        let south = wrap_add(row, 1, self.height);
        let west = wrap_add(column, self.width - 1, self.width);
        let centre = wrap_add(column, 0, self.width);
        let east = wrap_add(column, 1, self.width);
        proof {
            lemma_mod_add_multiples_vanish(row - 1, self.height as int);
            lemma_mod_add_multiples_vanish(column - 1, self.width as int);
        }
        let above = self.live(north, west) + self.live(north, centre) + self.live(north, east);
        let beside = self.live(middle, west) + self.live(middle, east);
        let below = self.live(south, west) + self.live(south, centre) + self.live(south, east);
        above + beside + below
    }

    /// Advances the universe by one generation. Every cell is judged on the
    /// generation before the call; the new generation replaces it as a whole.
    pub fn tick(&mut self)
        requires
            old(self).wf(),
        ensures
            final(self).wf(),
            final(self)@ == old(self)@.tick(),
    {
        let ghost before = self@;
        let mut next = self.cells.clone();
        for row in 0..self.height
            invariant
                self.wf(),
                self@ == before,
                bits_of(next).len() == before.cells.len(),
                forall|k: int|
                    0 <= k < row * before.width ==> bits_of(next)[k] == before.next_alive(
                        k / (before.width as int),
                        k % (before.width as int),
                    ),
        {
            for col in 0..self.width
                invariant
                    self.wf(),
                    self@ == before,
                    row < before.height,
                    bits_of(next).len() == before.cells.len(),
                    forall|k: int|
                        0 <= k < row * before.width + col ==> bits_of(next)[k]
                            == before.next_alive(
                            k / (before.width as int),
                            k % (before.width as int),
                        ),
            {
                let idx = self.get_index(row, col);
                let cell = bit_at(&self.cells, idx);
                let live_neighbours = self.live_neighbour_count(row, col);
                proof {
                    lemma_fundamental_div_mod_converse(
                        idx as int,
                        before.width as int,
                        row as int,
                        col as int,
                    );
                }
                next.set(idx, next_cell(cell, live_neighbours));
            }
            assert(row * before.width + before.width == (row + 1) * before.width)
                by (nonlinear_arith);
        }
        assert(self.height * before.width == before.cells.len()) by (nonlinear_arith)
            requires
                self.height == before.height,
                before.cells.len() == before.width * before.height,
        ;
        assert(bits_of(next) =~= before.tick().cells);
        self.cells = next;
    }

    /// Flips the cell at `(row, col)`.
    fn toggle(&mut self, row: u32, col: u32)
        requires
            old(self).wf(),
            old(self)@.contains(row as int, col as int),
        ensures
            final(self).wf(),
            final(self)@ == old(self)@.toggled(row as int, col as int),
    {
        let idx = self.get_index(row, col);
        let cell = bit_at(&self.cells, idx);
        self.cells.set(idx, toggle(cell));
    }

    /// Flips each of the named cells, in the order given, so that a cell named
    /// twice ends as it began. Each entry of `positions` is a `[row, col]`
    /// pair. The batch is checked before anything is flipped: when an entry is
    /// not a pair, or names a cell outside the grid, the universe stays as it
    /// was and the error tells the first such entry.
    pub fn draw(&mut self, positions: &[Vec<u32>]) -> (outcome: Result<(), CoordinateError>)
        requires
            old(self).wf(),
        ensures
            final(self).wf(),
            final(self)@.width == old(self)@.width,
            final(self)@.height == old(self)@.height,
            match first_fault(old(self)@, listed(positions@)) {
                Some(fault) => outcome == Err::<(), CoordinateError>(fault) && final(self)@ == old(
                    self,
                )@,
                None => outcome is Ok && final(self)@ == old(self)@.drawn(
                    positions_of(listed(positions@)),
                ),
            },
    {
        let ghost before = self@;
        let ghost entries = listed(positions@);
        for i in 0..positions.len()
            invariant
                self.wf(),
                self@ == before,
                *self == *old(self),
                entries == listed(positions@),
                first_fault(before, entries.take(i as int)) is None,
        {
            let entry = &positions[i];
            proof {
                assert(entries.take(i + 1).drop_last() =~= entries.take(i as int));
            }
            if entry.len() != 2 {
                proof {
                    lemma_fault_in_prefix(before, entries, i + 1);
                }
                return Err(CoordinateError::WrongArity { index: i });
            }
            if entry[0] >= self.height || entry[1] >= self.width {
                proof {
                    lemma_fault_in_prefix(before, entries, i + 1);
                }
                return Err(CoordinateError::OutOfRange { index: i });
            }
        }
        proof {
            assert(entries.take(positions.len() as int) =~= entries);
            lemma_no_fault(before, entries);
        }
        let ghost named = positions_of(entries);
        for i in 0..positions.len()
            invariant
                self.wf(),
                self@.width == before.width,
                self@.height == before.height,
                entries == listed(positions@),
                named == positions_of(entries),
                forall|j: int|
                    0 <= j < entries.len() ==> (#[trigger] entry_fault(before, entries[j], j))
                        is None,
                self@ == before.drawn(named.take(i as int)),
        {
            let entry = &positions[i];
            proof {
                assert(entry_fault(before, entries[i as int], i as int) is None);
                assert(named.take(i + 1).drop_last() =~= named.take(i as int));
            }
            self.toggle(entry[0], entry[1]);
        }
        proof {
            assert(named.take(positions.len() as int) =~= named);
        }
        Ok(())
    }

    /// Sets each of the named `(row, col)` cells alive; the other cells keep
    /// their state. The batch is checked before anything is set: when an entry
    /// names a cell outside the grid, the universe stays as it was and the
    /// error tells the first such entry.
    pub fn set_cells(&mut self, cells: &[(u32, u32)]) -> (outcome: Result<(), CoordinateError>)
        requires
            old(self).wf(),
        ensures
            final(self).wf(),
            final(self)@.width == old(self)@.width,
            final(self)@.height == old(self)@.height,
            match first_fault(old(self)@, paired(cells@)) {
                Some(fault) => outcome == Err::<(), CoordinateError>(fault) && final(self)@ == old(
                    self,
                )@,
                None => outcome is Ok && final(self)@ == old(self)@.with_alive(
                    positions_of(paired(cells@)),
                ),
            },
    {
        let ghost before = self@;
        let ghost entries = paired(cells@);
        for i in 0..cells.len()
            invariant
                self.wf(),
                self@ == before,
                *self == *old(self),
                entries == paired(cells@),
                first_fault(before, entries.take(i as int)) is None,
        {
            let (row, col) = cells[i];
            proof {
                assert(entries.take(i + 1).drop_last() =~= entries.take(i as int));
            }
            if row >= self.height || col >= self.width {
                proof {
                    lemma_fault_in_prefix(before, entries, i + 1);
                }
                return Err(CoordinateError::OutOfRange { index: i });
            }
        }
        proof {
            assert(entries.take(cells.len() as int) =~= entries);
            lemma_no_fault(before, entries);
        }
        let ghost named = positions_of(entries);
        for i in 0..cells.len()
            invariant
                self.wf(),
                self@.width == before.width,
                self@.height == before.height,
                entries == paired(cells@),
                named == positions_of(entries),
                forall|j: int|
                    0 <= j < entries.len() ==> (#[trigger] entry_fault(before, entries[j], j))
                        is None,
                self@ == before.with_alive(named.take(i as int)),
        {
            let (row, col) = cells[i];
            proof {
                assert(entry_fault(before, entries[i as int], i as int) is None);
                assert(named.take(i + 1).drop_last() =~= named.take(i as int));
            }
            let idx = self.get_index(row, col);
            self.cells.set(idx, ALIVE_CELL);
        }
        proof {
            assert(named.take(cells.len() as int) =~= named);
        }
        Ok(())
    }

    /// The universe as text: one line per row, top to bottom, each a glyph per
    /// cell followed by a newline. A universe without cells renders as the
    /// empty text.
    pub fn render(&self) -> (text: String)
        requires
            self.wf(),
        ensures
            text@ == self@.text(),
    {
        let mut text = String::new();
        if self.width == 0 {
            return text;
        }
        proof {
            reveal_strlit("◼");
            reveal_strlit("◻");
            reveal_strlit("\n");
        }
        for row in 0..self.height
            invariant
                self.wf(),
                "◼"@ == seq![glyph(true)],
                "◻"@ == seq![glyph(false)],
                "\n"@ == seq!['\n'],
                text@ == self@.rows_text(row as nat),
        {
            let ghost above = text@;
            for col in 0..self.width
                invariant
                    self.wf(),
                    row < self.height,
                    "◼"@ == seq![glyph(true)],
                    "◻"@ == seq![glyph(false)],
                    text@ == above + Seq::new(
                        col as nat,
                        |c: int| glyph(self@.alive(row as int, c)),
                    ),
            {
                if self.live(row, col) == 1 {
                    text.append("◼");
                } else {
                    text.append("◻");
                }
                assert(text@ =~= above + Seq::new(
                    (col + 1) as nat,
                    |c: int| glyph(self@.alive(row as int, c)),
                ));
            }
            text.append("\n");
        }
        text
    }

    /// The machine words that store the cells, for a renderer that reads them
    /// in place: the cell at `(row, col)` is bit `row * width + col` of the
    /// buffer. The view is good until the universe is next changed.
    pub fn cells(&self) -> (words: &[usize])
        ensures
            packed(words@, self@.cells),
    {
        self.cells.as_slice()
    }

    /// The whole cell buffer, bit `row * width + col` for the cell at
    /// `(row, col)`.
    pub fn get_cells(&self) -> (cells: &FixedBitSet)
        ensures
            bits_of(*cells) == self@.cells,
    {
        &self.cells
    }
}

} // verus!
