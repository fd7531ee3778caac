//! The mathematical model of the simulation.
//!
//! A [`Grid`] is what a universe *is*, apart from how its cells are stored:
//! two dimensions and one boolean per cell, in row-major order. Every
//! operation of the library is specified as a function on grids.

use vstd::prelude::*;

verus! {

/// The glyph that stands for a dead cell in the textual rendering.
pub const DEAD_GLYPH: char = '◻';

/// The glyph that stands for a live cell in the textual rendering.
pub const ALIVE_GLYPH: char = '◼';

/// Width of a freshly made universe.
pub const DEFAULT_WIDTH: u32 = 64;

/// Height of a freshly made universe.
pub const DEFAULT_HEIGHT: u32 = 64;

/// The transition rule for one cell: a live cell stays alive with two or
/// three live neighbours, a dead cell comes alive with exactly three.
pub open spec fn next_state(alive: bool, live_neighbours: nat) -> bool {
    if alive {
        live_neighbours == 2 || live_neighbours == 3
    } else {
        live_neighbours == 3
    }
}

/// The glyph of a cell.
pub open spec fn glyph(alive: bool) -> char {
    if alive {
        ALIVE_GLYPH
    } else {
        DEAD_GLYPH
    }
}

/// A toroidal grid of cells. `cells[row * width + col]` is `true` when the
/// cell at `(row, col)` is alive.
pub struct Grid {
    pub width: nat,
    pub height: nat,
    pub cells: Seq<bool>,
}

impl Grid {
    /// There is exactly one entry of `cells` per grid position.
    pub open spec fn wf(self) -> bool {
        self.cells.len() == self.width * self.height
    }

    /// The grid of the given dimensions in which every cell is dead.
    pub open spec fn dead(width: nat, height: nat) -> Grid {
        Grid { width, height, cells: Seq::new(width * height, |i: int| false) }
    }

    /// The grid of the default dimensions whose cells are `draws`, one entry
    /// per cell in row-major order.
    pub open spec fn seeded(draws: Seq<bool>) -> Grid {
        Grid { width: DEFAULT_WIDTH as nat, height: DEFAULT_HEIGHT as nat, cells: draws }
    }

    /// `(row, col)` names a cell of the grid.
    pub open spec fn contains(self, row: int, col: int) -> bool {
        0 <= row < self.height && 0 <= col < self.width
    }

    /// Row-major position of the cell at `(row, col)`.
    pub open spec fn index(self, row: int, col: int) -> int {
        row * self.width + col
    }

    /// The state of the cell at `(row, col)`.
    pub open spec fn alive(self, row: int, col: int) -> bool {
        self.cells[self.index(row, col)]
    }

    /// The state of the cell reached from `(row, col)` on the torus: both
    /// coordinates are taken modulo the grid's dimensions, so that row `-1`
    /// is the last row and row `height` is the first.
    pub open spec fn alive_wrapped(self, row: int, col: int) -> bool {
        self.alive(row % (self.height as int), col % (self.width as int))
    }

    /// 1 when the cell reached from `(row, col)` on the torus is alive, else 0.
    pub open spec fn live_at(self, row: int, col: int) -> nat {
        if self.alive_wrapped(row, col) {
            1
        } else {
            0
        }
    }

    /// How many of the eight cells around `(row, col)` are alive. The eight
    /// are the cells one step away in each direction on the torus; on a grid
    /// narrower or lower than three cells some of them coincide, and each is
    /// still counted once per direction.
    pub open spec fn live_neighbours(self, row: int, col: int) -> nat {
        self.live_at(row - 1, col - 1) + self.live_at(row - 1, col) + self.live_at(row - 1, col + 1)
            + self.live_at(row, col - 1) + self.live_at(row, col + 1)
            + self.live_at(row + 1, col - 1) + self.live_at(row + 1, col) + self.live_at(row + 1, col + 1)
    }

    /// The state of the cell at `(row, col)` one generation later.
    pub open spec fn next_alive(self, row: int, col: int) -> bool {
        next_state(self.alive(row, col), self.live_neighbours(row, col))
    }

    /// The grid one generation later: every cell follows the rule, all of them
    /// judged on the current generation.
    pub open spec fn tick(self) -> Grid {
        Grid {
            width: self.width,
            height: self.height,
            cells: Seq::new(
                self.cells.len(),
                |i: int| self.next_alive(i / (self.width as int), i % (self.width as int)),
            ),
        }
    }

    /// The grid `n` generations later.
    pub open spec fn ticks(self, n: nat) -> Grid
        decreases n,
    {
        if n == 0 {
            self
        } else {
            self.ticks((n - 1) as nat).tick()
        }
    }

    /// The same grid with every cell dead.
    pub open spec fn cleared(self) -> Grid {
        Grid {
            width: self.width,
            height: self.height,
            cells: Seq::new(self.cells.len(), |i: int| false),
        }
    }

    /// The dead grid with `width` columns and as many rows as this one.
    pub open spec fn with_width(self, width: nat) -> Grid {
        Grid::dead(width, self.height)
    }

    /// The dead grid with `height` rows and as many columns as this one.
    pub open spec fn with_height(self, height: nat) -> Grid {
        Grid::dead(self.width, height)
    }

    /// The same grid with the cells replaced by `draws`, one entry per cell.
    pub open spec fn reseeded(self, draws: Seq<bool>) -> Grid {
        Grid { width: self.width, height: self.height, cells: draws }
    }

    /// The grid with the cell at `(row, col)` flipped.
    pub open spec fn toggled(self, row: int, col: int) -> Grid {
        Grid {
            width: self.width,
            height: self.height,
            cells: self.cells.update(self.index(row, col), !self.alive(row, col)),
        }
    }

    /// The grid with the cell at `(row, col)` alive.
    pub open spec fn lit(self, row: int, col: int) -> Grid {
        Grid {
            width: self.width,
            height: self.height,
            cells: self.cells.update(self.index(row, col), true),
        }
    }

    /// The grid after flipping the named cells one after the other, first to
    /// last.
    pub open spec fn drawn(self, positions: Seq<(int, int)>) -> Grid
        decreases positions.len(),
    {
        if positions.len() == 0 {
            self
        } else {
            self.drawn(positions.drop_last()).toggled(positions.last().0, positions.last().1)
        }
    }

    /// The grid after setting the named cells alive; the others keep their
    /// state.
    pub open spec fn with_alive(self, positions: Seq<(int, int)>) -> Grid
        decreases positions.len(),
    {
        if positions.len() == 0 {
            self
        } else {
            self.with_alive(positions.drop_last()).lit(positions.last().0, positions.last().1)
        }
    }

    /// The text of one row: a glyph per cell, then a newline.
    pub open spec fn row_text(self, row: int) -> Seq<char> {
        Seq::new(self.width, |col: int| glyph(self.alive(row, col))).push('\n')
    }

    /// The text of the first `rows` rows, top to bottom.
    pub open spec fn rows_text(self, rows: nat) -> Seq<char>
        decreases rows,
    {
        if rows == 0 {
            Seq::empty()
        } else {
            self.rows_text((rows - 1) as nat) + self.row_text(rows - 1)
        }
    }

    /// The textual rendering of the grid: one line per row. A grid without
    /// cells renders as the empty text.
    pub open spec fn text(self) -> Seq<char> {
        if self.width == 0 {
            Seq::empty()
        } else {
            self.rows_text(self.height)
        }
    }
}

} // verus!
