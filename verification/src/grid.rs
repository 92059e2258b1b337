//! The mathematical model of the simulation: a rectangle of cells laid out
//! row by row, and the rule that takes one generation to the next.

use crate::arith::{row_major, wrap};
use vstd::prelude::*;

verus! {

/// Whether a cell lives in the next generation, given whether it lives now
/// and how many of its eight neighbours do: a live cell survives with two or
/// three live neighbours, a dead cell is born with exactly three.
pub open spec fn lives_on(alive: bool, live_neighbors: nat) -> bool {
    live_neighbors == 3 || (alive && live_neighbors == 2)
}

/// The character that stands for a cell in the text form of a grid.
pub open spec fn glyph(alive: bool) -> char {
    if alive {
        '◼'
    } else {
        '◻'
    }
}

/// Whether the coordinate lists `rows` and `cols`, read in pairs, name the
/// cell at `(row, col)`.
pub open spec fn addressed(rows: Seq<u32>, cols: Seq<u32>, row: int, col: int) -> bool {
    exists|k: int| 0 <= k < rows.len() && k < cols.len() && #[trigger] rows[k] == row && cols[k] == col
}

/// One generation: `width * height` cells in row-major order, `true` for a
/// live cell.
pub struct Grid {
    pub width: nat,
    pub height: nat,
    pub cells: Seq<bool>,
}

impl Grid {
    /// There is exactly one cell for each position.
    pub open spec fn wf(self) -> bool {
        self.cells.len() == self.width * self.height
    }

    /// Whether `(row, col)` lies on the grid.
    pub open spec fn in_bounds(self, row: int, col: int) -> bool {
        0 <= row < self.height && 0 <= col < self.width
    }

    /// Where the cell at `(row, col)` stands in `cells`.
    pub open spec fn index(self, row: int, col: int) -> int {
        row_major(row, col, self.width)
    }

    /// Whether the cell at `(row, col)` is alive.
    pub open spec fn alive(self, row: int, col: int) -> bool {
        self.cells[self.index(row, col)]
    }

    /// What the cell at `(row, col)` adds to a neighbour count, where the
    /// coordinates may lie one step off the grid and wrap around its edges.
    pub open spec fn population(self, row: int, col: int) -> nat {
        if self.alive(wrap(row, self.height), wrap(col, self.width)) {
            1
        } else {
            0
        }
    }

    /// How many of the eight neighbours of `(row, col)` are alive on the torus.
    pub open spec fn live_neighbors(self, row: int, col: int) -> nat {
        self.population(row - 1, col - 1) + self.population(row - 1, col) + self.population(
            row - 1,
            col + 1,
        ) + self.population(row, col - 1) + self.population(row, col + 1) + self.population(
            row + 1,
            col - 1,
        ) + self.population(row + 1, col) + self.population(row + 1, col + 1)
    }

    /// Whether the cell at `(row, col)` is alive in the next generation.
    pub open spec fn next_alive(self, row: int, col: int) -> bool {
        lives_on(self.alive(row, col), self.live_neighbors(row, col))
    }

    /// The next generation. Every cell is computed from this generation alone.
    pub open spec fn step(self) -> Grid {
        Grid {
            width: self.width,
            height: self.height,
            cells: Seq::new(
                self.width * self.height,
                |i: int| self.next_alive(i / (self.width as int), i % (self.width as int)),
            ),
        }
    }

    /// The grid after `n` generations.
    pub open spec fn evolve(self, n: nat) -> Grid
        decreases n,
    {
        if n == 0 {
            self
        } else {
            self.step().evolve((n - 1) as nat)
        }
    }

    /// The grid with the cell at `(row, col)` flipped.
    pub open spec fn toggle(self, row: int, col: int) -> Grid {
        Grid {
            width: self.width,
            height: self.height,
            cells: self.cells.update(self.index(row, col), !self.alive(row, col)),
        }
    }

    /// The grid with every cell that `rows` and `cols` name alive, and every
    /// other cell as it was.
    pub open spec fn with_alive(self, rows: Seq<u32>, cols: Seq<u32>) -> Grid {
        Grid {
            width: self.width,
            height: self.height,
            cells: Seq::new(
                self.cells.len(),
                |i: int|
                    self.cells[i] || addressed(
                        rows,
                        cols,
                        i / (self.width as int),
                        i % (self.width as int),
                    ),
            ),
        }
    }

    /// The grid as text: one line per row, one glyph per cell, and a line
    /// break after each row.
    pub open spec fn render(self) -> Seq<char> {
        Seq::new(
            self.height * (self.width + 1),
            |k: int|
                {
                    let row = k / (self.width + 1) as int;
                    let col = k % (self.width + 1) as int;
                    if col == self.width {
                        '\n'
                    } else {
                        glyph(self.alive(row, col))
                    }
                },
        )
    }
}

} // verus!
