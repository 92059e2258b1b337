//! The executable grid.

use crate::arith::{
    lemma_row_major_place, lemma_row_major_position, lemma_row_major_rows, lemma_row_major_walk,
    lemma_wrap, row_major,
};
use crate::bitset::{bits_of, packed, read_bit};
use crate::cell::Cell;
use crate::grid::{addressed, Grid};
use fixedbitset::FixedBitSet;
use vstd::prelude::*;

verus! {

/// A toroidal grid of cells, one bit per cell, `width * height` bits in
/// row-major order.
pub struct Universe {
    width: u32,
    height: u32,
    cells: FixedBitSet,
}

/// Builds the bits of a `height` by `width` grid from `seed`, which holds the
/// first state of each cell in row-major order.
fn gen_cells(height: u32, width: u32, seed: &[bool]) -> (cells: FixedBitSet)
    requires
        width * height <= u32::MAX,
        seed@.len() == width * height,
    ensures
        bits_of(cells) == seed@,
{
    let size = (width * height) as usize;
    let mut cells = FixedBitSet::with_capacity(size);
    for i in 0..size
        invariant
            size == seed@.len(),
            bits_of(cells).len() == size,
            forall|j: int| 0 <= j < i ==> bits_of(cells)[j] == seed@[j],
    {
        cells.set(i, seed[i]);
    }
    assert(bits_of(cells) =~= seed@);
    cells
}

impl View for Universe {
    type V = Grid;

    closed spec fn view(&self) -> Grid {
        Grid {
            width: self.width as nat,
            height: self.height as nat,
            cells: bits_of(self.cells),
        }
    }
}

impl Universe {
    /// There is one bit for each cell, and the number of cells fits in 32
    /// bits. Every `Universe` that this library hands out is well formed, and
    /// every method keeps it so.
    pub open spec fn wf(&self) -> bool {
        &&& self@.wf()
        &&& self@.cells.len() <= u32::MAX
    }

    /// Creates a grid of `width` columns and `height` rows whose cells start
    /// in the states that `seed` gives, row by row. A caller that wants a
    /// random universe draws `seed` from its source of randomness.
    pub fn new(width: u32, height: u32, seed: &[bool]) -> (universe: Universe)
        requires
            width * height <= u32::MAX,
            seed@.len() == width * height,
        ensures
            universe.wf(),
            universe@ == (Grid { width: width as nat, height: height as nat, cells: seed@ }),
    {
        let cells = gen_cells(height, width, seed);

        Universe { width, height, cells }
    }

    /// Sets the width of the grid.
    ///
    /// This makes a new grid: no cell keeps its state, and every cell starts
    /// in the state that `seed` gives it.
    pub fn set_width(&mut self, width: u32, seed: &[bool])
        requires
            width * old(self)@.height <= u32::MAX,
            seed@.len() == width * old(self)@.height,
        ensures
            final(self).wf(),
            final(self)@ == (Grid {
                width: width as nat,
                height: old(self)@.height,
                cells: seed@,
            }),
    {
        self.width = width;
        self.cells = gen_cells(self.height, width, seed);
    }

    /// The number of columns.
    pub fn width(&self) -> (width: u32)
        ensures
            width == self@.width,
    {
        self.width
    }

    /// Sets the height of the grid.
    ///
    /// This makes a new grid: no cell keeps its state, and every cell starts
    /// in the state that `seed` gives it.
    pub fn set_height(&mut self, height: u32, seed: &[bool])
        requires
            old(self)@.width * height <= u32::MAX,
            seed@.len() == old(self)@.width * height,
        ensures
            final(self).wf(),
            final(self)@ == (Grid {
                width: old(self)@.width,
                height: height as nat,
                cells: seed@,
            }),
    {
        self.height = height;
        self.cells = gen_cells(height, self.width, seed);
    }

    /// The number of rows.
    pub fn height(&self) -> (height: u32)
        ensures
            height == self@.height,
    {
        self.height
    }

    /// Brings to life every cell that `rows` and `cols` name, pair by pair,
    /// and leaves every other cell as it is.
    pub fn set_cells(&mut self, rows: &[u32], cols: &[u32])
        requires
            old(self).wf(),
            rows@.len() == cols@.len(),
            forall|k: int|
                0 <= k < rows@.len() ==> old(self)@.in_bounds(rows@[k] as int, cols@[k] as int),
        ensures
            final(self).wf(),
            final(self)@ == old(self)@.with_alive(rows@, cols@),
    {
        let ghost before = self@;
        assert(self@.cells =~= before.with_alive(rows@.take(0), cols@.take(0)).cells);
        for i in 0..rows.len()
            invariant
                self.wf(),
                before.wf(),
                before == old(self)@,
                rows@.len() == cols@.len(),
                forall|k: int|
                    0 <= k < rows@.len() ==> before.in_bounds(rows@[k] as int, cols@[k] as int),
                self@ == before.with_alive(rows@.take(i as int), cols@.take(i as int)),
        {
            let row = rows[i];
            let idx = self.get_index(row, cols[i]);
            self.cells.set(idx, true);
            proof {
                let earlier = before.with_alive(rows@.take(i as int), cols@.take(i as int));
                let now = before.with_alive(rows@.take(i + 1), cols@.take(i + 1));
                lemma_row_major_position(
                    row as int,
                    cols@[i as int] as int,
                    before.width,
                    before.height,
                );
                assert forall|j: int| 0 <= j < now.cells.len() implies now.cells[j]
                    == earlier.cells.update(idx as int, true)[j] by {
                    lemma_row_major_place(j, before.width, before.height);
                    lemma_addressed_push(
                        rows@.take(i + 1),
                        cols@.take(i + 1),
                        j / (before.width as int),
                        j % (before.width as int),
                    );
                    assert(rows@.take(i + 1).drop_last() == rows@.take(i as int));
                    assert(cols@.take(i + 1).drop_last() == cols@.take(i as int));
                }
                assert(now.cells =~= earlier.cells.update(idx as int, true));
            }
        }
        assert(rows@.take(rows@.len() as int) == rows@);
        assert(cols@.take(rows@.len() as int) == cols@);
    }

    /// The blocks that hold the cells, 32 cells to a block in row-major
    /// order, the first cell of a block in its lowest bit.
    pub fn cells(&self) -> (blocks: &[u32])
        ensures
            packed(blocks@, self@.cells),
    {
        self.cells.as_slice()
    }

    /// Flips the cell at `(row, column)` and leaves every other cell as it is.
    pub fn toggle_cell(&mut self, row: u32, column: u32)
        requires
            old(self).wf(),
            old(self)@.in_bounds(row as int, column as int),
        ensures
            final(self).wf(),
            final(self)@ == old(self)@.toggle(row as int, column as int),
    {
        let idx = self.get_index(row, column);
        let cell = read_bit(&self.cells, idx);
        self.cells.set(idx, !cell);
    }

    /// The grid as text: a line for each row, `◼` for a live cell and `◻`
    /// for a dead one, and a line break at the end of every row.
    pub fn render(&self) -> (text: String)
        requires
            self.wf(),
        ensures
            text@ == self@.render(),
    {
        let ghost stride = (self.width + 1) as nat;
        let ghost rows = self.height as nat;
        let mut text = String::new();
        proof {
            lemma_row_major_walk(0, 0, stride);
            assert(rows * stride == stride * rows) by (nonlinear_arith);
        }
        for row in 0..self.height
            invariant
                self.wf(),
                stride == self.width + 1,
                rows == self.height,
                self@.render().len() == stride * rows,
                text@.len() == row_major(row as int, 0, stride),
                forall|k: int| 0 <= k < text@.len() ==> text@[k] == self@.render()[k],
        {
            for col in 0..self.width
                invariant
                    self.wf(),
                    stride == self.width + 1,
                    rows == self.height,
                    self@.render().len() == stride * rows,
                    row < self.height,
                    text@.len() == row_major(row as int, col as int, stride),
                    forall|k: int| 0 <= k < text@.len() ==> text@[k] == self@.render()[k],
            {
                let idx = self.get_index(row, col);
                let cell = if read_bit(&self.cells, idx) {
                    Cell::Alive
                } else {
                    Cell::Dead
                };
                let symbol = if cell == Cell::Dead {
                    '◻'
                } else {
                    '◼'
                };
                proof {
                    lemma_row_major_position(row as int, col as int, stride, rows);
                    lemma_row_major_walk(row as int, col as int, stride);
                }
                text.push(symbol);
            }
            proof {
                lemma_row_major_position(row as int, self.width as int, stride, rows);
                lemma_row_major_walk(row as int, self.width as int, stride);
            }
            text.push('\n');
        }
        proof {
            lemma_row_major_rows(rows, stride);
        }
        assert(text@ =~= self@.render());
        text
    }

    /// The place of the cell at `(row, column)` in the row-major bit
    /// sequence.
    pub fn get_index(&self, row: u32, column: u32) -> (idx: usize)
        requires
            self.wf(),
            self@.in_bounds(row as int, column as int),
        ensures
            idx == self@.index(row as int, column as int),
            idx < self@.cells.len(),
    {
        proof {
            reveal(row_major);
            lemma_row_major_position(
                row as int,
                column as int,
                self.width as nat,
                self.height as nat,
            );
        }
        ((row * self.width) + column) as usize
    }

    /// The number of live cells among the eight neighbours of
    /// `(row, column)`, where the grid's edges wrap around.
    pub fn live_neighbor_count(&self, row: u32, column: u32) -> (count: u8)
        requires
            self.wf(),
            self@.in_bounds(row as int, column as int),
        ensures
            count == self@.live_neighbors(row as int, column as int),
    {
        proof {
            lemma_wrap(row - 1, self.height as nat);
            lemma_wrap(row + 1, self.height as nat);
            lemma_wrap(row as int, self.height as nat);
            lemma_wrap(column - 1, self.width as nat);
            lemma_wrap(column + 1, self.width as nat);
            lemma_wrap(column as int, self.width as nat);
        }
        let mut count: u8 = 0;

        let north = if row == 0 {
            self.height - 1
        } else {
            row - 1
        };

        let south = if row == self.height - 1 {
            0
        } else {
            row + 1
        };

        let west = if column == 0 {
            self.width - 1
        } else {
            column - 1
        };

        let east = if column == self.width - 1 {
            0
        } else {
            column + 1
        };

        let nw = self.get_index(north, west);
        if read_bit(&self.cells, nw) {
            count += 1;
        }

        let n = self.get_index(north, column);
        if read_bit(&self.cells, n) {
            count += 1;
        }

        let ne = self.get_index(north, east);
        if read_bit(&self.cells, ne) {
            count += 1;
        }

        let w = self.get_index(row, west);
        if read_bit(&self.cells, w) {
            count += 1;
        }

        let e = self.get_index(row, east);
        if read_bit(&self.cells, e) {
            count += 1;
        }

        let sw = self.get_index(south, west);
        if read_bit(&self.cells, sw) {
            count += 1;
        }

        let s = self.get_index(south, column);
        if read_bit(&self.cells, s) {
            count += 1;
        }

        let se = self.get_index(south, east);
        if read_bit(&self.cells, se) {
            count += 1;
        }

        count
    }

    /// Advances the grid by one generation. Every cell of the new generation
    /// is computed from the old one; the grid's size stays as it is.
    pub fn tick(&mut self)
        requires
            old(self).wf(),
        ensures
            final(self).wf(),
            final(self)@ == old(self)@.step(),
    {
        let mut next = self.cells.clone();
        proof {
            lemma_row_major_walk(0, 0, self.width as nat);
        }

        for row in 0..self.height
            invariant
                *self == *old(self),
                self.wf(),
                bits_of(next).len() == self@.cells.len(),
                forall|i: int|
                    0 <= i < self@.index(row as int, 0) ==> bits_of(next)[i]
                        == self@.step().cells[i],
        {
            for col in 0..self.width
                invariant
                    *self == *old(self),
                    self.wf(),
                    row < self.height,
                    bits_of(next).len() == self@.cells.len(),
                    forall|i: int|
                        0 <= i < self@.index(row as int, col as int) ==> bits_of(next)[i]
                            == self@.step().cells[i],
            {
                let idx = self.get_index(row, col);
                let cell = read_bit(&self.cells, idx);
                let live_neighbors = self.live_neighbor_count(row, col);
                proof {
                    lemma_row_major_position(
                        row as int,
                        col as int,
                        self.width as nat,
                        self.height as nat,
                    );
                    lemma_row_major_walk(row as int, col as int, self.width as nat);
                }
                next.set(
                    idx,
                    match (cell, live_neighbors) {
                        (true, x) if x < 2 => false,
                        (true, 2) | (true, 3) => true,
                        (true, x) if x > 3 => false,
                        (false, 3) => true,
                        (otherwise, _) => otherwise,
                    },
                );
            }
            proof {
                lemma_row_major_walk(row as int, self.width as int, self.width as nat);
            }
        }

        proof {
            lemma_row_major_rows(self.height as nat, self.width as nat);
            assert(bits_of(next) =~= self@.step().cells);
        }
        self.cells = next;
    }
}

/// The lists name a cell exactly if they name it without their last pair or
/// their last pair is that cell.
proof fn lemma_addressed_push(rows: Seq<u32>, cols: Seq<u32>, row: int, col: int)
    requires
        rows.len() == cols.len(),
        rows.len() > 0,
    ensures
        addressed(rows, cols, row, col) <==> addressed(
            rows.drop_last(),
            cols.drop_last(),
            row,
            col,
        ) || (rows.last() == row && cols.last() == col),
{
    let short_rows = rows.drop_last();
    let short_cols = cols.drop_last();
    if addressed(rows, cols, row, col) {
        let k = choose|k: int|
            0 <= k < rows.len() && k < cols.len() && #[trigger] rows[k] == row && cols[k] == col;
        if k < rows.len() - 1 {
            assert(short_rows[k] == row && short_cols[k] == col);
        }
    }
    if addressed(short_rows, short_cols, row, col) {
        let k = choose|k: int|
            0 <= k < short_rows.len() && k < short_cols.len() && #[trigger] short_rows[k] == row
                && short_cols[k] == col;
        assert(rows[k] == row && cols[k] == col);
    }
    if rows.last() == row && cols.last() == col {
        assert(rows[rows.len() - 1] == row && cols[rows.len() - 1] == col);
    }
}

} // verus!
