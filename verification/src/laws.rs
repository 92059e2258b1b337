//! Laws of the simulation, proved of the model that the contracts of
//! [`Universe`](crate::universe::Universe) are stated over.

use crate::arith::{
    lemma_row_major_place, lemma_row_major_position, lemma_wrap, lemma_wrap_on_ring, row_major,
    wrap,
};
use crate::bitset::{block_bit, packed};
use crate::grid::{addressed, glyph, Grid};
use vstd::prelude::*;

verus! {

/// A generation has the size of the one before it and a cell for every
/// position.
pub proof fn lemma_step_keeps_size(g: Grid)
    ensures
        g.step().width == g.width,
        g.step().height == g.height,
        g.step().wf(),
{
}

/// The course of a simulation is fixed by its first generation: grids of the
/// same size that agree on every cell agree on every cell after any number of
/// generations.
pub proof fn lemma_evolution_is_determined(a: Grid, b: Grid, n: nat)
    requires
        a.width == b.width,
        a.height == b.height,
        a.cells.len() == b.cells.len(),
        forall|i: int| 0 <= i < a.cells.len() ==> a.cells[i] == b.cells[i],
    ensures
        a.evolve(n) == b.evolve(n),
{
    assert(a.cells =~= b.cells);
}

/// Running `n + 1` generations is running `n` generations and then one more.
pub proof fn lemma_evolve_one_more(g: Grid, n: nat)
    ensures
        g.evolve(n + 1) == g.evolve(n).step(),
    decreases n,
{
    reveal_with_fuel(Grid::evolve, 2);
    if n > 0 {
        lemma_evolve_one_more(g.step(), (n - 1) as nat);
    }
}

/// Bringing the same cells to life a second time changes nothing.
pub proof fn lemma_with_alive_idempotent(g: Grid, rows: Seq<u32>, cols: Seq<u32>)
    ensures
        g.with_alive(rows, cols).with_alive(rows, cols) == g.with_alive(rows, cols),
{
    assert(g.with_alive(rows, cols).with_alive(rows, cols).cells =~= g.with_alive(
        rows,
        cols,
    ).cells);
}

/// Every cell that the lists name is alive afterwards, and every cell that
/// they do not name is as it was.
pub proof fn lemma_with_alive_reads_back(g: Grid, rows: Seq<u32>, cols: Seq<u32>, row: int, col: int)
    requires
        g.wf(),
        g.in_bounds(row, col),
    ensures
        g.with_alive(rows, cols).alive(row, col) == (g.alive(row, col) || addressed(
            rows,
            cols,
            row,
            col,
        )),
{
    lemma_row_major_position(row, col, g.width, g.height);
}

/// Toggling a cell flips it and leaves every other cell as it was.
pub proof fn lemma_toggle_reads_back(g: Grid, row: int, col: int, r: int, c: int)
    requires
        g.wf(),
        g.in_bounds(row, col),
        g.in_bounds(r, c),
    ensures
        g.toggle(row, col).alive(r, c) == if r == row && c == col {
            !g.alive(r, c)
        } else {
            g.alive(r, c)
        },
{
    lemma_row_major_position(row, col, g.width, g.height);
    lemma_row_major_position(r, c, g.width, g.height);
}

/// The text of a grid shows each cell where its row and column say: the
/// glyph of the cell at `(row, col)` stands at place `col` of line `row`,
/// each line being one place longer than the grid is wide, and the last
/// place of each line holds the line break.
pub proof fn lemma_render_shows_cell(g: Grid, row: int, col: int)
    requires
        g.wf(),
        g.in_bounds(row, col),
    ensures
        0 <= row_major(row, col, g.width + 1) < g.render().len(),
        g.render()[row_major(row, col, g.width + 1)] == glyph(g.alive(row, col)),
        0 <= row_major(row, g.width as int, g.width + 1) < g.render().len(),
        g.render()[row_major(row, g.width as int, g.width + 1)] == '\n',
{
    let stride = g.width + 1;
    lemma_row_major_position(row, col, stride, g.height);
    lemma_row_major_position(row, g.width as int, stride, g.height);
    assert(g.height * stride == stride * g.height) by (nonlinear_arith);
}

/// Blocks that pack the cells of a grid hold each cell's state in the bit
/// that its row-major index names.
pub proof fn lemma_packed_shows_cell(g: Grid, blocks: Seq<u32>, row: int, col: int)
    requires
        g.wf(),
        g.in_bounds(row, col),
        packed(blocks, g.cells),
    ensures
        0 <= g.index(row, col) / 32 < blocks.len(),
        block_bit(blocks[g.index(row, col) / 32], (g.index(row, col) % 32) as u32) == g.alive(
            row,
            col,
        ),
{
    lemma_row_major_position(row, col, g.width, g.height);
}

/// What a toggle writes is what the text and the packed blocks of the grid
/// show afterwards: the glyph at the cell's place in the text and the cell's
/// bit in the blocks both stand for the flipped state.
pub proof fn lemma_toggle_round_trip(g: Grid, row: int, col: int, blocks: Seq<u32>)
    requires
        g.wf(),
        g.in_bounds(row, col),
        packed(blocks, g.toggle(row, col).cells),
    ensures
        g.toggle(row, col).render()[row_major(row, col, g.width + 1)] == glyph(
            !g.alive(row, col),
        ),
        block_bit(blocks[g.index(row, col) / 32], (g.index(row, col) % 32) as u32) == !g.alive(
            row,
            col,
        ),
{
    let after = g.toggle(row, col);
    lemma_row_major_position(row, col, g.width, g.height);
    lemma_toggle_reads_back(g, row, col, row, col);
    lemma_render_shows_cell(after, row, col);
    lemma_packed_shows_cell(after, blocks, row, col);
}

/// What bringing cells to life writes is what the text and the packed blocks
/// of the grid show afterwards: for every pair of the lists, the glyph at the
/// cell's place in the text is that of a live cell, and the cell's bit in the
/// blocks is set.
pub proof fn lemma_with_alive_round_trip(
    g: Grid,
    rows: Seq<u32>,
    cols: Seq<u32>,
    k: int,
    blocks: Seq<u32>,
)
    requires
        g.wf(),
        rows.len() == cols.len(),
        0 <= k < rows.len(),
        g.in_bounds(rows[k] as int, cols[k] as int),
        packed(blocks, g.with_alive(rows, cols).cells),
    ensures
        g.with_alive(rows, cols).render()[row_major(rows[k] as int, cols[k] as int, g.width + 1)]
            == glyph(true),
        block_bit(
            blocks[g.index(rows[k] as int, cols[k] as int) / 32],
            (g.index(rows[k] as int, cols[k] as int) % 32) as u32,
        ),
{
    let after = g.with_alive(rows, cols);
    let row = rows[k] as int;
    let col = cols[k] as int;
    assert(addressed(rows, cols, row, col));
    lemma_with_alive_reads_back(g, rows, cols, row, col);
    lemma_render_shows_cell(after, row, col);
    lemma_packed_shows_cell(after, blocks, row, col);
}

/// 1 for `true`, 0 for `false`.
spec fn one_if(b: bool) -> nat {
    if b {
        1
    } else {
        0
    }
}

/// The neighbour count on a grid whose live cells are exactly those that
/// stand in one of the rows `rows` and in one of the columns `cols`: the rows
/// above and below add the marked columns among the three around `c`, the
/// cell's own row adds the marked columns to its left and right.
proof fn lemma_neighbors_of_rectangle(
    g: Grid,
    rows: spec_fn(int) -> bool,
    cols: spec_fn(int) -> bool,
    r: int,
    c: int,
)
    requires
        g.wf(),
        g.in_bounds(r, c),
        forall|x: int, y: int|
            g.in_bounds(x, y) ==> (#[trigger] g.alive(x, y) <==> rows(x) && cols(y)),
    ensures
        g.live_neighbors(r, c) == ({
            let left = one_if(cols(wrap(c - 1, g.width)));
            let here = one_if(cols(c));
            let right = one_if(cols(wrap(c + 1, g.width)));
            (if rows(wrap(r - 1, g.height)) {
                left + here + right
            } else {
                0
            }) + (if rows(r) {
                left + right
            } else {
                0
            }) + (if rows(wrap(r + 1, g.height)) {
                left + here + right
            } else {
                0
            })
        }),
{
    lemma_wrap_on_ring(r - 1, g.height);
    lemma_wrap_on_ring(r + 1, g.height);
    lemma_wrap(r, g.height);
    lemma_wrap_on_ring(c - 1, g.width);
    lemma_wrap_on_ring(c + 1, g.width);
    lemma_wrap(c, g.width);
}

/// The live cells of `g` are exactly the four cells of the two-by-two block
/// whose upper left cell is `(row, col)`. The block may reach over an edge of
/// the grid and go on at the opposite edge.
pub open spec fn is_block(g: Grid, row: int, col: int) -> bool {
    forall|r: int, c: int|
        g.in_bounds(r, c) ==> (#[trigger] g.alive(r, c) <==> (r == row || r == wrap(
            row + 1,
            g.height,
        )) && (c == col || c == wrap(col + 1, g.width)))
}

/// On a grid that holds a two-by-two block and nothing else, every cell is in
/// the next generation what it is now.
proof fn lemma_block_cell_is_still(g: Grid, row: int, col: int, r: int, c: int)
    requires
        g.wf(),
        g.width >= 4,
        g.height >= 4,
        g.in_bounds(row, col),
        g.in_bounds(r, c),
        is_block(g, row, col),
    ensures
        g.next_alive(r, c) == g.alive(r, c),
{
    let rows = |x: int| x == row || x == wrap(row + 1, g.height);
    let cols = |y: int| y == col || y == wrap(col + 1, g.width);
    lemma_neighbors_of_rectangle(g, rows, cols, r, c);
    lemma_wrap(row + 1, g.height);
    lemma_wrap(r - 1, g.height);
    lemma_wrap(r + 1, g.height);
    lemma_wrap(col + 1, g.width);
    lemma_wrap(c - 1, g.width);
    lemma_wrap(c + 1, g.width);
}

/// A two-by-two block of live cells on an otherwise dead grid of at least
/// four rows and four columns is a still life: the next generation is the
/// same grid. This holds wherever the block stands, also across the edges.
pub proof fn lemma_block_is_still(g: Grid, row: int, col: int)
    requires
        g.wf(),
        g.width >= 4,
        g.height >= 4,
        g.in_bounds(row, col),
        is_block(g, row, col),
    ensures
        g.step() == g,
{
    assert forall|i: int| 0 <= i < g.cells.len() implies g.step().cells[i] == g.cells[i] by {
        lemma_row_major_place(i, g.width, g.height);
        lemma_block_cell_is_still(g, row, col, i / (g.width as int), i % (g.width as int));
    }
    assert(g.step().cells =~= g.cells);
}

/// The live cells of `g` are exactly three in a row: the cell at
/// `(row, col)` and its neighbours to the left and to the right, around the
/// edge where the row ends.
pub open spec fn is_horizontal_blinker(g: Grid, row: int, col: int) -> bool {
    forall|r: int, c: int|
        g.in_bounds(r, c) ==> (#[trigger] g.alive(r, c) <==> r == row && (c == wrap(
            col - 1,
            g.width,
        ) || c == col || c == wrap(col + 1, g.width)))
}

/// The live cells of `g` are exactly three in a column: the cell at
/// `(row, col)` and its neighbours above and below, around the edge where the
/// column ends.
pub open spec fn is_vertical_blinker(g: Grid, row: int, col: int) -> bool {
    forall|r: int, c: int|
        g.in_bounds(r, c) ==> (#[trigger] g.alive(r, c) <==> c == col && (r == wrap(
            row - 1,
            g.height,
        ) || r == row || r == wrap(row + 1, g.height)))
}

/// A cell of the next generation is the cell of this generation's rule at
/// the same position.
proof fn lemma_step_alive(g: Grid, r: int, c: int)
    requires
        g.wf(),
        g.in_bounds(r, c),
    ensures
        g.step().alive(r, c) == g.next_alive(r, c),
{
    lemma_row_major_position(r, c, g.width, g.height);
}

/// Grids of the same size in which the same cells are alive are the same
/// grid.
proof fn lemma_same_cells(a: Grid, b: Grid)
    requires
        a.wf(),
        b.wf(),
        a.width == b.width,
        a.height == b.height,
        forall|r: int, c: int| a.in_bounds(r, c) ==> a.alive(r, c) == b.alive(r, c),
    ensures
        a == b,
{
    assert forall|i: int| 0 <= i < a.cells.len() implies a.cells[i] == b.cells[i] by {
        lemma_row_major_place(i, a.width, a.height);
        let r = i / (a.width as int);
        let c = i % (a.width as int);
        assert(a.alive(r, c) == b.alive(r, c));
    }
    assert(a.cells =~= b.cells);
}

/// One generation turns a horizontal blinker into the vertical blinker with
/// the same middle cell.
pub proof fn lemma_blinker_turns_vertical(g: Grid, row: int, col: int)
    requires
        g.wf(),
        g.width >= 5,
        g.height >= 5,
        g.in_bounds(row, col),
        is_horizontal_blinker(g, row, col),
    ensures
        is_vertical_blinker(g.step(), row, col),
{
    let rows = |x: int| x == row;
    let cols = |y: int| y == wrap(col - 1, g.width) || y == col || y == wrap(col + 1, g.width);
    lemma_wrap(row - 1, g.height);
    lemma_wrap(row + 1, g.height);
    lemma_wrap(col - 1, g.width);
    lemma_wrap(col + 1, g.width);
    assert forall|r: int, c: int| g.in_bounds(r, c) implies (#[trigger] g.step().alive(r, c) <==> c
        == col && (r == wrap(row - 1, g.height) || r == row || r == wrap(row + 1, g.height))) by {
        lemma_step_alive(g, r, c);
        lemma_neighbors_of_rectangle(g, rows, cols, r, c);
        lemma_wrap(r - 1, g.height);
        lemma_wrap(r + 1, g.height);
        lemma_wrap(c - 1, g.width);
        lemma_wrap(c + 1, g.width);
    }
}

/// One generation turns a vertical blinker into the horizontal blinker with
/// the same middle cell.
pub proof fn lemma_blinker_turns_horizontal(g: Grid, row: int, col: int)
    requires
        g.wf(),
        g.width >= 5,
        g.height >= 5,
        g.in_bounds(row, col),
        is_vertical_blinker(g, row, col),
    ensures
        is_horizontal_blinker(g.step(), row, col),
{
    let rows = |x: int| x == wrap(row - 1, g.height) || x == row || x == wrap(row + 1, g.height);
    let cols = |y: int| y == col;
    lemma_wrap(row - 1, g.height);
    lemma_wrap(row + 1, g.height);
    lemma_wrap(col - 1, g.width);
    lemma_wrap(col + 1, g.width);
    assert forall|r: int, c: int| g.in_bounds(r, c) implies (#[trigger] g.step().alive(r, c) <==> r
        == row && (c == wrap(col - 1, g.width) || c == col || c == wrap(col + 1, g.width))) by {
        lemma_step_alive(g, r, c);
        lemma_neighbors_of_rectangle(g, rows, cols, r, c);
        lemma_wrap(r - 1, g.height);
        lemma_wrap(r + 1, g.height);
        lemma_wrap(c - 1, g.width);
        lemma_wrap(c + 1, g.width);
    }
}

/// A blinker on a grid of at least five rows and five columns is an
/// oscillator of period two: one generation turns it from horizontal to
/// vertical, which is another grid, and the generation after that gives the
/// first grid back.
pub proof fn lemma_blinker_has_period_two(g: Grid, row: int, col: int)
    requires
        g.wf(),
        g.width >= 5,
        g.height >= 5,
        g.in_bounds(row, col),
        is_horizontal_blinker(g, row, col),
    ensures
        is_vertical_blinker(g.step(), row, col),
        g.step() != g,
        g.step().step() == g,
{
    lemma_blinker_turns_vertical(g, row, col);
    lemma_blinker_turns_horizontal(g.step(), row, col);
    lemma_same_cells(g.step().step(), g);
    lemma_wrap(col + 1, g.width);
    lemma_wrap_on_ring(col + 1, g.width);
    assert(g.alive(row, wrap(col + 1, g.width)));
    assert(!g.step().alive(row, wrap(col + 1, g.width)));
}

/// On a torus of three rows and three columns the eight neighbours of a cell
/// are the eight other cells, whether the cell stands in a corner, on an edge
/// or in the middle: where all of them are alive, the cell counts eight.
pub proof fn lemma_small_torus_counts_all_others(g: Grid, row: int, col: int)
    requires
        g.wf(),
        g.width == 3,
        g.height == 3,
        g.in_bounds(row, col),
        forall|r: int, c: int|
            g.in_bounds(r, c) && (r != row || c != col) ==> #[trigger] g.alive(r, c),
    ensures
        g.live_neighbors(row, col) == 8,
{
    lemma_wrap(row - 1, 3);
    lemma_wrap(row, 3);
    lemma_wrap(row + 1, 3);
    lemma_wrap(col - 1, 3);
    lemma_wrap(col, 3);
    lemma_wrap(col + 1, 3);
}

/// On a grid of one cell the cell is its own neighbour in all eight
/// directions: it counts eight live neighbours when it is alive and none when
/// it is dead, and it is dead in the next generation either way.
pub proof fn lemma_single_cell(g: Grid)
    requires
        g.wf(),
        g.width == 1,
        g.height == 1,
    ensures
        g.live_neighbors(0, 0) == if g.alive(0, 0) {
            8nat
        } else {
            0nat
        },
        !g.next_alive(0, 0),
{
    lemma_wrap(-1, 1);
    lemma_wrap(0, 1);
    lemma_wrap(1, 1);
}

/// A grid without columns or without rows has no cells, and a generation
/// leaves it as it is.
pub proof fn lemma_empty_grid_is_still(g: Grid)
    requires
        g.wf(),
        g.width == 0 || g.height == 0,
    ensures
        g.cells.len() == 0,
        g.step() == g,
{
    assert(g.width * g.height == 0) by (nonlinear_arith)
        requires
            g.width == 0 || g.height == 0,
    ;
    assert(g.step().cells =~= g.cells);
}

} // verus!
