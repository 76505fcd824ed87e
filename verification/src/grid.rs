//! The automaton state: a square toroidal grid of cells, with neighbor
//! counting and the per-generation update.

use vstd::prelude::*;
use crate::cell::Cell;
use crate::cell::live_weight;
use crate::cell::spec_next_state;

verus! {

/// Largest accepted grid side: keeps `row * size + column` and `size * size`
/// within `u32` for every in-range row and column.
pub const MAX_SIZE: u32 = 0xFFFF;

/// A square grid of `size * size` cells in row-major order (the cell at
/// `(row, column)` sits at index `row * size + column`), with toroidal
/// wraparound: indices are reduced modulo `size` in each dimension, so every
/// cell has exactly 8 neighbors, which may alias each other (or the cell
/// itself) on sides of 1 or 2.
pub struct Grid {
    cells: Vec<Cell>,
    size: u32,
}

/// The row-major index of `(row, column)` on a grid of side `size`.
pub open spec fn spec_index(size: int, row: int, col: int) -> int {
    row * size + col
}

/// The square of a side no larger than `MAX_SIZE` fits in a `u32`.
proof fn lemma_square_bound(size: int)
    by (nonlinear_arith)
    requires
        0 <= size <= MAX_SIZE,
    ensures
        size * size <= u32::MAX,
{
}

/// A row-major index of in-range coordinates lies within the cell count.
proof fn lemma_index_in_range(size: int, row: int, col: int)
    by (nonlinear_arith)
    requires
        1 <= size,
        0 <= row < size,
        0 <= col < size,
    ensures
        0 <= row * size + col < size * size,
{
}

/// The neighbor-count contribution of the cell reached from `(row, col)` by
/// the offsets `(d_row, d_col)`, each reduced modulo `size` (toroidal
/// wraparound): 1 when that cell is alive, 0 when dead.
pub open spec fn neighbor_weight_at(
    cells: Seq<Cell>,
    size: int,
    row: int,
    col: int,
    d_row: int,
    d_col: int,
) -> int {
    live_weight(cells[spec_index(size, (row + d_row) % size, (col + d_col) % size)])
}

/// The number of live toroidal neighbors of `(row, col)`: the sum over the
/// 8 offset pairs drawn from `{size - 1, 0, 1}` in each dimension, skipping
/// `(0, 0)` (the cell itself). Offsets are reduced modulo `size`, so on sides
/// of 1 or 2 neighbors alias: on a single-cell grid the lone cell is counted
/// 8 times as its own neighbor.
pub open spec fn spec_live_neighbor_count(cells: Seq<Cell>, size: int, row: int, col: int) -> int {
    let up = size - 1;
    neighbor_weight_at(cells, size, row, col, up, up)
        + neighbor_weight_at(cells, size, row, col, up, 0)
        + neighbor_weight_at(cells, size, row, col, up, 1)
        + neighbor_weight_at(cells, size, row, col, 0, up)
        + neighbor_weight_at(cells, size, row, col, 0, 1)
        + neighbor_weight_at(cells, size, row, col, 1, up)
        + neighbor_weight_at(cells, size, row, col, 1, 0)
        + neighbor_weight_at(cells, size, row, col, 1, 1)
}

/// The number of live toroidal neighbors of the cell at row-major index `i`.
pub open spec fn spec_live_neighbor_count_at(cells: Seq<Cell>, size: int, i: int) -> int {
    spec_live_neighbor_count(cells, size, i / size, i % size)
}

/// One generation step of the whole grid: every cell of the result is the
/// transition rule applied to the old cell and its live-neighbor count in the
/// old generation — all cells update simultaneously.
pub open spec fn spec_tick(cells: Seq<Cell>, size: int) -> Seq<Cell> {
    Seq::new(
        cells.len(),
        |i: int| spec_next_state(cells[i], spec_live_neighbor_count_at(cells, size, i)),
    )
}

/// Advancing a generation is deterministic: it is a function of the cell
/// sequence and the side length alone, so two grids holding the same cells
/// step to the same next generation.
pub proof fn lemma_tick_deterministic(a: Seq<Cell>, b: Seq<Cell>, size: int)
    requires
        a == b,
    ensures
        spec_tick(a, size) == spec_tick(b, size),
{
}

/// A still life stays: on a grid where every live cell has exactly two or
/// three live neighbors and no dead cell has exactly three, one generation
/// step leaves every cell unchanged (the 2x2 all-alive block, placed so each
/// of its cells sees exactly three live neighbors, is the classic instance).
pub proof fn lemma_still_life(cells: Seq<Cell>, size: int)
    requires
        size >= 1,
        cells.len() == size * size,
        forall|i: int|
            0 <= i < cells.len() && cells[i] is Alive ==> (#[trigger] spec_live_neighbor_count_at(
                cells,
                size,
                i,
            ) == 2 || spec_live_neighbor_count_at(cells, size, i) == 3),
        forall|i: int|
            0 <= i < cells.len() && cells[i] is Dead ==> #[trigger] spec_live_neighbor_count_at(
                cells,
                size,
                i,
            ) != 3,
    ensures
        spec_tick(cells, size) == cells,
{
    assert forall|i: int| 0 <= i < cells.len() implies spec_tick(cells, size)[i] == cells[i] by {
        let count = spec_live_neighbor_count_at(cells, size, i);
        match cells[i] {
            Cell::Alive => assert(count == 2 || count == 3),
            Cell::Dead => assert(count != 3),
        }
    }
    assert(spec_tick(cells, size) =~= cells);
}

/// Offsetting a coordinate by `size - 1` and reducing modulo `size` steps it
/// one back, wrapping from 0 to the far edge.
proof fn lemma_wrap_back(size: int, x: int)
    requires
        1 <= size,
        0 <= x < size,
    ensures
        (x + (size - 1)) % size == if x == 0 {
            size - 1
        } else {
            x - 1
        },
{
    if x == 0 {
        vstd::arithmetic::div_mod::lemma_small_mod((size - 1) as nat, size as nat);
    } else {
        assert(x + (size - 1) == size * 1 + (x - 1));
        vstd::arithmetic::div_mod::lemma_mod_multiples_vanish(1, x - 1, size);
        vstd::arithmetic::div_mod::lemma_small_mod((x - 1) as nat, size as nat);
    }
}

/// Offsetting a coordinate by 1 and reducing modulo `size` steps it one
/// forward, wrapping from the far edge to 0.
proof fn lemma_wrap_forward(size: int, x: int)
    requires
        1 <= size,
        0 <= x < size,
    ensures
        (x + 1) % size == if x == size - 1 {
            0
        } else {
            x + 1
        },
{
    if x == size - 1 {
        assert(x + 1 == size * 1 + 0);
        vstd::arithmetic::div_mod::lemma_mod_multiples_vanish(1, 0, size);
        vstd::arithmetic::div_mod::lemma_small_mod(0, size as nat);
    } else {
        vstd::arithmetic::div_mod::lemma_small_mod((x + 1) as nat, size as nat);
    }
}

/// A zero offset reduced modulo `size` leaves an in-range coordinate alone.
proof fn lemma_wrap_stay(size: int, x: int)
    requires
        1 <= size,
        0 <= x < size,
    ensures
        (x + 0) % size == x,
{
    vstd::arithmetic::div_mod::lemma_small_mod(x as nat, size as nat);
}

/// A grid of side `size` holding only the classic 2x2 block: exactly the four
/// cells with row and column below 2 are alive.
pub open spec fn spec_block_cells(size: int) -> Seq<Cell> {
    Seq::new(
        (size * size) as nat,
        |i: int| if i / size < 2 && i % size < 2 {
            Cell::Alive
        } else {
            Cell::Dead
        },
    )
}

/// The block grid's cell at `(row, column)`, addressed row-major.
proof fn lemma_block_cell_at(size: int, row: int, col: int)
    requires
        1 <= size,
        0 <= row < size,
        0 <= col < size,
    ensures
        spec_block_cells(size)[spec_index(size, row, col)] is Alive <==> (row < 2 && col < 2),
{
    lemma_index_in_range(size, row, col);
    vstd::arithmetic::div_mod::lemma_fundamental_div_mod_converse(
        spec_index(size, row, col),
        size,
        row,
        col,
    );
}

/// Live-neighbor counts on the block grid, for a side of at least 3 (so the
/// 8 neighbor positions of any cell are distinct): every block cell sees
/// exactly 3 live neighbors, and no dead cell sees 3.
proof fn lemma_block_neighbor_count(size: int, i: int)
    requires
        3 <= size,
        0 <= i < size * size,
    ensures
        spec_block_cells(size)[i] is Alive ==> spec_live_neighbor_count_at(
            spec_block_cells(size),
            size,
            i,
        ) == 3,
        spec_block_cells(size)[i] is Dead ==> spec_live_neighbor_count_at(
            spec_block_cells(size),
            size,
            i,
        ) != 3,
{
    let r = i / size;
    let c = i % size;
    vstd::arithmetic::div_mod::lemma_fundamental_div_mod(i, size);
    vstd::arithmetic::div_mod::lemma_mod_bound(i, size);
    vstd::arithmetic::div_mod::lemma_div_pos_is_pos(i, size);
    vstd::arithmetic::div_mod::lemma_multiply_divide_lt(i, size, size);
    vstd::arithmetic::mul::lemma_mul_is_commutative(size, r);
    assert(0 <= r < size && 0 <= c < size && i == r * size + c);
    lemma_wrap_back(size, r);
    lemma_wrap_stay(size, r);
    lemma_wrap_forward(size, r);
    lemma_wrap_back(size, c);
    lemma_wrap_stay(size, c);
    lemma_wrap_forward(size, c);
    let rm = (r + (size - 1)) % size;
    let rp = (r + 1) % size;
    let cm = (c + (size - 1)) % size;
    let cp = (c + 1) % size;
    lemma_block_cell_at(size, rm, cm);
    lemma_block_cell_at(size, rm, c);
    lemma_block_cell_at(size, rm, cp);
    lemma_block_cell_at(size, r, cm);
    lemma_block_cell_at(size, r, c);
    lemma_block_cell_at(size, r, cp);
    lemma_block_cell_at(size, rp, cm);
    lemma_block_cell_at(size, rp, c);
    lemma_block_cell_at(size, rp, cp);
}

/// The 2x2 block is a still life on every toroidal grid of side at least 3
/// (on a side of 2 every cell of the all-alive torus counts 8 live neighbors):
/// each of its four cells keeps exactly three live neighbors, no dead cell
/// gains three, and one generation step leaves the whole grid unchanged.
pub proof fn lemma_block_still_life(size: int)
    requires
        3 <= size,
    ensures
        spec_tick(spec_block_cells(size), size) == spec_block_cells(size),
{
    let cells = spec_block_cells(size);
    assert forall|i: int|
        0 <= i < cells.len() && cells[i] is Alive implies (#[trigger] spec_live_neighbor_count_at(
        cells,
        size,
        i,
    ) == 2 || spec_live_neighbor_count_at(cells, size, i) == 3) by {
        lemma_block_neighbor_count(size, i);
    }
    assert forall|i: int|
        0 <= i < cells.len() && cells[i] is Dead implies #[trigger] spec_live_neighbor_count_at(
        cells,
        size,
        i,
    ) != 3 by {
        lemma_block_neighbor_count(size, i);
    }
    lemma_still_life(cells, size);
}

/// A grid of side `size` holding only a horizontal blinker: the three cells
/// of row 2 at columns 1, 2 and 3 are alive.
pub open spec fn spec_blinker_row_cells(size: int) -> Seq<Cell> {
    Seq::new(
        (size * size) as nat,
        |i: int| if i / size == 2 && 1 <= i % size <= 3 {
            Cell::Alive
        } else {
            Cell::Dead
        },
    )
}

/// A grid of side `size` holding only a vertical blinker: the three cells of
/// column 2 at rows 1, 2 and 3 are alive.
pub open spec fn spec_blinker_column_cells(size: int) -> Seq<Cell> {
    Seq::new(
        (size * size) as nat,
        |i: int| if i % size == 2 && 1 <= i / size <= 3 {
            Cell::Alive
        } else {
            Cell::Dead
        },
    )
}

/// The horizontal blinker's cell at `(row, column)`, addressed row-major.
proof fn lemma_blinker_row_cell_at(size: int, row: int, col: int)
    requires
        1 <= size,
        0 <= row < size,
        0 <= col < size,
    ensures
        spec_blinker_row_cells(size)[spec_index(size, row, col)] is Alive <==> (row == 2 && 1 <= col
            <= 3),
{
    lemma_index_in_range(size, row, col);
    vstd::arithmetic::div_mod::lemma_fundamental_div_mod_converse(
        spec_index(size, row, col),
        size,
        row,
        col,
    );
}

/// The vertical blinker's cell at `(row, column)`, addressed row-major.
proof fn lemma_blinker_column_cell_at(size: int, row: int, col: int)
    requires
        1 <= size,
        0 <= row < size,
        0 <= col < size,
    ensures
        spec_blinker_column_cells(size)[spec_index(size, row, col)] is Alive <==> (col == 2 && 1
            <= row <= 3),
{
    lemma_index_in_range(size, row, col);
    vstd::arithmetic::div_mod::lemma_fundamental_div_mod_converse(
        spec_index(size, row, col),
        size,
        row,
        col,
    );
}

/// One cell of the step from the horizontal blinker: at every index, one
/// generation yields the vertical blinker's cell.
proof fn lemma_blinker_row_step_at(size: int, i: int)
    requires
        5 <= size,
        0 <= i < size * size,
    ensures
        spec_tick(spec_blinker_row_cells(size), size)[i] == spec_blinker_column_cells(size)[i],
{
    let r = i / size;
    let c = i % size;
    vstd::arithmetic::div_mod::lemma_fundamental_div_mod(i, size);
    vstd::arithmetic::div_mod::lemma_mod_bound(i, size);
    vstd::arithmetic::div_mod::lemma_div_pos_is_pos(i, size);
    vstd::arithmetic::div_mod::lemma_multiply_divide_lt(i, size, size);
    vstd::arithmetic::mul::lemma_mul_is_commutative(size, r);
    lemma_wrap_back(size, r);
    lemma_wrap_stay(size, r);
    lemma_wrap_forward(size, r);
    lemma_wrap_back(size, c);
    lemma_wrap_stay(size, c);
    lemma_wrap_forward(size, c);
    let rm = (r + (size - 1)) % size;
    let rp = (r + 1) % size;
    let cm = (c + (size - 1)) % size;
    let cp = (c + 1) % size;
    lemma_blinker_row_cell_at(size, rm, cm);
    lemma_blinker_row_cell_at(size, rm, c);
    lemma_blinker_row_cell_at(size, rm, cp);
    lemma_blinker_row_cell_at(size, r, cm);
    lemma_blinker_row_cell_at(size, r, c);
    lemma_blinker_row_cell_at(size, r, cp);
    lemma_blinker_row_cell_at(size, rp, cm);
    lemma_blinker_row_cell_at(size, rp, c);
    lemma_blinker_row_cell_at(size, rp, cp);
}

/// One cell of the step back from the vertical blinker: at every index, one
/// generation yields the horizontal blinker's cell.
proof fn lemma_blinker_column_step_at(size: int, i: int)
    requires
        5 <= size,
        0 <= i < size * size,
    ensures
        spec_tick(spec_blinker_column_cells(size), size)[i] == spec_blinker_row_cells(size)[i],
{
    let r = i / size;
    let c = i % size;
    vstd::arithmetic::div_mod::lemma_fundamental_div_mod(i, size);
    vstd::arithmetic::div_mod::lemma_mod_bound(i, size);
    vstd::arithmetic::div_mod::lemma_div_pos_is_pos(i, size);
    vstd::arithmetic::div_mod::lemma_multiply_divide_lt(i, size, size);
    vstd::arithmetic::mul::lemma_mul_is_commutative(size, r);
    lemma_wrap_back(size, r);
    lemma_wrap_stay(size, r);
    lemma_wrap_forward(size, r);
    lemma_wrap_back(size, c);
    lemma_wrap_stay(size, c);
    lemma_wrap_forward(size, c);
    let rm = (r + (size - 1)) % size;
    let rp = (r + 1) % size;
    let cm = (c + (size - 1)) % size;
    let cp = (c + 1) % size;
    lemma_blinker_column_cell_at(size, rm, cm);
    lemma_blinker_column_cell_at(size, rm, c);
    lemma_blinker_column_cell_at(size, rm, cp);
    lemma_blinker_column_cell_at(size, r, cm);
    lemma_blinker_column_cell_at(size, r, c);
    lemma_blinker_column_cell_at(size, r, cp);
    lemma_blinker_column_cell_at(size, rp, cm);
    lemma_blinker_column_cell_at(size, rp, c);
    lemma_blinker_column_cell_at(size, rp, cp);
}

/// The blinker is a period-2 oscillator on every toroidal grid of side at
/// least 5: one generation turns the horizontal three-cell line into the
/// vertical one and the next turns it back, so two generations restore the
/// starting cell pattern exactly.
pub proof fn lemma_blinker_oscillates(size: int)
    requires
        5 <= size,
    ensures
        spec_tick(spec_blinker_row_cells(size), size) == spec_blinker_column_cells(size),
        spec_tick(spec_blinker_column_cells(size), size) == spec_blinker_row_cells(size),
        spec_tick(spec_tick(spec_blinker_row_cells(size), size), size) == spec_blinker_row_cells(
            size,
        ),
{
    assert forall|i: int| 0 <= i < size * size implies spec_tick(
        spec_blinker_row_cells(size),
        size,
    )[i] == spec_blinker_column_cells(size)[i] by {
        lemma_blinker_row_step_at(size, i);
    }
    assert(spec_tick(spec_blinker_row_cells(size), size) =~= spec_blinker_column_cells(size));
    assert forall|i: int| 0 <= i < size * size implies spec_tick(
        spec_blinker_column_cells(size),
        size,
    )[i] == spec_blinker_row_cells(size)[i] by {
        lemma_blinker_column_step_at(size, i);
    }
    assert(spec_tick(spec_blinker_column_cells(size), size) =~= spec_blinker_row_cells(size));
}

/// On a single-cell grid the lone cell is its own neighbor under every one of
/// the 8 offsets, so its live-neighbor count is 8 when it is alive and 0 when
/// it is dead.
pub proof fn lemma_single_cell_own_neighbor(cells: Seq<Cell>)
    requires
        cells.len() == 1,
    ensures
        spec_live_neighbor_count(cells, 1, 0, 0) == 8 * live_weight(cells[0]),
{
}

impl Grid {
    /// The grid's side length.
    pub closed spec fn spec_size(self) -> int {
        self.size as int
    }

    /// The current generation's cells, row-major.
    pub closed spec fn spec_cells(self) -> Seq<Cell> {
        self.cells@
    }

    /// Well-formedness: a positive side no larger than `MAX_SIZE`, and
    /// exactly `size * size` cells.
    pub open spec fn wf(self) -> bool {
        &&& 1 <= self.spec_size() <= MAX_SIZE
        &&& self.spec_cells().len() == self.spec_size() * self.spec_size()
    }

    /// Builds a grid of side `size` from one seed value per cell: the cell at
    /// index `i` starts alive exactly when `alive[i]` holds. The embedding
    /// program draws the seed values, typically each alive with probability
    /// one half from a uniform random source.
    pub fn new(size: u32, alive: Vec<bool>) -> (grid: Grid)
        requires
            1 <= size <= MAX_SIZE,
            alive@.len() == size * size,
        ensures
            grid.wf(),
            grid.spec_size() == size,
            grid.spec_cells().len() == size * size,
            forall|i: int|
                0 <= i < size * size ==> ((#[trigger] grid.spec_cells()[i]) is Alive <==> alive@[i]),
    {
        proof {
            lemma_square_bound(size as int);
        }
        let n = (size as usize) * (size as usize);
        let mut cells: Vec<Cell> = Vec::new();
        let mut i: usize = 0;
        while i < n
            invariant
                n == size * size,
                i <= n,
                cells@.len() == i,
                alive@.len() == n,
                forall|j: int| 0 <= j < i ==> (cells@[j] is Alive <==> alive@[j]),
            decreases n - i,
        {
            if alive[i] {
                cells.push(Cell::Alive);
            } else {
                cells.push(Cell::Dead);
            }
            i = i + 1;
        }
        Grid { cells, size }
    }

    /// The row-major index of `(row, column)`; wraparound is the caller's
    /// concern, so both coordinates must already be in range.
    pub fn get_index(&self, row: u32, column: u32) -> (index: usize)
        requires
            self.wf(),
            row < self.spec_size(),
            column < self.spec_size(),
        ensures
            index == spec_index(self.spec_size(), row as int, column as int),
            index < self.spec_cells().len(),
    {
        proof {
            lemma_square_bound(self.size as int);
            lemma_index_in_range(self.size as int, row as int, column as int);
        }
        (row * self.size + column) as usize
    }

    /// Reads the current generation's cell at `(row, column)`.
    pub fn get_cell(&self, row: u32, column: u32) -> (cell: Cell)
        requires
            self.wf(),
            row < self.spec_size(),
            column < self.spec_size(),
        ensures
            cell == self.spec_cells()[spec_index(self.spec_size(), row as int, column as int)],
    {
        let index = self.get_index(row, column);
        self.cells[index]
    }

    /// The contribution of one toroidal neighbor to a live-neighbor count.
    fn neighbor_weight(&self, row: u32, column: u32, d_row: u32, d_col: u32) -> (weight: u32)
        requires
            self.wf(),
            row < self.spec_size(),
            column < self.spec_size(),
            d_row <= self.spec_size(),
            d_col <= self.spec_size(),
        ensures
            weight == neighbor_weight_at(
                self.spec_cells(),
                self.spec_size(),
                row as int,
                column as int,
                d_row as int,
                d_col as int,
            ),
            weight <= 1,
    {
        let neighbor_row = (row + d_row) % self.size;
        let neighbor_col = (column + d_col) % self.size;
        let index = self.get_index(neighbor_row, neighbor_col);
        if self.cells[index].is_alive() {
            1
        } else {
            0
        }
    }

    /// Counts the live cells among the 8 toroidal neighbors of
    /// `(row, column)`: both coordinates are offset by each of
    /// `size - 1`, `0` and `1`, reduced modulo `size`, with the `(0, 0)`
    /// offset (the cell itself) skipped. On sides of 1 or 2 the neighbors
    /// alias each other or the cell itself; the count is always in `0 ..= 8`.
    pub fn live_neighbor_count(&self, row: u32, column: u32) -> (count: u32)
        requires
            self.wf(),
            row < self.spec_size(),
            column < self.spec_size(),
        ensures
            count == spec_live_neighbor_count(
                self.spec_cells(),
                self.spec_size(),
                row as int,
                column as int,
            ),
            count <= 8,
    {
        let up = self.size - 1;
        let mut count = self.neighbor_weight(row, column, up, up);
        count = count + self.neighbor_weight(row, column, up, 0);
        count = count + self.neighbor_weight(row, column, up, 1);
        count = count + self.neighbor_weight(row, column, 0, up);
        count = count + self.neighbor_weight(row, column, 0, 1);
        count = count + self.neighbor_weight(row, column, 1, up);
        count = count + self.neighbor_weight(row, column, 1, 0);
        count = count + self.neighbor_weight(row, column, 1, 1);
        count
    }

    /// The state the cell at `(row, column)` takes in the next generation:
    /// the transition rule applied to its current state and its current
    /// live-neighbor count.
    pub fn get_next_cell(&self, row: u32, column: u32) -> (next: Cell)
        requires
            self.wf(),
            row < self.spec_size(),
            column < self.spec_size(),
        ensures
            next == spec_next_state(
                self.spec_cells()[spec_index(self.spec_size(), row as int, column as int)],
                spec_live_neighbor_count(
                    self.spec_cells(),
                    self.spec_size(),
                    row as int,
                    column as int,
                ),
            ),
    {
        let index = self.get_index(row, column);
        let live_neighbors = self.live_neighbor_count(row, column);
        self.cells[index].next_state(live_neighbors)
    }

    /// Advances the grid by exactly one generation. The whole next generation
    /// is computed against the old cells and only then installed, so no cell
    /// of the new generation influences another's neighbor count.
    pub fn tick(&mut self)
        requires
            old(self).wf(),
        ensures
            final(self).wf(),
            final(self).spec_size() == old(self).spec_size(),
            final(self).spec_cells() == spec_tick(old(self).spec_cells(), old(self).spec_size()),
    {
        let ghost orig = old(self).spec_cells();
        let ghost n = old(self).spec_size();
        let mut next: Vec<Cell> = Vec::new();
        let mut row: u32 = 0;
        while row < self.size
            invariant
                *self == *old(self),
                self.wf(),
                orig == self.spec_cells(),
                n == self.spec_size(),
                row <= self.size,
                next@.len() == row * n,
                forall|i: int|
                    0 <= i < next@.len() ==> next@[i] == #[trigger] spec_tick(orig, n)[i],
            decreases self.size - row,
        {
            let mut column: u32 = 0;
            while column < self.size
                invariant
                    *self == *old(self),
                    self.wf(),
                    orig == self.spec_cells(),
                    n == self.spec_size(),
                    row < self.size,
                    column <= self.size,
                    next@.len() == row * n + column,
                    forall|i: int|
                        0 <= i < next@.len() ==> next@[i] == #[trigger] spec_tick(orig, n)[i],
                decreases self.size - column,
            {
                proof {
                    lemma_index_in_range(n, row as int, column as int);
                    vstd::arithmetic::div_mod::lemma_fundamental_div_mod_converse(
                        spec_index(n, row as int, column as int),
                        n,
                        row as int,
                        column as int,
                    );
                }
                let cell = self.get_next_cell(row, column);
                next.push(cell);
                column = column + 1;
            }
            proof {
                assert((row + 1) * n == row * n + n) by (nonlinear_arith);
            }
            row = row + 1;
        }
        proof {
            lemma_square_bound(n);
            assert(next@ =~= spec_tick(orig, n));
        }
        self.cells = next;
    }

    /// The grid's width: always the side length.
    pub fn width(&self) -> (w: u32)
        ensures
            w == self.spec_size(),
    {
        self.size
    }

    /// The grid's height: always the side length (the grid is square).
    pub fn height(&self) -> (h: u32)
        ensures
            h == self.spec_size(),
    {
        self.size
    }

    /// The current generation's cells, row-major.
    pub fn cells(&self) -> (cells: &Vec<Cell>)
        ensures
            cells@ == self.spec_cells(),
    {
        &self.cells
    }
}

} // verus!
