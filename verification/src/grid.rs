//! The grid of cells, and the operations that create, read and paint it.
//!
//! A grid is modelled column by column: its view is a sequence of columns,
//! and each column is the sequence of its cells from the top row down.
//! Gravity acts along a column, so every rule of motion is a statement about
//! one such sequence.

use crate::material::Material;
use vstd::prelude::*;

verus! {

/// How many velocity units make one cell per tick.
pub const UNITS_PER_CELL: u64 = 1_000_000_000_000;

/// Velocity of a cell. `y` points down and is never negative; `x` is kept for
/// sideways motion, which no rule uses yet.
#[derive(Clone, Copy, Debug, PartialEq, Eq)]
pub struct Velocity {
    pub x: i64,
    pub y: u64,
}

/// What one position of the grid holds.
#[derive(Clone, Copy, Debug, PartialEq, Eq)]
pub struct Cell {
    pub material: Material,
    pub velocity: Velocity,
    /// Set once the position has been resolved in the current tick.
    pub settled: bool,
}

impl Cell {
    /// An empty cell: void, at rest, unsettled.
    pub open spec fn spec_empty() -> Cell {
        Cell { material: Material::spec_void(), velocity: Velocity { x: 0, y: 0 }, settled: false }
    }

    /// A newly painted cell: it moves down at one cell per tick and is unsettled.
    pub open spec fn spec_fresh(material: Material) -> Cell {
        Cell { material, velocity: Velocity { x: 0, y: UNITS_PER_CELL }, settled: false }
    }

    /// This cell with its settled flag set to `settled`.
    pub open spec fn flagged(self, settled: bool) -> Cell {
        Cell { material: self.material, velocity: self.velocity, settled }
    }

    /// This cell with its downward velocity set to `y`.
    pub open spec fn moving(self, y: u64) -> Cell {
        Cell {
            material: self.material,
            velocity: Velocity { x: self.velocity.x, y },
            settled: self.settled,
        }
    }

    pub fn empty() -> (c: Cell)
        ensures
            c == Self::spec_empty(),
    {
        Cell { material: Material::void(), velocity: Velocity { x: 0, y: 0 }, settled: false }
    }

    pub fn fresh(material: Material) -> (c: Cell)
        ensures
            c == Self::spec_fresh(material),
    {
        Cell { material, velocity: Velocity { x: 0, y: UNITS_PER_CELL }, settled: false }
    }
}

/// A board of `rows` by `cols` empty cells.
pub open spec fn blank(rows: nat, cols: nat) -> Seq<Seq<Cell>> {
    Seq::new(cols, |c: int| Seq::new(rows, |r: int| Cell::spec_empty()))
}

/// The board that holds `cells`, given row by row: the cell at row `r` and
/// column `c` is `cells[r * cols + c]`.
pub open spec fn arranged(cells: Seq<Cell>, rows: nat, cols: nat) -> Seq<Seq<Cell>> {
    Seq::new(cols, |c: int| Seq::new(rows, |r: int| cells[r * cols + c]))
}

/// Every column of `board` has `rows` cells, and there are `cols` of them.
pub open spec fn shaped(board: Seq<Seq<Cell>>, rows: nat, cols: nat) -> bool {
    &&& board.len() == cols
    &&& forall|c: int| 0 <= c < cols ==> (#[trigger] board[c]).len() == rows
}

pub open spec fn in_bounds(board: Seq<Seq<Cell>>, row: int, col: int) -> bool {
    0 <= col < board.len() && 0 <= row < board[col].len()
}

/// `board` with the cell at (`row`, `col`) replaced.
pub open spec fn with_cell(board: Seq<Seq<Cell>>, row: int, col: int, cell: Cell) -> Seq<
    Seq<Cell>,
> {
    board.update(col, board[col].update(row, cell))
}

/// `board` after painting `material` at (`row`, `col`). A position outside
/// the board is ignored.
pub open spec fn painted(board: Seq<Seq<Cell>>, row: int, col: int, material: Material) -> Seq<
    Seq<Cell>,
> {
    if in_bounds(board, row, col) {
        with_cell(board, row, col, Cell::spec_fresh(material))
    } else {
        board
    }
}

/// `board` after emptying the cell at (`row`, `col`). A position outside the
/// board is ignored.
pub open spec fn erased(board: Seq<Seq<Cell>>, row: int, col: int) -> Seq<Seq<Cell>> {
    if in_bounds(board, row, col) {
        with_cell(board, row, col, Cell::spec_empty())
    } else {
        board
    }
}

/// A column with every settled flag lowered.
pub open spec fn roused(column: Seq<Cell>) -> Seq<Cell> {
    Seq::new(column.len(), |r: int| column[r].flagged(false))
}

/// Position of (`row`, `col`) in row-major storage lies inside the storage.
proof fn lemma_flat_index(row: int, col: int, rows: int, cols: int)
    requires
        0 <= row < rows,
        0 <= col < cols,
    ensures
        0 <= row * cols <= row * cols + col < rows * cols,
{
    assert(0 <= row * cols && (row + 1) * cols <= rows * cols) by (nonlinear_arith)
        requires
            0 <= row < rows,
            0 < cols,
    ;
    assert((row + 1) * cols == row * cols + cols) by (nonlinear_arith);
}

/// Two positions with the same row-major index are the same position.
proof fn lemma_flat_index_unique(r1: int, c1: int, r2: int, c2: int, cols: int)
    requires
        0 <= c1 < cols,
        0 <= c2 < cols,
        r1 * cols + c1 == r2 * cols + c2,
    ensures
        r1 == r2,
        c1 == c2,
{
    assert(r1 == r2) by (nonlinear_arith)
        requires
            0 <= c1 < cols,
            0 <= c2 < cols,
            r1 * cols + c1 == r2 * cols + c2,
    ;
}

/// A fixed-size board of cells, stored row by row.
#[derive(Clone, Debug, PartialEq, Eq)]
pub struct Grid {
    rows: usize,
    cols: usize,
    cells: Vec<Cell>,
}

impl View for Grid {
    type V = Seq<Seq<Cell>>;

    /// The columns of the grid, each from the top row down.
    closed spec fn view(&self) -> Seq<Seq<Cell>> {
        arranged(self.cells@, self.rows as nat, self.cols as nat)
    }
}

impl Grid {
    /// The grid has at least one cell and holds exactly one cell per position.
    pub closed spec fn wf(&self) -> bool {
        &&& 0 < self.rows
        &&& 0 < self.cols
        &&& self.cells.len() == self.rows * self.cols
    }

    pub closed spec fn row_count(&self) -> nat {
        self.rows as nat
    }

    pub closed spec fn col_count(&self) -> nat {
        self.cols as nat
    }

    /// The view has the grid's dimensions, and neither is zero.
    pub proof fn lemma_shape(&self)
        ensures
            shaped(self@, self.row_count(), self.col_count()),
            self.wf() ==> 0 < self.row_count() && 0 < self.col_count(),
    {
    }

    /// A grid of the given size with every cell empty.
    pub fn create(row_count: usize, col_count: usize) -> (grid: Grid)
        requires
            0 < row_count,
            0 < col_count,
            row_count * col_count <= usize::MAX,
        ensures
            grid.wf(),
            grid.row_count() == row_count,
            grid.col_count() == col_count,
            grid@ == blank(row_count as nat, col_count as nat),
    {
        let total: usize = row_count * col_count;
        let mut cells: Vec<Cell> = Vec::new();
        let mut n: usize = 0;
        while n < total
            invariant
                n <= total,
                cells@.len() == n,
                forall|k: int| 0 <= k < n ==> cells@[k] == Cell::spec_empty(),
            decreases total - n,
        {
            cells.push(Cell::empty());
            n += 1;
        }
        let grid = Grid { rows: row_count, cols: col_count, cells };
        proof {
            assert forall|c: int, r: int| 0 <= c < col_count && 0 <= r < row_count implies (
            #[trigger] grid@[c][r]) == Cell::spec_empty() by {
                lemma_flat_index(r, c, row_count as int, col_count as int);
            }
            assert(grid@ =~~= blank(row_count as nat, col_count as nat));
        }
        grid
    }

    /// A grid of the given size that holds `cells`, given row by row.
    pub fn from_cells(row_count: usize, col_count: usize, cells: Vec<Cell>) -> (grid: Grid)
        requires
            0 < row_count,
            0 < col_count,
            cells@.len() == row_count * col_count,
        ensures
            grid.wf(),
            grid.row_count() == row_count,
            grid.col_count() == col_count,
            grid@ == arranged(cells@, row_count as nat, col_count as nat),
    {
        Grid { rows: row_count, cols: col_count, cells }
    }

    /// Number of rows.
    pub fn rows(&self) -> (n: usize)
        ensures
            n == self.row_count(),
    {
        self.rows
    }

    /// Number of columns.
    pub fn cols(&self) -> (n: usize)
        ensures
            n == self.col_count(),
    {
        self.cols
    }

    /// The cell at (`row`, `col`).
    pub fn cell_at(&self, row: usize, col: usize) -> (cell: Cell)
        requires
            self.wf(),
            row < self.row_count(),
            col < self.col_count(),
        ensures
            cell == self@[col as int][row as int],
    {
        proof {
            lemma_flat_index(row as int, col as int, self.rows as int, self.cols as int);
        }
        self.cells[row * self.cols + col]
    }

    /// Replaces the cell at (`row`, `col`).
    pub(crate) fn put(&mut self, row: usize, col: usize, cell: Cell)
        requires
            old(self).wf(),
            row < old(self).row_count(),
            col < old(self).col_count(),
        ensures
            final(self).wf(),
            final(self).row_count() == old(self).row_count(),
            final(self).col_count() == old(self).col_count(),
            final(self)@ == with_cell(old(self)@, row as int, col as int, cell),
    {
        proof {
            lemma_flat_index(row as int, col as int, self.rows as int, self.cols as int);
        }
        let at: usize = row * self.cols + col;
        self.cells.set(at, cell);
        proof {
            let before = old(self)@;
            let after = with_cell(before, row as int, col as int, cell);
            assert forall|c: int, r: int|
                0 <= c < self.cols && 0 <= r < self.rows implies (#[trigger] self@[c][r])
                == after[c][r] by {
                lemma_flat_index(r, c, self.rows as int, self.cols as int);
                if r * self.cols + c == at {
                    lemma_flat_index_unique(r, c, row as int, col as int, self.cols as int);
                }
            }
            assert(self@ =~~= after);
        }
    }

    /// Paints `material` at (`row`, `col`): the cell starts to move down at one
    /// cell per tick and is unsettled. A position outside the grid is ignored.
    pub fn paint(&mut self, row: usize, col: usize, material: Material)
        requires
            old(self).wf(),
        ensures
            final(self).wf(),
            final(self).row_count() == old(self).row_count(),
            final(self).col_count() == old(self).col_count(),
            final(self)@ == painted(old(self)@, row as int, col as int, material),
    {
        if row < self.rows && col < self.cols {
            self.put(row, col, Cell::fresh(material));
        }
    }

    /// Empties the cell at (`row`, `col`). A position outside the grid is ignored.
    pub fn erase(&mut self, row: usize, col: usize)
        requires
            old(self).wf(),
        ensures
            final(self).wf(),
            final(self).row_count() == old(self).row_count(),
            final(self).col_count() == old(self).col_count(),
            final(self)@ == erased(old(self)@, row as int, col as int),
    {
        if row < self.rows && col < self.cols {
            self.put(row, col, Cell::empty());
        }
    }

    /// Empties every cell.
    pub fn clear(&mut self)
        requires
            old(self).wf(),
        ensures
            final(self).wf(),
            final(self).row_count() == old(self).row_count(),
            final(self).col_count() == old(self).col_count(),
            final(self)@ == blank(old(self).row_count(), old(self).col_count()),
    {
        let total: usize = self.cells.len();
        let mut n: usize = 0;
        while n < total
            invariant
                n <= total,
                self.rows == old(self).rows,
                self.cols == old(self).cols,
                self.cells@.len() == total,
                total == self.rows * self.cols,
                forall|k: int| 0 <= k < n ==> self.cells@[k] == Cell::spec_empty(),
            decreases total - n,
        {
            self.cells.set(n, Cell::empty());
            n += 1;
        }
        proof {
            assert forall|c: int, r: int|
                0 <= c < self.cols && 0 <= r < self.rows implies (#[trigger] self@[c][r])
                == Cell::spec_empty() by {
                lemma_flat_index(r, c, self.rows as int, self.cols as int);
            }
            assert(self@ =~~= blank(self.rows as nat, self.cols as nat));
        }
    }

    /// Lowers the settled flag of every cell.
    pub(crate) fn rouse(&mut self)
        requires
            old(self).wf(),
        ensures
            final(self).wf(),
            final(self).row_count() == old(self).row_count(),
            final(self).col_count() == old(self).col_count(),
            final(self)@.len() == old(self)@.len(),
            forall|c: int|
                0 <= c < old(self)@.len() ==> (#[trigger] final(self)@[c]) == roused(old(self)@[c]),
    {
        let total: usize = self.cells.len();
        let mut n: usize = 0;
        while n < total
            invariant
                n <= total,
                self.rows == old(self).rows,
                self.cols == old(self).cols,
                self.cells@.len() == total,
                total == self.rows * self.cols,
                forall|k: int| 0 <= k < n ==> self.cells@[k] == old(self).cells@[k].flagged(false),
                forall|k: int| n <= k < total ==> self.cells@[k] == old(self).cells@[k],
            decreases total - n,
        {
            let cell = self.cells[n];
            self.cells.set(
                n,
                Cell { material: cell.material, velocity: cell.velocity, settled: false },
            );
            n += 1;
        }
        proof {
            assert forall|c: int| 0 <= c < old(self)@.len() implies (#[trigger] self@[c])
                == roused(old(self)@[c]) by {
                assert forall|r: int| 0 <= r < self.rows implies self@[c][r] == roused(
                    old(self)@[c],
                )[r] by {
                    lemma_flat_index(r, c, self.rows as int, self.cols as int);
                }
                assert(self@[c] =~= roused(old(self)@[c]));
            }
        }
    }
}

/// A new, empty grid of the given size.
pub fn reset(row_count: usize, col_count: usize) -> (grid: Grid)
    requires
        0 < row_count,
        0 < col_count,
        row_count * col_count <= usize::MAX,
    ensures
        grid.wf(),
        grid.row_count() == row_count,
        grid.col_count() == col_count,
        grid@ == blank(row_count as nat, col_count as nat),
{
    Grid::create(row_count, col_count)
}

} // verus!
