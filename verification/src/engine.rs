//! The tick engine: one pass of gravity over the whole grid.
//!
//! A tick lowers every settled flag and then visits the cells row by row from
//! the top, each row from left to right. Visiting a cell touches only its own
//! column, so the outcome is stated per column: [`tick_column`] says what one
//! tick makes of a column, and [`tick`] applies it to every column of the grid.
//!
//! A cell that has changed places is unsettled where it arrives. The rows are
//! visited from the top, so it is visited again in the same tick and may fall
//! further. A cell that meets one it does not displace stops there, and keeps
//! the velocity it has.
//!
//! Velocities saturate: a velocity that would pass `u64::MAX` stays there.

use crate::grid::{roused, shaped, Cell, Grid, Velocity, UNITS_PER_CELL};
use vstd::prelude::*;

verus! {

/// Standard gravity, in thousandths of a cell per second squared.
pub const GRAVITY: u32 = 9810;

/// Side of a cell on screen, in pixels.
pub const CELL_SIZE: u32 = 5;

/// The constants of a simulation. They are chosen once and never change.
#[derive(Clone, Copy, Debug, PartialEq, Eq)]
pub struct Config {
    pub row_count: usize,
    pub col_count: usize,
    /// Side of a cell on screen, in pixels.
    pub cell_size: u32,
    /// Gravity, in thousandths of a cell per second squared.
    pub gravity: u32,
}

impl Config {
    pub open spec fn spec_standard() -> Config {
        Config { row_count: 100, col_count: 140, cell_size: CELL_SIZE, gravity: GRAVITY }
    }

    /// A board of 100 rows by 140 columns under standard gravity.
    pub fn standard() -> (config: Config)
        ensures
            config == Self::spec_standard(),
    {
        Config { row_count: 100, col_count: 140, cell_size: CELL_SIZE, gravity: GRAVITY }
    }
}

/// `x` as a velocity: values past the largest velocity become the largest.
pub open spec fn capped(x: int) -> u64 {
    if x >= u64::MAX {
        u64::MAX
    } else if x <= 0 {
        0
    } else {
        x as u64
    }
}

/// Velocity that gravity adds to a mass over `dt` microseconds.
pub open spec fn impulse(mass: u32, gravity: u32, dt: u32) -> int {
    mass as int * gravity as int * dt as int
}

/// Velocity `speed` after gravity has acted on `mass` for `dt` microseconds.
pub open spec fn accelerated(speed: u64, mass: u32, gravity: u32, dt: u32) -> u64 {
    capped(speed + impulse(mass, gravity, dt))
}

/// How many steps down a cell with velocity `speed` tries in one tick: the
/// whole cells in `speed`.
pub open spec fn reach(speed: u64) -> int {
    speed as int / UNITS_PER_CELL as int
}

/// Velocity given to the cell at `row` of a column of `len` cells when its
/// fall is stopped by the floor: its distance from the bottom row, in cells.
pub open spec fn rest_speed(len: int, row: int) -> u64 {
    capped((len - 1 - row) * UNITS_PER_CELL as int)
}

/// Whether the cell at `row` changes places with the cell at `target`: it must
/// be strictly heavier and not yet settled.
pub open spec fn displaces(column: Seq<Cell>, row: int, target: int) -> bool {
    column[row].material.mass > column[target].material.mass && !column[row].settled
}

/// `column` after the cells at `row` and `target` have changed places. The
/// cell that arrives at `target` is unsettled.
pub open spec fn exchanged(column: Seq<Cell>, row: int, target: int) -> Seq<Cell> {
    column.update(row, column[target]).update(target, column[row].flagged(false))
}

/// The steps `step`, `step + 1`, .. below `reach` of the cell at `row`.
///
/// Step `k` looks at the cell `k` rows below `row`. Step 0 looks at the cell
/// itself and changes nothing. At a later step, while that row exists, the
/// cell now at `row` changes places with the cell there if it displaces it,
/// and the next step follows; if it does not displace it, the fall is blocked
/// and ends as it stands. The first step past the bottom row sets the velocity
/// of the cell at `row` to its rest speed and ends the fall.
pub open spec fn descend(column: Seq<Cell>, row: int, step: int, reach: int) -> Seq<Cell>
    decreases reach - step,
{
    if step >= reach {
        column
    } else if row + step >= column.len() {
        column.update(row, column[row].moving(rest_speed(column.len() as int, row)))
    } else if step == 0 {
        descend(column, row, 1, reach)
    } else if displaces(column, row, row + step) {
        descend(exchanged(column, row, row + step), row, step + 1, reach)
    } else {
        column
    }
}

/// `column` after the cell at `row` has been visited.
///
/// A powder or liquid gains velocity, takes its steps down and leaves the
/// position settled. Every other phase is left as it is.
pub open spec fn resolve(column: Seq<Cell>, row: int, gravity: u32, dt: u32) -> Seq<Cell> {
    let cell = column[row];
    if cell.material.phase.falls() {
        let speed = accelerated(cell.velocity.y, cell.material.mass, gravity, dt);
        let fallen = descend(column.update(row, cell.moving(speed)), row, 0, reach(speed));
        fallen.update(row, fallen[row].flagged(true))
    } else {
        column
    }
}

/// `column` after its first `rows` cells have been visited, top row first.
pub open spec fn sweep(column: Seq<Cell>, rows: nat, gravity: u32, dt: u32) -> Seq<Cell>
    decreases rows,
{
    if rows == 0 {
        column
    } else {
        resolve(sweep(column, (rows - 1) as nat, gravity, dt), rows - 1, gravity, dt)
    }
}

/// What one tick of `dt` microseconds makes of a column.
pub open spec fn tick_column(column: Seq<Cell>, gravity: u32, dt: u32) -> Seq<Cell> {
    sweep(roused(column), column.len(), gravity, dt)
}

/// What one tick of `dt` microseconds makes of a board.
pub open spec fn ticked(board: Seq<Seq<Cell>>, gravity: u32, dt: u32) -> Seq<Seq<Cell>> {
    Seq::new(board.len(), |c: int| tick_column(board[c], gravity, dt))
}

/// Adds to `speed` what gravity gives `mass` in `dt` microseconds.
fn accelerate(speed: u64, mass: u32, gravity: u32, dt: u32) -> (v: u64)
    ensures
        v == accelerated(speed, mass, gravity, dt),
{
    assert(mass * gravity <= 0xffff_ffff * 0xffff_ffff) by (nonlinear_arith)
        requires
            mass <= 0xffff_ffff,
            gravity <= 0xffff_ffff,
    ;
    let force: u128 = mass as u128 * gravity as u128;
    assert(force * dt <= 0xffff_ffff * 0xffff_ffff * 0xffff_ffff) by (nonlinear_arith)
        requires
            force <= 0xffff_ffff * 0xffff_ffff,
            dt <= 0xffff_ffff,
    ;
    let push: u128 = force * dt as u128;
    let sum: u128 = speed as u128 + push;
    if sum >= u64::MAX as u128 {
        u64::MAX
    } else {
        sum as u64
    }
}

/// The rest speed of the cell at `row` in a column of `rows` cells.
fn rest(rows: usize, row: usize) -> (v: u64)
    requires
        row < rows,
    ensures
        v == rest_speed(rows as int, row as int),
{
    let below: u128 = (rows - 1 - row) as u128;
    assert(below * UNITS_PER_CELL <= 0xffff_ffff_ffff_ffff * 1_000_000_000_000)
        by (nonlinear_arith)
        requires
            below <= 0xffff_ffff_ffff_ffff,
            UNITS_PER_CELL == 1_000_000_000_000,
    ;
    let speed: u128 = below * UNITS_PER_CELL as u128;
    if speed >= u64::MAX as u128 {
        u64::MAX
    } else {
        speed as u64
    }
}

/// Lets the powder or liquid at (`row`, `col`) fall.
fn fall(grid: &mut Grid, row: usize, col: usize, gravity: u32, dt: u32)
    requires
        old(grid).wf(),
        row < old(grid).row_count(),
        col < old(grid).col_count(),
        old(grid)@[col as int][row as int].material.phase.falls(),
    ensures
        final(grid).wf(),
        final(grid).row_count() == old(grid).row_count(),
        final(grid).col_count() == old(grid).col_count(),
        final(grid)@ == old(grid)@.update(
            col as int,
            resolve(old(grid)@[col as int], row as int, gravity, dt),
        ),
{
    proof {
        grid.lemma_shape();
    }
    let rows = grid.rows();
    let cell = grid.cell_at(row, col);
    let speed = accelerate(cell.velocity.y, cell.material.mass, gravity, dt);
    grid.put(
        row,
        col,
        Cell {
            material: cell.material,
            velocity: Velocity { x: cell.velocity.x, y: speed },
            settled: cell.settled,
        },
    );
    let ghost start = grid@[col as int];
    let reach: u64 = speed / UNITS_PER_CELL;
    let depth: usize = rows - row;
    let steps: usize = if reach < depth as u64 {
        reach as usize
    } else {
        depth
    };
    let mut step: usize = 0;
    let mut blocked = false;
    while step < steps && !blocked
        invariant
            grid.wf(),
            grid.row_count() == rows,
            grid.col_count() == old(grid).col_count(),
            row + depth == rows,
            col < grid.col_count(),
            step <= steps <= depth,
            steps <= reach,
            shaped(grid@, rows as nat, grid.col_count()),
            shaped(old(grid)@, rows as nat, grid.col_count()),
            grid@ == old(grid)@.update(col as int, grid@[col as int]),
            blocked ==> grid@[col as int] == descend(start, row as int, 0, reach as int),
            !blocked ==> descend(grid@[col as int], row as int, step as int, reach as int)
                == descend(start, row as int, 0, reach as int),
        decreases
            steps - step + if blocked {
                0int
            } else {
                1int
            },
    {
        if step == 0 {
            step = 1;
        } else {
            let ghost column = grid@[col as int];
            let here = grid.cell_at(row, col);
            let below = grid.cell_at(row + step, col);
            if here.material.mass > below.material.mass && !here.settled {
                grid.put(row, col, below);
                grid.put(
                    row + step,
                    col,
                    Cell { material: here.material, velocity: here.velocity, settled: false },
                );
                proof {
                    grid.lemma_shape();
                    assert(grid@[col as int] =~= exchanged(column, row as int, row + step));
                    assert(grid@ =~= old(grid)@.update(col as int, grid@[col as int]));
                }
                step += 1;
            } else {
                blocked = true;
            }
        }
    }
    if !blocked && reach > depth as u64 {
        let here = grid.cell_at(row, col);
        let slow = rest(rows, row);
        grid.put(
            row,
            col,
            Cell {
                material: here.material,
                velocity: Velocity { x: here.velocity.x, y: slow },
                settled: here.settled,
            },
        );
    }
    let here = grid.cell_at(row, col);
    grid.put(row, col, Cell { material: here.material, velocity: here.velocity, settled: true });
    proof {
        assert(grid@ =~= old(grid)@.update(
            col as int,
            resolve(old(grid)@[col as int], row as int, gravity, dt),
        ));
    }
}

/// Visits the cell at (`row`, `col`) and applies the rule of its phase.
///
/// Powders and liquids fall. Void, solid, gas and plasma cells do not move of
/// their own accord.
pub fn solve_particle(grid: &mut Grid, row: usize, col: usize, gravity: u32, dt: u32)
    requires
        old(grid).wf(),
        row < old(grid).row_count(),
        col < old(grid).col_count(),
    ensures
        final(grid).wf(),
        final(grid).row_count() == old(grid).row_count(),
        final(grid).col_count() == old(grid).col_count(),
        final(grid)@ == old(grid)@.update(
            col as int,
            resolve(old(grid)@[col as int], row as int, gravity, dt),
        ),
{
    let cell = grid.cell_at(row, col);
    if cell.material.phase.is_falling() {
        fall(grid, row, col, gravity, dt);
    } else {
        proof {
            grid.lemma_shape();
            assert(grid@ =~= grid@.update(col as int, grid@[col as int]));
        }
    }
}

/// Advances the grid by one tick of `dt` microseconds.
pub fn tick(grid: &mut Grid, config: &Config, dt: u32)
    requires
        old(grid).wf(),
    ensures
        final(grid).wf(),
        final(grid).row_count() == old(grid).row_count(),
        final(grid).col_count() == old(grid).col_count(),
        final(grid)@ == ticked(old(grid)@, config.gravity, dt),
{
    proof {
        grid.lemma_shape();
    }
    grid.rouse();
    let ghost start = grid@;
    let gravity = config.gravity;
    let rows = grid.rows();
    let cols = grid.cols();
    let mut row: usize = 0;
    while row < rows
        invariant
            grid.wf(),
            grid.row_count() == rows,
            grid.col_count() == cols,
            row <= rows,
            grid@.len() == cols,
            start.len() == cols,
            forall|c: int|
                0 <= c < cols ==> (#[trigger] grid@[c]) == sweep(start[c], row as nat, gravity, dt),
        decreases rows - row,
    {
        let mut col: usize = 0;
        while col < cols
            invariant
                grid.wf(),
                grid.row_count() == rows,
                grid.col_count() == cols,
                row < rows,
                col <= cols,
                grid@.len() == cols,
                start.len() == cols,
                forall|c: int|
                    0 <= c < col ==> (#[trigger] grid@[c]) == sweep(
                        start[c],
                        (row + 1) as nat,
                        gravity,
                        dt,
                    ),
                forall|c: int|
                    col <= c < cols ==> (#[trigger] grid@[c]) == sweep(
                        start[c],
                        row as nat,
                        gravity,
                        dt,
                    ),
            decreases cols - col,
        {
            solve_particle(grid, row, col, gravity, dt);
            col += 1;
        }
        row += 1;
    }
    proof {
        assert(grid@ =~= ticked(old(grid)@, gravity, dt));
    }
}

} // verus!
