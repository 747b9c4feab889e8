//! Laws of the tick engine, proved of every column and every elapsed time.
//!
//! A tick treats each column of the board on its own, so each law is stated
//! of one column: a sequence of cells from the top row down.

use crate::engine::{
    accelerated, descend, displaces, exchanged, impulse, reach, resolve, rest_speed, sweep,
    tick_column, ticked,
};
use crate::grid::{roused, shaped, Cell, UNITS_PER_CELL};
use crate::material::{lemma_catalog, Material};
use vstd::prelude::*;

verus! {

/// The materials of a column, from the top row down.
pub open spec fn materials(column: Seq<Cell>) -> Seq<Material> {
    Seq::new(column.len(), |r: int| column[r].material)
}

/// The settled flags of a column, from the top row down.
pub open spec fn flags(column: Seq<Cell>) -> Seq<bool> {
    Seq::new(column.len(), |r: int| column[r].settled)
}

/// A column after one tick for each elapsed time in `dts`, first to last.
pub open spec fn run_column(column: Seq<Cell>, gravity: u32, dts: Seq<u32>) -> Seq<Cell>
    decreases dts.len(),
{
    if dts.len() == 0 {
        column
    } else {
        run_column(tick_column(column, gravity, dts.first()), gravity, dts.drop_first())
    }
}

/// The first `count` of the elapsed times `times(0)`, `times(1)`, and so on.
pub open spec fn first_times(times: spec_fn(int) -> u32, count: nat) -> Seq<u32> {
    Seq::new(count, |i: int| times(i))
}

/// Every powder or liquid above `row` is lighter than the cell at `row`.
pub open spec fn lighter_above(column: Seq<Cell>, row: int) -> bool {
    forall|a: int|
        0 <= a < row && (#[trigger] column[a]).material.phase.falls()
            ==> column[a].material.mass < column[row].material.mass
}

/// No powder or liquid of the column lies above a lighter cell.
pub open spec fn stable(column: Seq<Cell>) -> bool {
    forall|a: int, b: int|
        #![trigger column[a], column[b]]
        0 <= a < b < column.len() && column[a].material.phase.falls()
            ==> column[a].material.mass <= column[b].material.mass
}

/// No powder or liquid above `row` is heavier than `bound`.
pub open spec fn light_above(column: Seq<Cell>, row: int, bound: u32) -> bool {
    forall|a: int|
        0 <= a < row && (#[trigger] column[a]).material.phase.falls()
            ==> column[a].material.mass <= bound
}

/// No powder or liquid above `row` is heavier than the cell at `row`.
pub open spec fn sheltered(column: Seq<Cell>, row: int) -> bool {
    light_above(column, row, column[row].material.mass)
}

/// The cell at `row` is heavier than `bound` and than the cell below it, and
/// no powder or liquid above it is heavier than `bound`.
spec fn guarded(column: Seq<Cell>, row: int, bound: u32) -> bool {
    &&& 0 <= row
    &&& row + 1 < column.len()
    &&& bound < column[row].material.mass
    &&& column[row + 1].material.mass < column[row].material.mass
    &&& light_above(column, row, bound)
}

/// What a visit makes of `cell`, at `row` of a column of `len` cells, when the
/// cell does not displace the one below it: a powder or liquid gains velocity
/// and is settled. It keeps that velocity, unless it lies in the bottom row
/// and reaches two cells or more: then it is slowed to its rest speed.
pub open spec fn rested(cell: Cell, len: int, row: int, gravity: u32, dt: u32) -> Cell {
    if cell.material.phase.falls() {
        let speed = accelerated(cell.velocity.y, cell.material.mass, gravity, dt);
        let slowed = if row + 1 == len && reach(speed) >= 2 {
            rest_speed(len, row)
        } else {
            speed
        };
        cell.moving(slowed).flagged(true)
    } else {
        cell
    }
}

/// Tick `i` of `times` gives the material `m` velocity.
pub open spec fn gains(m: Material, gravity: u32, times: spec_fn(int) -> u32, i: int) -> bool {
    impulse(m.mass, gravity, times(i)) > 0
}

/// The cell at `row` is lighter than `m`, and `m` lies somewhere below it.
pub open spec fn sunk(column: Seq<Cell>, row: int, m: Material) -> bool {
    &&& column[row].material.mass < m.mass
    &&& exists|i: int| row < i < column.len() && (#[trigger] column[i]).material == m
}

proof fn lemma_exchanged_materials(column: Seq<Cell>, row: int, target: int)
    requires
        0 <= row < column.len(),
        0 <= target < column.len(),
    ensures
        materials(exchanged(column, row, target)).to_multiset()
            == materials(column).to_multiset(),
{
    broadcast use {vstd::multiset::group_multiset_axioms, vstd::seq_lib::to_multiset_contains};

    let m = materials(column);
    let first = m.update(row, m[target]);
    let second = first.update(target, m[row]);
    assert(materials(exchanged(column, row, target)) =~= second);
    vstd::seq_lib::to_multiset_update(m, row, m[target]);
    vstd::seq_lib::to_multiset_update(first, target, m[row]);
    assert(m.contains(m[row]));
    assert(m.contains(m[target]));
    assert(second.to_multiset() =~= m.to_multiset());
}

/// A fall keeps the length of the column and its materials, and leaves alone
/// every cell above the rows it has yet to look at, but for the cell at `row`.
proof fn lemma_descend_conserves(column: Seq<Cell>, row: int, step: int, reach: int)
    requires
        0 <= row < column.len(),
        0 <= step,
    ensures
        descend(column, row, step, reach).len() == column.len(),
        materials(descend(column, row, step, reach)).to_multiset()
            == materials(column).to_multiset(),
        forall|a: int|
            0 <= a < row + step && a < column.len() && a != row
                ==> (#[trigger] descend(column, row, step, reach)[a]) == column[a],
    decreases reach - step,
{
    let fallen = descend(column, row, step, reach);
    if step >= reach {
    } else if row + step >= column.len() {
        assert(materials(fallen) =~= materials(column));
    } else if step == 0 {
        lemma_descend_conserves(column, row, 1, reach);
    } else if displaces(column, row, row + step) {
        let next = exchanged(column, row, row + step);
        lemma_exchanged_materials(column, row, row + step);
        lemma_descend_conserves(next, row, step + 1, reach);
        assert forall|a: int| 0 <= a < row + step && a < column.len() && a != row implies (
        #[trigger] fallen[a]) == column[a] by {
            assert(next[a] == column[a]);
        }
    }
}

/// Visiting a cell keeps the length of the column and its materials, and
/// leaves the cells above it alone.
proof fn lemma_resolve_conserves(column: Seq<Cell>, row: int, gravity: u32, dt: u32)
    requires
        0 <= row < column.len(),
    ensures
        resolve(column, row, gravity, dt).len() == column.len(),
        materials(resolve(column, row, gravity, dt)).to_multiset()
            == materials(column).to_multiset(),
        forall|a: int|
            0 <= a < row ==> (#[trigger] resolve(column, row, gravity, dt)[a]) == column[a],
{
    let cell = column[row];
    if cell.material.phase.falls() {
        let speed = accelerated(cell.velocity.y, cell.material.mass, gravity, dt);
        let started = column.update(row, cell.moving(speed));
        assert(materials(started) =~= materials(column));
        lemma_descend_conserves(started, row, 0, reach(speed));
        let fallen = descend(started, row, 0, reach(speed));
        let done = fallen.update(row, fallen[row].flagged(true));
        assert(materials(done) =~= materials(fallen));
        assert forall|a: int| 0 <= a < row implies (#[trigger] done[a]) == column[a] by {
            assert(fallen[a] == started[a]);
        }
    }
}

/// Visiting the first `rows` cells keeps the length of the column and its
/// materials.
proof fn lemma_sweep_conserves(column: Seq<Cell>, rows: nat, gravity: u32, dt: u32)
    requires
        rows <= column.len(),
    ensures
        sweep(column, rows, gravity, dt).len() == column.len(),
        materials(sweep(column, rows, gravity, dt)).to_multiset()
            == materials(column).to_multiset(),
    decreases rows,
{
    if rows > 0 {
        let before = sweep(column, (rows - 1) as nat, gravity, dt);
        lemma_sweep_conserves(column, (rows - 1) as nat, gravity, dt);
        lemma_resolve_conserves(before, rows - 1, gravity, dt);
    }
}

/// Visiting more rows leaves the rows already visited as they are.
proof fn lemma_sweep_frame(column: Seq<Cell>, from: nat, to: nat, gravity: u32, dt: u32)
    requires
        from <= to <= column.len(),
    ensures
        sweep(column, to, gravity, dt).len() == column.len(),
        forall|a: int|
            0 <= a < from ==> (#[trigger] sweep(column, to, gravity, dt)[a])
                == sweep(column, from, gravity, dt)[a],
    decreases to,
{
    lemma_sweep_conserves(column, to, gravity, dt);
    if from < to {
        let before = sweep(column, (to - 1) as nat, gravity, dt);
        lemma_sweep_frame(column, from, (to - 1) as nat, gravity, dt);
        lemma_resolve_conserves(before, to - 1, gravity, dt);
        assert forall|a: int| 0 <= a < from implies (#[trigger] sweep(column, to, gravity, dt)[a])
            == sweep(column, from, gravity, dt)[a] by {
            assert(resolve(before, to - 1, gravity, dt)[a] == before[a]);
        }
    }
}

/// A tick neither loses nor makes a particle, and none leaves its column:
/// the column keeps its length, and its materials after the tick are its
/// materials before, in some order.
pub proof fn lemma_tick_conserves(column: Seq<Cell>, gravity: u32, dt: u32)
    ensures
        tick_column(column, gravity, dt).len() == column.len(),
        materials(tick_column(column, gravity, dt)).to_multiset()
            == materials(column).to_multiset(),
{
    assert(materials(roused(column)) =~= materials(column));
    lemma_sweep_conserves(roused(column), column.len(), gravity, dt);
}

/// A tick keeps the shape of the board: every position holds one cell
/// before it and one cell after it.
pub proof fn lemma_ticked_shape(board: Seq<Seq<Cell>>, rows: nat, cols: nat, gravity: u32, dt: u32)
    requires
        shaped(board, rows, cols),
    ensures
        shaped(ticked(board, gravity, dt), rows, cols),
{
    assert forall|c: int| 0 <= c < cols implies (#[trigger] ticked(board, gravity, dt)[c]).len()
        == rows by {
        lemma_tick_conserves(board[c], gravity, dt);
    }
}

/// Floor containment: whatever the number of ticks and the time each takes,
/// the column keeps its length, and its materials are those it began with,
/// in some order. No particle ever lies below the bottom row or above the top.
pub proof fn lemma_run_conserves(column: Seq<Cell>, gravity: u32, dts: Seq<u32>)
    ensures
        run_column(column, gravity, dts).len() == column.len(),
        materials(run_column(column, gravity, dts)).to_multiset()
            == materials(column).to_multiset(),
    decreases dts.len(),
{
    if dts.len() > 0 {
        lemma_tick_conserves(column, gravity, dts.first());
        lemma_run_conserves(tick_column(column, gravity, dts.first()), gravity, dts.drop_first());
    }
}

/// A fall of a cell that does not displace the cell below it moves no cell.
/// The cell keeps its velocity, unless it lies in the bottom row and reaches
/// two cells or more: then it is slowed to its rest speed.
proof fn lemma_descend_blocked(column: Seq<Cell>, row: int, reach: int)
    requires
        0 <= row < column.len(),
        row + 1 < column.len() ==> !displaces(column, row, row + 1),
    ensures
        descend(column, row, 0, reach) == if row + 1 == column.len() && reach >= 2 {
            column.update(row, column[row].moving(rest_speed(column.len() as int, row)))
        } else {
            column
        },
{
    if reach > 0 {
        assert(descend(column, row, 0, reach) == descend(column, row, 1, reach));
    }
}

/// Stability is a matter of the materials alone.
proof fn lemma_stable_by_materials(column: Seq<Cell>, other: Seq<Cell>)
    requires
        stable(column),
        materials(other) == materials(column),
    ensures
        other.len() == column.len(),
        stable(other),
{
    assert(materials(other).len() == other.len());
    assert(materials(column).len() == column.len());
    assert forall|a: int, b: int|
        #![trigger other[a], other[b]]
        0 <= a < b < other.len() && other[a].material.phase.falls() implies other[a].material.mass
        <= other[b].material.mass by {
        assert(materials(other)[a] == other[a].material);
        assert(materials(column)[a] == column[a].material);
        assert(materials(other)[b] == other[b].material);
        assert(materials(column)[b] == column[b].material);
        assert(column[a].material.mass <= column[b].material.mass);
    }
}

/// Visiting a cell of a stable column changes that cell alone, and makes of
/// it what a visit makes of a cell that does not displace the one below it.
proof fn lemma_resolve_stable(column: Seq<Cell>, row: int, gravity: u32, dt: u32)
    requires
        0 <= row < column.len(),
        stable(column),
    ensures
        resolve(column, row, gravity, dt) == column.update(
            row,
            rested(column[row], column.len() as int, row, gravity, dt),
        ),
{
    let cell = column[row];
    let after = resolve(column, row, gravity, dt);
    let expected = column.update(row, rested(cell, column.len() as int, row, gravity, dt));
    if cell.material.phase.falls() {
        let speed = accelerated(cell.velocity.y, cell.material.mass, gravity, dt);
        let started = column.update(row, cell.moving(speed));
        if row + 1 < column.len() {
            assert(column[row].material.mass <= column[row + 1].material.mass);
        }
        lemma_descend_blocked(started, row, reach(speed));
    }
    assert(after =~= expected);
}

/// Visiting the first `rows` cells of a stable column makes of each of them
/// what a visit makes of a cell that does not displace the one below it.
proof fn lemma_sweep_stable(column: Seq<Cell>, rows: nat, gravity: u32, dt: u32)
    requires
        rows <= column.len(),
        stable(column),
    ensures
        sweep(column, rows, gravity, dt) == Seq::new(
            column.len(),
            |r: int|
                if r < rows {
                    rested(column[r], column.len() as int, r, gravity, dt)
                } else {
                    column[r]
                },
        ),
    decreases rows,
{
    let after = sweep(column, rows, gravity, dt);
    let expected = Seq::new(
        column.len(),
        |r: int|
            if r < rows {
                rested(column[r], column.len() as int, r, gravity, dt)
            } else {
                column[r]
            },
    );
    if rows > 0 {
        let before = sweep(column, (rows - 1) as nat, gravity, dt);
        lemma_sweep_stable(column, (rows - 1) as nat, gravity, dt);
        assert(materials(before) =~= materials(column));
        lemma_stable_by_materials(column, before);
        lemma_resolve_stable(before, rows - 1, gravity, dt);
    }
    assert(after =~= expected);
}

/// A tick of a stable column moves no material. It makes of every cell what a
/// visit makes of an unsettled cell that does not displace the one below it,
/// and the column is stable still.
pub proof fn lemma_tick_stable(column: Seq<Cell>, gravity: u32, dt: u32)
    requires
        stable(column),
    ensures
        tick_column(column, gravity, dt) == Seq::new(
            column.len(),
            |r: int| rested(column[r].flagged(false), column.len() as int, r, gravity, dt),
        ),
        materials(tick_column(column, gravity, dt)) == materials(column),
        stable(tick_column(column, gravity, dt)),
{
    let awake = roused(column);
    let after = tick_column(column, gravity, dt);
    assert(materials(awake) =~= materials(column));
    lemma_stable_by_materials(column, awake);
    lemma_sweep_stable(awake, column.len(), gravity, dt);
    assert(after =~= Seq::new(
        column.len(),
        |r: int| rested(column[r].flagged(false), column.len() as int, r, gravity, dt),
    ));
    assert(materials(after) =~= materials(column));
    lemma_stable_by_materials(column, after);
}

/// A stable column keeps every material in its row through every run of
/// ticks, and is stable after it.
pub proof fn lemma_run_stable(column: Seq<Cell>, gravity: u32, dts: Seq<u32>)
    requires
        stable(column),
    ensures
        materials(run_column(column, gravity, dts)) == materials(column),
        stable(run_column(column, gravity, dts)),
    decreases dts.len(),
{
    if dts.len() > 0 {
        lemma_tick_stable(column, gravity, dts.first());
        lemma_run_stable(tick_column(column, gravity, dts.first()), gravity, dts.drop_first());
    }
}

/// Settling is idempotent: two ticks in a row of a stable column, whatever
/// time each takes, leave every material and every settled flag as the first
/// tick left it, and no material has moved at all.
pub proof fn lemma_settle_idempotent(column: Seq<Cell>, gravity: u32, first: u32, second: u32)
    requires
        stable(column),
    ensures
        materials(tick_column(column, gravity, first)) == materials(column),
        materials(tick_column(tick_column(column, gravity, first), gravity, second))
            == materials(tick_column(column, gravity, first)),
        flags(tick_column(tick_column(column, gravity, first), gravity, second))
            == flags(tick_column(column, gravity, first)),
{
    let once = tick_column(column, gravity, first);
    let twice = tick_column(once, gravity, second);
    lemma_tick_stable(column, gravity, first);
    lemma_tick_stable(once, gravity, second);
    assert(flags(twice) =~= flags(once));
}

/// Settling is idempotent in full where the second tick gives no cell any
/// velocity, as when no time passes in it: the column after both ticks is the
/// column after the first, cell for cell.
pub proof fn lemma_settle_idempotent_at_rest(
    column: Seq<Cell>,
    gravity: u32,
    first: u32,
    second: u32,
)
    requires
        stable(column),
        forall|r: int|
            0 <= r < column.len() && (#[trigger] column[r]).material.phase.falls() ==> impulse(
                column[r].material.mass,
                gravity,
                second,
            ) == 0,
    ensures
        tick_column(tick_column(column, gravity, first), gravity, second) == tick_column(
            column,
            gravity,
            first,
        ),
{
    let once = tick_column(column, gravity, first);
    let twice = tick_column(once, gravity, second);
    lemma_tick_stable(column, gravity, first);
    lemma_tick_stable(once, gravity, second);
    assert(UNITS_PER_CELL == 1_000_000_000_000);
    assert forall|r: int| 0 <= r < column.len() implies twice[r] == once[r] by {
        let len = column.len() as int;
        let cell = column[r];
        assert(once[r] == rested(cell.flagged(false), len, r, gravity, first));
        assert(twice[r] == rested(once[r].flagged(false), len, r, gravity, second));
        if cell.material.phase.falls() {
            let speed = once[r].velocity.y;
            assert(accelerated(speed, cell.material.mass, gravity, second) == speed);
            assert(r + 1 == len && reach(speed) >= 2 ==> speed == rest_speed(len, r));
        }
    }
    assert(twice =~= once);
}

/// A fall that starts above `row` with a cell no heavier than `bound`, in a
/// column whose powders and liquids above `row` are no heavier than `bound`
/// either, leaves the cell at `row` alone if that cell weighs `bound` or more.
/// Below `row` it makes no cell heavier than it was, unless it puts a cell
/// there that is no heavier than `bound`.
proof fn lemma_descend_above(
    column: Seq<Cell>,
    source: int,
    step: int,
    reach: int,
    row: int,
    bound: u32,
)
    requires
        0 <= source < row < column.len(),
        0 <= step,
        light_above(column, row, bound),
        column[source].material.mass <= bound <= column[row].material.mass,
    ensures
        descend(column, source, step, reach).len() == column.len(),
        descend(column, source, step, reach)[row] == column[row],
        light_above(descend(column, source, step, reach), row, bound),
        forall|t: int|
            row < t < column.len() ==> {
                let mass = (#[trigger] descend(column, source, step, reach)[t]).material.mass;
                mass <= column[t].material.mass || mass <= bound
            },
    decreases reach - step,
{
    let fallen = descend(column, source, step, reach);
    if step >= reach {
    } else if source + step >= column.len() {
        assert forall|a: int| 0 <= a < row && (#[trigger] fallen[a]).material.phase.falls() implies
            fallen[a].material.mass <= bound by {
            if a != source {
                assert(fallen[a] == column[a]);
            }
        }
    } else if step == 0 {
        lemma_descend_above(column, source, 1, reach, row, bound);
    } else if displaces(column, source, source + step) {
        let target = source + step;
        let next = exchanged(column, source, target);
        assert(next[row] == column[row]);
        assert forall|a: int| 0 <= a < row && (#[trigger] next[a]).material.phase.falls() implies
            next[a].material.mass <= bound by {
            if a != source && a != target {
                assert(next[a] == column[a]);
            }
        }
        lemma_descend_above(next, source, step + 1, reach, row, bound);
        assert forall|t: int| row < t < column.len() implies {
            let mass = (#[trigger] fallen[t]).material.mass;
            mass <= column[t].material.mass || mass <= bound
        } by {
            if t != target {
                assert(next[t] == column[t]);
            }
        }
    }
}

/// Visiting the rows above `row` leaves the cell at `row` alone, if it weighs
/// `bound` or more and no powder or liquid above it is heavier than `bound`.
/// Below `row` it makes no cell heavier than it was, unless it puts a cell
/// there that is no heavier than `bound`.
proof fn lemma_sweep_above(
    column: Seq<Cell>,
    rows: nat,
    gravity: u32,
    dt: u32,
    row: int,
    bound: u32,
)
    requires
        rows <= row < column.len(),
        light_above(column, row, bound),
        bound <= column[row].material.mass,
    ensures
        sweep(column, rows, gravity, dt).len() == column.len(),
        sweep(column, rows, gravity, dt)[row] == column[row],
        light_above(sweep(column, rows, gravity, dt), row, bound),
        forall|t: int|
            row < t < column.len() ==> {
                let mass = (#[trigger] sweep(column, rows, gravity, dt)[t]).material.mass;
                mass <= column[t].material.mass || mass <= bound
            },
    decreases rows,
{
    if rows > 0 {
        let source = rows - 1;
        let before = sweep(column, (rows - 1) as nat, gravity, dt);
        let after = sweep(column, rows, gravity, dt);
        lemma_sweep_above(column, (rows - 1) as nat, gravity, dt, row, bound);
        let cell = before[source];
        if cell.material.phase.falls() {
            let speed = accelerated(cell.velocity.y, cell.material.mass, gravity, dt);
            let started = before.update(source, cell.moving(speed));
            assert forall|a: int|
                0 <= a < row && (#[trigger] started[a]).material.phase.falls() implies
                started[a].material.mass <= bound by {
                if a != source {
                    assert(started[a] == before[a]);
                }
            }
            lemma_descend_above(started, source, 0, reach(speed), row, bound);
            let fallen = descend(started, source, 0, reach(speed));
            assert forall|a: int|
                0 <= a < row && (#[trigger] after[a]).material.phase.falls() implies
                after[a].material.mass <= bound by {
                if a != source {
                    assert(after[a] == fallen[a]);
                }
            }
            assert forall|t: int| row < t < column.len() implies {
                let mass = (#[trigger] after[t]).material.mass;
                mass <= column[t].material.mass || mass <= bound
            } by {
                assert(after[t] == fallen[t]);
                assert(started[t] == before[t]);
            }
        }
    }
}

/// A tick leaves in place a cell that gravity does not move, as long as no
/// powder or liquid above it is heavier than it: the cell keeps its material
/// and velocity and ends the tick unsettled, and it is sheltered still.
pub proof fn lemma_tick_keeps_still_cell(column: Seq<Cell>, row: int, gravity: u32, dt: u32)
    requires
        0 <= row < column.len(),
        !column[row].material.phase.falls(),
        sheltered(column, row),
    ensures
        tick_column(column, gravity, dt).len() == column.len(),
        tick_column(column, gravity, dt)[row] == column[row].flagged(false),
        sheltered(tick_column(column, gravity, dt), row),
{
    let bound = column[row].material.mass;
    let awake = roused(column);
    let after = tick_column(column, gravity, dt);
    assert forall|a: int| 0 <= a < row && (#[trigger] awake[a]).material.phase.falls() implies
        awake[a].material.mass <= bound by {
        assert(awake[a].material == column[a].material);
    }
    lemma_sweep_above(awake, row as nat, gravity, dt, row, bound);
    let above = sweep(awake, row as nat, gravity, dt);
    assert(sweep(awake, (row + 1) as nat, gravity, dt) == above);
    lemma_sweep_frame(awake, (row + 1) as nat, column.len(), gravity, dt);
    assert forall|a: int| 0 <= a < row && (#[trigger] after[a]).material.phase.falls() implies
        after[a].material.mass <= bound by {
        assert(after[a] == above[a]);
    }
}

/// Solid immobility: a solid, and any other cell that gravity does not move,
/// keeps its row through every run of ticks, as long as no powder or liquid
/// above it is heavier than it. Its material and velocity never change.
pub proof fn lemma_still_cell_stays(column: Seq<Cell>, row: int, gravity: u32, dts: Seq<u32>)
    requires
        0 <= row < column.len(),
        !column[row].material.phase.falls(),
        sheltered(column, row),
    ensures
        run_column(column, gravity, dts).len() == column.len(),
        run_column(column, gravity, dts)[row].material == column[row].material,
        run_column(column, gravity, dts)[row].velocity == column[row].velocity,
    decreases dts.len(),
{
    if dts.len() > 0 {
        let after = tick_column(column, gravity, dts.first());
        lemma_tick_keeps_still_cell(column, row, gravity, dts.first());
        lemma_still_cell_stays(after, row, gravity, dts.drop_first());
    }
}

/// No material of the catalog is heavier than its solid, so a catalog solid
/// below catalog materials is sheltered.
pub proof fn lemma_catalog_shelters_solid(column: Seq<Cell>, row: int)
    requires
        0 <= row < column.len(),
        column[row].material == Material::spec_solid(),
        forall|a: int| 0 <= a < row ==> (#[trigger] column[a]).material.in_catalog(),
    ensures
        !column[row].material.phase.falls(),
        sheltered(column, row),
{
    assert forall|a: int| 0 <= a < row && (#[trigger] column[a]).material.phase.falls() implies
        column[a].material.mass <= column[row].material.mass by {
        lemma_catalog(column[a].material);
    }
}

/// A fall never makes the cell at `row` heavier.
proof fn lemma_descend_lightens(column: Seq<Cell>, row: int, step: int, reach: int)
    requires
        0 <= row < column.len(),
        0 <= step,
    ensures
        descend(column, row, step, reach)[row].material.mass <= column[row].material.mass,
    decreases reach - step,
{
    if step >= reach {
    } else if row + step >= column.len() {
    } else if step == 0 {
        lemma_descend_lightens(column, row, 1, reach);
    } else if displaces(column, row, row + step) {
        lemma_descend_lightens(exchanged(column, row, row + step), row, step + 1, reach);
    }
}

/// Visiting a cell never makes it heavier.
proof fn lemma_resolve_lightens(column: Seq<Cell>, row: int, gravity: u32, dt: u32)
    requires
        0 <= row < column.len(),
    ensures
        resolve(column, row, gravity, dt)[row].material.mass <= column[row].material.mass,
{
    let cell = column[row];
    if cell.material.phase.falls() {
        let speed = accelerated(cell.velocity.y, cell.material.mass, gravity, dt);
        let started = column.update(row, cell.moving(speed));
        lemma_descend_lightens(started, row, 0, reach(speed));
        lemma_descend_conserves(started, row, 0, reach(speed));
    }
}

/// A material found at or below row `low` is still found there after a fall
/// that starts at or below `low`.
proof fn lemma_descend_keeps_below(
    column: Seq<Cell>,
    row: int,
    step: int,
    reach: int,
    low: int,
    m: Material,
)
    requires
        0 <= low <= row < column.len(),
        0 <= step,
        exists|i: int| low <= i < column.len() && (#[trigger] column[i]).material == m,
    ensures
        exists|i: int|
            low <= i < column.len()
                && (#[trigger] descend(column, row, step, reach)[i]).material == m,
    decreases reach - step,
{
    let found = choose|i: int| low <= i < column.len() && (#[trigger] column[i]).material == m;
    if step >= reach {
        assert(descend(column, row, step, reach)[found].material == m);
    } else if row + step >= column.len() {
        assert(descend(column, row, step, reach)[found].material == m);
    } else if step == 0 {
        lemma_descend_keeps_below(column, row, 1, reach, low, m);
    } else if displaces(column, row, row + step) {
        let target = row + step;
        let next = exchanged(column, row, target);
        if found == row {
            assert(next[target].material == m);
        } else if found == target {
            assert(next[row].material == m);
        } else {
            assert(next[found].material == m);
        }
        lemma_descend_keeps_below(next, row, step + 1, reach, low, m);
    } else {
        assert(descend(column, row, step, reach)[found].material == m);
    }
}

/// A material found at or below row `from` once the rows above `from` have
/// been visited is still found there when more rows have been visited.
proof fn lemma_sweep_keeps_below(
    column: Seq<Cell>,
    from: nat,
    to: nat,
    gravity: u32,
    dt: u32,
    m: Material,
)
    requires
        from <= to <= column.len(),
        exists|i: int|
            from <= i < column.len()
                && (#[trigger] sweep(column, from, gravity, dt)[i]).material == m,
    ensures
        exists|i: int|
            from <= i < column.len()
                && (#[trigger] sweep(column, to, gravity, dt)[i]).material == m,
    decreases to,
{
    if from < to {
        let row = to - 1;
        let before = sweep(column, (to - 1) as nat, gravity, dt);
        let after = sweep(column, to, gravity, dt);
        lemma_sweep_keeps_below(column, from, (to - 1) as nat, gravity, dt, m);
        lemma_sweep_conserves(column, (to - 1) as nat, gravity, dt);
        let found = choose|i: int|
            from <= i < column.len() && (#[trigger] before[i]).material == m;
        let cell = before[row];
        if cell.material.phase.falls() {
            let speed = accelerated(cell.velocity.y, cell.material.mass, gravity, dt);
            let started = before.update(row, cell.moving(speed));
            assert(started[found].material == m);
            lemma_descend_keeps_below(started, row, 0, reach(speed), from as int, m);
            lemma_descend_conserves(started, row, 0, reach(speed));
            let fallen = descend(started, row, 0, reach(speed));
            let kept = choose|i: int|
                from <= i < started.len() && (#[trigger] fallen[i]).material == m;
            assert(after[kept].material == m);
        } else {
            assert(after[found].material == m);
        }
    }
}

/// One tick of a column in which the powder or liquid at `row` is guarded:
/// either that cell has sunk, or it is where it was, guarded still, and has
/// gained velocity.
proof fn lemma_tick_guarded(column: Seq<Cell>, row: int, gravity: u32, dt: u32, bound: u32)
    requires
        guarded(column, row, bound),
        column[row].material.phase.falls(),
        impulse(column[row].material.mass, gravity, dt) > 0,
    ensures
        ({
            let m = column[row].material;
            let after = tick_column(column, gravity, dt);
            let speed = accelerated(column[row].velocity.y, m.mass, gravity, dt);
            if reach(speed) >= 2 {
                sunk(after, row, m)
            } else {
                &&& guarded(after, row, bound)
                &&& after[row].material == m
                &&& after[row].velocity.y == speed
                &&& column[row].velocity.y < speed < 2 * UNITS_PER_CELL
            }
        }),
{
    let m = column[row].material;
    let len = column.len();
    let awake = roused(column);
    let after = tick_column(column, gravity, dt);
    let speed = accelerated(column[row].velocity.y, m.mass, gravity, dt);
    let far = reach(speed);
    assert forall|a: int| 0 <= a < row && (#[trigger] awake[a]).material.phase.falls() implies
        awake[a].material.mass <= bound by {
        assert(awake[a].material == column[a].material);
    }
    lemma_sweep_above(awake, row as nat, gravity, dt, row, bound);
    let above = sweep(awake, row as nat, gravity, dt);
    let visited = sweep(awake, (row + 1) as nat, gravity, dt);
    assert(above[row + 1].material.mass < m.mass);
    assert(visited == resolve(above, row, gravity, dt));
    let started = above.update(row, above[row].moving(speed));
    let fallen = descend(started, row, 0, far);
    assert(visited == fallen.update(row, fallen[row].flagged(true)));
    lemma_sweep_frame(awake, (row + 1) as nat, len, gravity, dt);
    assert(after[row] == visited[row]);
    if far >= 2 {
        let next = exchanged(started, row, row + 1);
        assert(displaces(started, row, row + 1));
        assert(fallen == descend(started, row, 1, far));
        assert(descend(started, row, 1, far) == descend(next, row, 2, far));
        lemma_descend_conserves(next, row, 2, far);
        lemma_descend_lightens(next, row, 2, far);
        assert(fallen[row + 1] == next[row + 1]);
        assert(visited[row + 1].material == m);
        assert(visited[row].material.mass < m.mass);
        lemma_sweep_keeps_below(awake, (row + 1) as nat, len, gravity, dt, m);
        let kept = choose|i: int| row + 1 <= i < len && (#[trigger] after[i]).material == m;
        assert(row < kept < after.len() && after[kept].material == m);
    } else {
        assert(UNITS_PER_CELL == 1_000_000_000_000);
        assert(descend(started, row, 1, far) == started);
        assert(fallen == started);
        assert forall|a: int| 0 <= a < row && (#[trigger] after[a]).material.phase.falls() implies
            after[a].material.mass <= bound by {
            assert(after[a] == visited[a]);
            assert(visited[a] == above[a]);
        }
        let below = sweep(awake, (row + 2) as nat, gravity, dt);
        assert(below == resolve(visited, row + 1, gravity, dt));
        lemma_resolve_lightens(visited, row + 1, gravity, dt);
        lemma_sweep_frame(awake, (row + 2) as nat, len, gravity, dt);
        assert(after[row + 1] == below[row + 1]);
        assert(visited[row + 1] == above[row + 1]);
    }
}

/// The powder or liquid at `row` of a guarded column sinks after enough
/// ticks, whatever time each takes, if each gives it velocity.
proof fn lemma_guarded_sinks(
    column: Seq<Cell>,
    row: int,
    gravity: u32,
    times: spec_fn(int) -> u32,
    bound: u32,
)
    requires
        guarded(column, row, bound),
        column[row].material.phase.falls(),
        forall|i: int| 0 <= i ==> gains(column[row].material, gravity, times, i),
    ensures
        exists|count: nat|
            sunk(
                #[trigger] run_column(column, gravity, first_times(times, count)),
                row,
                column[row].material,
            ),
    decreases 2 * UNITS_PER_CELL - column[row].velocity.y,
{
    let m = column[row].material;
    let dt = times(0);
    let after = tick_column(column, gravity, dt);
    let speed = accelerated(column[row].velocity.y, m.mass, gravity, dt);
    assert(gains(m, gravity, times, 0));
    lemma_tick_guarded(column, row, gravity, dt, bound);
    if reach(speed) >= 2 {
        let once = first_times(times, 1);
        assert(once.first() == dt);
        assert(once.drop_first().len() == 0);
        assert(run_column(after, gravity, once.drop_first()) == after);
        assert(run_column(column, gravity, once) == after);
    } else {
        let later = |i: int| times(i + 1);
        assert forall|i: int| 0 <= i implies gains(m, gravity, later, i) by {
            assert(gains(m, gravity, times, i + 1));
        }
        lemma_guarded_sinks(after, row, gravity, later, bound);
        let rest = choose|count: nat|
            sunk(#[trigger] run_column(after, gravity, first_times(later, count)), row, m);
        let all = first_times(times, rest + 1);
        assert(all.first() == dt);
        assert(all.drop_first() =~= first_times(later, rest));
        assert(run_column(column, gravity, all) == run_column(
            after,
            gravity,
            first_times(later, rest),
        ));
    }
}

/// Mass ordering: a powder or liquid that lies directly above a lighter cell
/// sinks through it, as long as every powder or liquid above it is lighter
/// than it. Tick after tick, whatever time each takes, if each gives it
/// velocity, there comes a tick after which its place is taken by a lighter
/// cell and its material lies lower in the column.
pub proof fn lemma_heavier_sinks(
    column: Seq<Cell>,
    row: int,
    gravity: u32,
    times: spec_fn(int) -> u32,
)
    requires
        0 <= row,
        row + 1 < column.len(),
        column[row].material.phase.falls(),
        column[row].material.mass > column[row + 1].material.mass,
        lighter_above(column, row),
        forall|i: int| 0 <= i ==> gains(column[row].material, gravity, times, i),
    ensures
        exists|count: nat|
            sunk(
                #[trigger] run_column(column, gravity, first_times(times, count)),
                row,
                column[row].material,
            ),
{
    let bound = (column[row].material.mass - 1) as u32;
    lemma_guarded_sinks(column, row, gravity, times, bound);
}

} // verus!
