//! What the controls do to a simulation: painting with the pointer and the
//! keys, erasing, clearing, pausing and cycling the overlay.
//!
//! Nothing here reads a device or draws. The caller samples the pointer, the
//! keys and the clicks on its buttons once per frame and hands them over as
//! plain values.

use crate::engine::{tick, ticked, Config};
use crate::grid::{erased, painted, Cell, Grid};
use crate::material::Material;
use vstd::prelude::*;

verus! {

/// Height of the strip above the board, in pixels.
pub const BOARD_TOP: u32 = 60;

/// Number of overlay states. State 0 shows no overlay.
pub const OVERLAY_STATES: usize = 8;

/// The pointer as sampled in one frame: its position in pixels and the
/// buttons held down.
#[derive(Clone, Copy, Debug, PartialEq, Eq)]
pub struct Pointer {
    pub x: u32,
    pub y: u32,
    pub left: bool,
    pub right: bool,
    pub middle: bool,
}

/// The keys as sampled in one frame.
#[derive(Clone, Copy, Debug, PartialEq, Eq)]
pub struct Keys {
    /// The reset key went down in this frame.
    pub reset: bool,
    pub powder: bool,
    pub liquid: bool,
    pub gas: bool,
    pub plasma: bool,
}

/// The cell drawn at pixel (`x`, `y`), as (row, column), if there is one.
///
/// Column `c` covers the pixels from `c * cell_size` on, and row `r` those
/// from `BOARD_TOP + r * cell_size` on.
pub open spec fn spec_cell_under(x: u32, y: u32, cell_size: u32, rows: nat, cols: nat) -> Option<
    (usize, usize),
> {
    let row = (y - BOARD_TOP) / (cell_size as int);
    let col = (x as int) / (cell_size as int);
    if cell_size > 0 && y >= BOARD_TOP && row < rows && col < cols {
        Some((row as usize, col as usize))
    } else {
        None
    }
}

/// The material that the pointer paints: water with the left button, sand
/// with the right one, solid with the middle one. The left button wins over
/// the right, and the right over the middle.
pub open spec fn spec_pointer_brush(pointer: Pointer) -> Option<Material> {
    if pointer.left {
        Some(Material::spec_water())
    } else if pointer.right {
        Some(Material::spec_sand())
    } else if pointer.middle {
        Some(Material::spec_solid())
    } else {
        None
    }
}

/// The material that the keys paint: powder, liquid, gas or plasma, the
/// first of them whose key is held.
pub open spec fn spec_key_brush(keys: Keys) -> Option<Material> {
    if keys.powder {
        Some(Material::spec_powder())
    } else if keys.liquid {
        Some(Material::spec_liquid())
    } else if keys.gas {
        Some(Material::spec_gas())
    } else if keys.plasma {
        Some(Material::spec_plasma())
    } else {
        None
    }
}

/// `board` after `brush`, if any, has painted the cell under the pointer, if
/// any.
pub open spec fn brushed(
    board: Seq<Seq<Cell>>,
    brush: Option<Material>,
    under: Option<(usize, usize)>,
) -> Seq<Seq<Cell>> {
    match (brush, under) {
        (Some(material), Some((row, col))) => painted(board, row as int, col as int, material),
        _ => board,
    }
}

/// How many lines each way the overlay draws across the board in `state`.
/// The states 2 to 6 divide the board evenly; the others draw no such lines.
pub open spec fn spec_overlay_lines(state: usize) -> u32 {
    if 2 <= state <= 6 {
        (2 * state) as u32
    } else {
        0
    }
}

pub fn cell_under(x: u32, y: u32, cell_size: u32, rows: usize, cols: usize) -> (under: Option<
    (usize, usize),
>)
    ensures
        under == spec_cell_under(x, y, cell_size, rows as nat, cols as nat),
{
    if cell_size == 0 || y < BOARD_TOP {
        return None;
    }
    let row = ((y - BOARD_TOP) / cell_size) as usize;
    let col = (x / cell_size) as usize;
    if row < rows && col < cols {
        Some((row, col))
    } else {
        None
    }
}

pub fn pointer_brush(pointer: &Pointer) -> (brush: Option<Material>)
    ensures
        brush == spec_pointer_brush(*pointer),
{
    if pointer.left {
        Some(Material::water())
    } else if pointer.right {
        Some(Material::sand())
    } else if pointer.middle {
        Some(Material::solid())
    } else {
        None
    }
}

pub fn key_brush(keys: &Keys) -> (brush: Option<Material>)
    ensures
        brush == spec_key_brush(*keys),
{
    if keys.powder {
        Some(Material::powder())
    } else if keys.liquid {
        Some(Material::liquid())
    } else if keys.gas {
        Some(Material::gas())
    } else if keys.plasma {
        Some(Material::plasma())
    } else {
        None
    }
}

/// Paints `brush`, if any, on the cell under the pointer, if any.
fn brush_at(board: &mut Grid, config: &Config, pointer: &Pointer, brush: Option<Material>)
    requires
        old(board).wf(),
    ensures
        final(board).wf(),
        final(board).row_count() == old(board).row_count(),
        final(board).col_count() == old(board).col_count(),
        final(board)@ == brushed(
            old(board)@,
            brush,
            spec_cell_under(
                pointer.x,
                pointer.y,
                config.cell_size,
                old(board).row_count(),
                old(board).col_count(),
            ),
        ),
{
    let under = cell_under(pointer.x, pointer.y, config.cell_size, board.rows(), board.cols());
    match (brush, under) {
        (Some(material), Some((row, col))) => {
            board.paint(row, col, material);
        },
        _ => {},
    }
}

/// The pointer channel: while a button is held, paints its material on the
/// cell under the pointer.
pub fn handle_mouse_input(board: &mut Grid, config: &Config, pointer: &Pointer)
    requires
        old(board).wf(),
    ensures
        final(board).wf(),
        final(board).row_count() == old(board).row_count(),
        final(board).col_count() == old(board).col_count(),
        final(board)@ == brushed(
            old(board)@,
            spec_pointer_brush(*pointer),
            spec_cell_under(
                pointer.x,
                pointer.y,
                config.cell_size,
                old(board).row_count(),
                old(board).col_count(),
            ),
        ),
{
    let brush = pointer_brush(pointer);
    brush_at(board, config, pointer, brush);
}

/// One frame of a running simulation: a tick of `dt` microseconds, and then
/// the pointer channel.
///
/// The tick comes first, so a particle painted in this frame starts to fall
/// in the next one.
pub fn update_board(board: &mut Grid, config: &Config, dt: u32, pointer: &Pointer)
    requires
        old(board).wf(),
    ensures
        final(board).wf(),
        final(board).row_count() == old(board).row_count(),
        final(board).col_count() == old(board).col_count(),
        final(board)@ == brushed(
            ticked(old(board)@, config.gravity, dt),
            spec_pointer_brush(*pointer),
            spec_cell_under(
                pointer.x,
                pointer.y,
                config.cell_size,
                old(board).row_count(),
                old(board).col_count(),
            ),
        ),
{
    tick(board, config, dt);
    handle_mouse_input(board, config, pointer);
}

/// The key channel: the reset key empties the board, and then, while a
/// material key is held, its material is painted on the cell under the
/// pointer.
pub fn handle_key_inputs(board: &mut Grid, config: &Config, keys: &Keys, pointer: &Pointer)
    requires
        old(board).wf(),
    ensures
        final(board).wf(),
        final(board).row_count() == old(board).row_count(),
        final(board).col_count() == old(board).col_count(),
        final(board)@ == brushed(
            if keys.reset {
                crate::grid::blank(old(board).row_count(), old(board).col_count())
            } else {
                old(board)@
            },
            spec_key_brush(*keys),
            spec_cell_under(
                pointer.x,
                pointer.y,
                config.cell_size,
                old(board).row_count(),
                old(board).col_count(),
            ),
        ),
{
    if keys.reset {
        board.clear();
    }
    let brush = key_brush(keys);
    brush_at(board, config, pointer, brush);
}

/// The clear button: a click empties the board.
pub fn clear_button(board: &mut Grid, clicked: bool)
    requires
        old(board).wf(),
    ensures
        final(board).wf(),
        final(board).row_count() == old(board).row_count(),
        final(board).col_count() == old(board).col_count(),
        final(board)@ == if clicked {
            crate::grid::blank(old(board).row_count(), old(board).col_count())
        } else {
            old(board)@
        },
{
    if clicked {
        board.clear();
    }
}

/// The overlay button: a click moves on to the next overlay state, and from
/// the last state back to none.
pub fn grid_button(grid_state: &mut usize, clicked: bool)
    ensures
        *final(grid_state) == if clicked {
            (*old(grid_state) + 1) % (OVERLAY_STATES as int)
        } else {
            *old(grid_state) as int
        },
{
    if clicked {
        *grid_state = (*grid_state % OVERLAY_STATES + 1) % OVERLAY_STATES;
    }
}

pub fn overlay_lines(state: usize) -> (lines: u32)
    ensures
        lines == spec_overlay_lines(state),
{
    if 2 <= state && state <= 6 {
        (2 * state) as u32
    } else {
        0
    }
}

/// The pause button: a click pauses a running simulation and starts a paused
/// one.
pub fn start_pause_button(is_paused: &mut bool, clicked: bool)
    ensures
        *final(is_paused) == (*old(is_paused) != clicked),
{
    if clicked {
        *is_paused = !*is_paused;
    }
}

/// The erase button: a click switches erase mode on or off. In erase mode,
/// while the left button is held, the cell under the pointer is emptied.
pub fn erase_button(
    board: &mut Grid,
    config: &Config,
    is_erase_mode: &mut bool,
    clicked: bool,
    pointer: &Pointer,
)
    requires
        old(board).wf(),
    ensures
        final(board).wf(),
        final(board).row_count() == old(board).row_count(),
        final(board).col_count() == old(board).col_count(),
        *final(is_erase_mode) == (*old(is_erase_mode) != clicked),
        final(board)@ == match spec_cell_under(
            pointer.x,
            pointer.y,
            config.cell_size,
            old(board).row_count(),
            old(board).col_count(),
        ) {
            Some((row, col)) if *final(is_erase_mode) && pointer.left => erased(
                old(board)@,
                row as int,
                col as int,
            ),
            _ => old(board)@,
        },
{
    if clicked {
        *is_erase_mode = !*is_erase_mode;
    }
    if *is_erase_mode && pointer.left {
        match cell_under(pointer.x, pointer.y, config.cell_size, board.rows(), board.cols()) {
            Some((row, col)) => {
                board.erase(row, col);
            },
            None => {},
        }
    }
}

} // verus!
