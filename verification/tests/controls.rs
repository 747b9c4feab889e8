use particle_sim::controls::{
    cell_under, clear_button, erase_button, grid_button, handle_key_inputs, handle_mouse_input,
    key_brush, overlay_lines, pointer_brush, start_pause_button, update_board, Keys, Pointer,
    BOARD_TOP,
};
use particle_sim::engine::{tick, Config};
use particle_sim::grid::{Cell, Grid};
use particle_sim::material::Material;

fn small_config() -> Config {
    Config { row_count: 4, col_count: 6, cell_size: 5, gravity: 9810 }
}

fn pointer_at(x: u32, y: u32) -> Pointer {
    Pointer { x, y, left: false, right: false, middle: false }
}

fn no_keys() -> Keys {
    Keys { reset: false, powder: false, liquid: false, gas: false, plasma: false }
}

#[test]
fn pixels_map_to_the_cell_drawn_there() {
    assert_eq!(BOARD_TOP, 60);
    assert_eq!(cell_under(0, 60, 5, 4, 6), Some((0, 0)));
    assert_eq!(cell_under(4, 64, 5, 4, 6), Some((0, 0)));
    assert_eq!(cell_under(5, 65, 5, 4, 6), Some((1, 1)));
    assert_eq!(cell_under(29, 79, 5, 4, 6), Some((3, 5)));
    assert_eq!(cell_under(17, 71, 5, 4, 6), Some((2, 3)));
}

#[test]
fn pixels_outside_the_board_map_to_no_cell() {
    assert_eq!(cell_under(0, 59, 5, 4, 6), None);
    assert_eq!(cell_under(0, 0, 5, 4, 6), None);
    assert_eq!(cell_under(30, 60, 5, 4, 6), None);
    assert_eq!(cell_under(0, 80, 5, 4, 6), None);
    assert_eq!(cell_under(u32::MAX, u32::MAX, 5, 4, 6), None);
    assert_eq!(cell_under(3, 63, 0, 4, 6), None);
}

#[test]
fn pointer_buttons_choose_water_sand_and_solid() {
    let mut pointer = pointer_at(0, 0);
    assert_eq!(pointer_brush(&pointer), None);
    pointer.middle = true;
    assert_eq!(pointer_brush(&pointer), Some(Material::solid()));
    pointer.right = true;
    assert_eq!(pointer_brush(&pointer), Some(Material::sand()));
    pointer.left = true;
    assert_eq!(pointer_brush(&pointer), Some(Material::water()));
}

#[test]
fn keys_choose_powder_liquid_gas_and_plasma() {
    let mut keys = no_keys();
    assert_eq!(key_brush(&keys), None);
    keys.plasma = true;
    assert_eq!(key_brush(&keys), Some(Material::plasma()));
    keys.gas = true;
    assert_eq!(key_brush(&keys), Some(Material::gas()));
    keys.liquid = true;
    assert_eq!(key_brush(&keys), Some(Material::liquid()));
    keys.powder = true;
    assert_eq!(key_brush(&keys), Some(Material::powder()));
    keys.reset = true;
    assert_eq!(key_brush(&keys), Some(Material::powder()));
}

#[test]
fn held_button_paints_under_the_pointer() {
    let config = small_config();
    let mut grid = Grid::create(4, 6);
    let mut pointer = pointer_at(12, 71);
    handle_mouse_input(&mut grid, &config, &pointer);
    assert_eq!(grid, Grid::create(4, 6));
    pointer.right = true;
    handle_mouse_input(&mut grid, &config, &pointer);
    let mut expected = Grid::create(4, 6);
    expected.paint(2, 2, Material::sand());
    assert_eq!(grid, expected);
}

#[test]
fn held_button_outside_the_board_paints_nothing() {
    let config = small_config();
    let mut grid = Grid::create(4, 6);
    let mut pointer = pointer_at(705, 75);
    pointer.left = true;
    handle_mouse_input(&mut grid, &config, &pointer);
    pointer.x = 3;
    pointer.y = 20;
    handle_mouse_input(&mut grid, &config, &pointer);
    assert_eq!(grid, Grid::create(4, 6));
}

#[test]
fn held_key_paints_under_the_pointer() {
    let config = small_config();
    let mut grid = Grid::create(4, 6);
    let pointer = pointer_at(29, 60);
    let mut keys = no_keys();
    handle_key_inputs(&mut grid, &config, &keys, &pointer);
    assert_eq!(grid, Grid::create(4, 6));
    keys.gas = true;
    handle_key_inputs(&mut grid, &config, &keys, &pointer);
    assert_eq!(grid.cell_at(0, 5), Cell::fresh(Material::gas()));
}

#[test]
fn reset_key_empties_the_board_before_painting() {
    let config = small_config();
    let mut grid = Grid::create(4, 6);
    grid.paint(3, 3, Material::sand());
    grid.paint(1, 0, Material::water());
    let pointer = pointer_at(0, 60);
    let mut keys = no_keys();
    keys.reset = true;
    keys.plasma = true;
    handle_key_inputs(&mut grid, &config, &keys, &pointer);
    let mut expected = Grid::create(4, 6);
    expected.paint(0, 0, Material::plasma());
    assert_eq!(grid, expected);
}

#[test]
fn clear_button_empties_the_board_on_a_click() {
    let mut grid = Grid::create(2, 2);
    grid.paint(0, 1, Material::sand());
    let before = grid.clone();
    clear_button(&mut grid, false);
    assert_eq!(grid, before);
    clear_button(&mut grid, true);
    assert_eq!(grid, Grid::create(2, 2));
}

#[test]
fn overlay_button_cycles_through_eight_states() {
    let mut state = 0usize;
    grid_button(&mut state, false);
    assert_eq!(state, 0);
    for expected in [1, 2, 3, 4, 5, 6, 7, 0, 1] {
        grid_button(&mut state, true);
        assert_eq!(state, expected);
    }
    let mut odd = 21usize;
    grid_button(&mut odd, true);
    assert_eq!(odd, 6);
    let mut last = usize::MAX;
    grid_button(&mut last, true);
    assert_eq!(last, 0);
}

#[test]
fn overlay_states_draw_the_stated_number_of_lines() {
    assert_eq!(overlay_lines(0), 0);
    assert_eq!(overlay_lines(1), 0);
    assert_eq!(overlay_lines(2), 4);
    assert_eq!(overlay_lines(3), 6);
    assert_eq!(overlay_lines(4), 8);
    assert_eq!(overlay_lines(5), 10);
    assert_eq!(overlay_lines(6), 12);
    assert_eq!(overlay_lines(7), 0);
    assert_eq!(overlay_lines(8), 0);
}

#[test]
fn pause_button_toggles_on_a_click() {
    let mut paused = false;
    start_pause_button(&mut paused, false);
    assert!(!paused);
    start_pause_button(&mut paused, true);
    assert!(paused);
    start_pause_button(&mut paused, false);
    assert!(paused);
    start_pause_button(&mut paused, true);
    assert!(!paused);
}

#[test]
fn erase_button_switches_the_mode_and_erases_while_held() {
    let config = small_config();
    let mut grid = Grid::create(4, 6);
    grid.paint(1, 1, Material::sand());
    grid.paint(2, 2, Material::water());
    let painted = grid.clone();
    let mut erase_mode = false;
    let mut pointer = pointer_at(7, 66);
    pointer.left = true;

    erase_button(&mut grid, &config, &mut erase_mode, false, &pointer);
    assert!(!erase_mode);
    assert_eq!(grid, painted);

    erase_button(&mut grid, &config, &mut erase_mode, true, &pointer);
    assert!(erase_mode);
    assert_eq!(grid.cell_at(1, 1), Cell::empty());
    assert_eq!(grid.cell_at(2, 2), Cell::fresh(Material::water()));

    pointer.left = false;
    pointer.x = 12;
    pointer.y = 72;
    erase_button(&mut grid, &config, &mut erase_mode, false, &pointer);
    assert!(erase_mode);
    assert_eq!(grid.cell_at(2, 2), Cell::fresh(Material::water()));

    pointer.left = true;
    erase_button(&mut grid, &config, &mut erase_mode, true, &pointer);
    assert!(!erase_mode);
    assert_eq!(grid.cell_at(2, 2), Cell::fresh(Material::water()));

    pointer.y = 10;
    erase_button(&mut grid, &config, &mut erase_mode, true, &pointer);
    assert!(erase_mode);
    assert_eq!(grid.cell_at(2, 2), Cell::fresh(Material::water()));
}

#[test]
fn frame_ticks_first_and_paints_afterwards() {
    let config = small_config();
    let mut grid = Grid::create(4, 6);
    grid.paint(0, 0, Material::sand());
    let mut pointer = pointer_at(10, 60);
    pointer.left = true;
    let mut expected = grid.clone();
    update_board(&mut grid, &config, 1_000_000, &pointer);
    tick(&mut expected, &config, 1_000_000);
    expected.paint(0, 2, Material::water());
    assert_eq!(grid, expected);
    assert_eq!(grid.cell_at(0, 2), Cell::fresh(Material::water()));
    assert_eq!(grid.cell_at(3, 0).material, Material::sand());
}

#[test]
fn frame_leaves_a_blocked_powder_above_the_cell_that_blocks_it() {
    let config = small_config();
    let mut sand = Cell::fresh(Material::sand());
    sand.settled = true;
    let mut solid = Cell::empty();
    solid.material = Material::solid();
    solid.settled = true;
    let mut void = Cell::empty();
    void.settled = true;
    let mut grid = Grid::from_cells(3, 1, vec![sand, solid, void]);
    update_board(&mut grid, &config, 1_000_000, &pointer_at(0, 0));
    assert_eq!(grid.cell_at(0, 0).material, Material::sand());
    assert_eq!(grid.cell_at(1, 0).material, Material::solid());
    assert_eq!(grid.cell_at(2, 0).material, Material::void());
}
