use particle_sim::engine::{solve_particle, tick, Config, GRAVITY};
use particle_sim::grid::{Cell, Grid, Velocity, UNITS_PER_CELL};
use particle_sim::material::{Material, Phase, Tint};

const FRAME: u32 = 16_667;

fn heavy_powder() -> Material {
    Material {
        mass: 2000,
        coarseness: 1000,
        hardness: 5,
        viscosity: 0,
        phase: Phase::Powder { coarseness: 1000 },
        flammability: 0,
        tint: Tint::Red,
    }
}

fn column_materials(grid: &Grid, col: usize) -> Vec<Material> {
    (0..grid.rows()).map(|row| grid.cell_at(row, col).material).collect()
}

fn count(materials: &[Material], wanted: Material) -> usize {
    materials.iter().filter(|m| **m == wanted).count()
}

#[test]
fn one_tick_adds_mass_times_gravity_times_time() {
    let config = Config::standard();
    let mut grid = Grid::create(5, 1);
    grid.paint(0, 0, Material::sand());
    tick(&mut grid, &config, FRAME);
    let cell = grid.cell_at(0, 0);
    assert_eq!(cell.material, Material::sand());
    assert_eq!(cell.velocity.y, 1_000_000_000_000 + 1682 * 9810 * 16_667);
    assert_eq!(cell.velocity.y, 1_275_012_500_140);
    assert_eq!(cell.velocity.x, 0);
    assert!(cell.settled);
}

#[test]
fn particle_in_a_column_reaches_the_floor_and_stays() {
    let config = Config::standard();
    let mut grid = Grid::create(5, 1);
    grid.paint(0, 0, heavy_powder());
    for _ in 0..3 {
        tick(&mut grid, &config, FRAME);
        assert_eq!(grid.cell_at(0, 0).material, heavy_powder());
    }
    assert_eq!(grid.cell_at(0, 0).velocity.y, 1_000_000_000_000 + 3 * 327_006_540_000);
    tick(&mut grid, &config, FRAME);
    for row in 0..4 {
        assert_eq!(grid.cell_at(row, 0).material, Material::void());
    }
    let landed = grid.cell_at(4, 0);
    assert_eq!(landed.material, heavy_powder());
    assert_eq!(landed.velocity.y, 0);
    assert!(landed.settled);
    for _ in 0..500 {
        tick(&mut grid, &config, FRAME);
        assert_eq!(grid.cell_at(4, 0).material, heavy_powder());
        for row in 0..4 {
            assert_eq!(grid.cell_at(row, 0).material, Material::void());
        }
    }
}

#[test]
fn heavier_material_swaps_with_lighter_one_below() {
    let config = Config::standard();
    let mut grid = Grid::create(2, 1);
    grid.paint(0, 0, Material::sand());
    grid.paint(1, 0, Material::water());
    tick(&mut grid, &config, 1_000_000);
    let top = grid.cell_at(0, 0);
    let bottom = grid.cell_at(1, 0);
    assert_eq!(top.material, Material::water());
    assert_eq!(bottom.material, Material::sand());
    assert_eq!(top.velocity.y, UNITS_PER_CELL);
    assert_eq!(bottom.velocity.y, 0);
    assert!(top.settled);
    assert!(bottom.settled);
}

#[test]
fn heavier_material_ends_below_lighter_one_in_a_tall_column() {
    let config = Config::standard();
    let mut grid = Grid::create(3, 1);
    grid.paint(0, 0, Material::sand());
    grid.paint(1, 0, Material::water());
    tick(&mut grid, &config, 1_000_000);
    assert_eq!(
        column_materials(&grid, 0),
        vec![Material::void(), Material::water(), Material::sand()]
    );
}

#[test]
fn lighter_material_above_heavier_one_does_not_swap() {
    let config = Config::standard();
    let mut grid = Grid::create(2, 1);
    grid.paint(0, 0, Material::water());
    grid.paint(1, 0, Material::sand());
    for _ in 0..50 {
        tick(&mut grid, &config, 1_000_000);
        assert_eq!(column_materials(&grid, 0), vec![Material::water(), Material::sand()]);
    }
}

#[test]
fn equal_masses_do_not_swap() {
    let config = Config::standard();
    let mut grid = Grid::create(2, 1);
    grid.paint(0, 0, Material::sand());
    grid.paint(1, 0, Material::powder());
    for _ in 0..50 {
        tick(&mut grid, &config, 1_000_000);
        assert_eq!(column_materials(&grid, 0), vec![Material::sand(), Material::powder()]);
    }
}

#[test]
fn sand_sinks_through_water_after_enough_small_ticks() {
    let config = Config::standard();
    let mut grid = Grid::create(6, 1);
    grid.paint(0, 0, Material::sand());
    grid.paint(1, 0, Material::water());
    let mut ticks = 0;
    while grid.cell_at(0, 0).material == Material::sand() {
        tick(&mut grid, &config, FRAME);
        ticks += 1;
        assert!(ticks <= 4);
    }
    assert_eq!(ticks, 4);
    let materials = column_materials(&grid, 0);
    let sand_row = materials.iter().position(|m| *m == Material::sand()).unwrap();
    assert!(sand_row >= 1);
    assert!(grid.cell_at(0, 0).material.mass < Material::sand().mass);
    for _ in 0..200 {
        tick(&mut grid, &config, FRAME);
    }
    let settled = column_materials(&grid, 0);
    assert_eq!(settled[5], Material::sand());
    assert_eq!(settled[4], Material::water());
}

#[test]
fn no_particle_leaves_its_column() {
    let config = Config::standard();
    let mut grid = Grid::create(7, 3);
    grid.paint(0, 0, Material::sand());
    grid.paint(1, 0, Material::water());
    grid.paint(3, 0, Material::solid());
    grid.paint(0, 1, Material::liquid());
    grid.paint(2, 1, Material::gas());
    grid.paint(4, 1, heavy_powder());
    grid.paint(6, 2, Material::plasma());
    let before: Vec<Vec<Material>> = (0..3).map(|col| column_materials(&grid, col)).collect();
    let all = [
        Material::void(),
        Material::water(),
        Material::sand(),
        Material::solid(),
        Material::liquid(),
        Material::gas(),
        Material::plasma(),
        heavy_powder(),
    ];
    for step in 0..300u32 {
        tick(&mut grid, &config, 1000 + 977 * step);
        assert_eq!(grid.rows(), 7);
        assert_eq!(grid.cols(), 3);
        for col in 0..3 {
            let now = column_materials(&grid, col);
            assert_eq!(now.len(), 7);
            for wanted in all {
                assert_eq!(count(&now, wanted), count(&before[col], wanted));
            }
        }
    }
}

#[test]
fn solid_keeps_its_place_under_catalog_materials() {
    let config = Config::standard();
    let mut grid = Grid::create(6, 2);
    grid.paint(0, 0, Material::sand());
    grid.paint(1, 0, Material::water());
    grid.paint(2, 0, Material::solid());
    grid.paint(4, 0, Material::water());
    grid.paint(3, 1, Material::solid());
    for step in 0..400u32 {
        tick(&mut grid, &config, 500 * step);
        let first = grid.cell_at(2, 0);
        assert_eq!(first.material, Material::solid());
        assert_eq!(first.velocity, Velocity { x: 0, y: UNITS_PER_CELL });
        assert!(!first.settled);
        assert_eq!(grid.cell_at(3, 1).material, Material::solid());
    }
}

#[test]
fn solid_gives_way_to_a_heavier_powder_above_it() {
    let config = Config::standard();
    let mut grid = Grid::create(2, 1);
    grid.paint(0, 0, heavy_powder());
    grid.paint(1, 0, Material::solid());
    tick(&mut grid, &config, 1_000_000);
    assert_eq!(column_materials(&grid, 0), vec![Material::solid(), heavy_powder()]);
}

#[test]
fn gas_plasma_solid_and_void_are_left_as_they_are() {
    let config = Config::standard();
    let mut grid = Grid::create(4, 4);
    grid.paint(0, 0, Material::gas());
    grid.paint(0, 1, Material::plasma());
    grid.paint(0, 2, Material::solid());
    for _ in 0..20 {
        tick(&mut grid, &config, 1_000_000);
    }
    assert_eq!(grid.cell_at(0, 0), Cell::fresh(Material::gas()));
    assert_eq!(grid.cell_at(0, 1), Cell::fresh(Material::plasma()));
    assert_eq!(grid.cell_at(0, 2), Cell::fresh(Material::solid()));
    for row in 0..4 {
        assert_eq!(grid.cell_at(row, 3), Cell::empty());
    }
}

#[test]
fn stable_grid_keeps_materials_and_flags_from_tick_to_tick() {
    let config = Config::standard();
    let mut grid = Grid::create(4, 2);
    grid.paint(1, 0, Material::water());
    grid.paint(2, 0, Material::sand());
    grid.paint(3, 0, Material::solid());
    grid.paint(0, 1, Material::solid());
    grid.paint(3, 1, Material::sand());
    let layout = |grid: &Grid| -> Vec<(Material, bool)> {
        let mut cells = Vec::new();
        for col in 0..grid.cols() {
            for row in 0..grid.rows() {
                let cell = grid.cell_at(row, col);
                cells.push((cell.material, cell.settled));
            }
        }
        cells
    };
    let start: Vec<Material> = layout(&grid).iter().map(|(m, _)| *m).collect();
    tick(&mut grid, &config, FRAME);
    let once = layout(&grid);
    tick(&mut grid, &config, 3 * FRAME);
    let twice = layout(&grid);
    assert_eq!(once, twice);
    assert_eq!(once.iter().map(|(m, _)| *m).collect::<Vec<Material>>(), start);
    for (material, settled) in once {
        let falls = matches!(material.phase, Phase::Powder { .. } | Phase::Liquid { .. });
        assert_eq!(settled, falls);
    }
}

#[test]
fn zero_elapsed_time_changes_no_velocity() {
    let config = Config::standard();
    let mut grid = Grid::create(3, 1);
    grid.paint(1, 0, Material::sand());
    tick(&mut grid, &config, 0);
    let cell = grid.cell_at(1, 0);
    assert_eq!(cell.material, Material::sand());
    assert_eq!(cell.velocity.y, UNITS_PER_CELL);
    assert!(cell.settled);
}

#[test]
fn blocked_powder_keeps_its_velocity_and_the_bottom_row_is_slowed() {
    let config = Config::standard();
    let mut grid = Grid::create(4, 1);
    grid.paint(1, 0, Material::sand());
    grid.paint(2, 0, Material::powder());
    grid.paint(3, 0, Material::powder());
    tick(&mut grid, &config, 1_000_000);
    assert_eq!(grid.cell_at(1, 0).velocity.y, 17_500_420_000_000);
    assert_eq!(grid.cell_at(2, 0).velocity.y, 17_500_420_000_000);
    assert_eq!(grid.cell_at(3, 0).velocity.y, 0);
    tick(&mut grid, &config, 1_000_000);
    assert_eq!(grid.cell_at(1, 0).velocity.y, 34_000_840_000_000);
    assert_eq!(grid.cell_at(3, 0).velocity.y, 0);
    assert_eq!(
        column_materials(&grid, 0),
        vec![Material::void(), Material::sand(), Material::powder(), Material::powder()]
    );
}

#[test]
fn cell_carried_up_by_a_fall_to_the_floor_gets_its_distance_from_the_bottom() {
    let mut sand = Cell::fresh(Material::sand());
    sand.velocity.y = 9 * UNITS_PER_CELL;
    let mut grid = Grid::from_cells(
        4,
        1,
        vec![Cell::empty(), sand, Cell::fresh(Material::water()), Cell::empty()],
    );
    solve_particle(&mut grid, 1, 0, GRAVITY, 0);
    assert_eq!(
        column_materials(&grid, 0),
        vec![Material::void(), Material::void(), Material::sand(), Material::water()]
    );
    assert_eq!(grid.cell_at(1, 0).velocity.y, 2 * UNITS_PER_CELL);
    assert!(grid.cell_at(1, 0).settled);
    assert_eq!(grid.cell_at(2, 0).velocity.y, 9 * UNITS_PER_CELL);
    assert_eq!(grid.cell_at(3, 0).velocity.y, UNITS_PER_CELL);
}

#[test]
fn blocked_powder_does_not_jump_over_the_cell_below() {
    let config = Config::standard();
    let mut sand = Cell::fresh(Material::sand());
    sand.settled = true;
    let mut solid = Cell::empty();
    solid.material = Material::solid();
    solid.settled = true;
    let mut void = Cell::empty();
    void.settled = true;
    let mut grid = Grid::from_cells(3, 1, vec![sand, solid, void]);
    tick(&mut grid, &config, 1_000_000);
    assert_eq!(
        column_materials(&grid, 0),
        vec![Material::sand(), Material::solid(), Material::void()]
    );
    assert_eq!(grid.cell_at(0, 0).velocity.y, 17_500_420_000_000);
    for _ in 0..50 {
        tick(&mut grid, &config, 1_000_000);
        assert_eq!(
            column_materials(&grid, 0),
            vec![Material::sand(), Material::solid(), Material::void()]
        );
    }
}

#[test]
fn blocked_velocity_stops_at_the_largest_value() {
    let config = Config { row_count: 2, col_count: 1, cell_size: 5, gravity: u32::MAX };
    let mut grid = Grid::create(2, 1);
    grid.paint(0, 0, Material::sand());
    grid.paint(1, 0, Material::powder());
    tick(&mut grid, &config, u32::MAX);
    assert_eq!(grid.cell_at(0, 0).velocity.y, u64::MAX);
    tick(&mut grid, &config, u32::MAX);
    assert_eq!(grid.cell_at(0, 0).velocity.y, u64::MAX);
    assert_eq!(column_materials(&grid, 0), vec![Material::sand(), Material::powder()]);
}

#[test]
fn sand_under_water_sinks_into_the_void_below() {
    let config = Config::standard();
    let mut grid = Grid::create(3, 1);
    grid.paint(0, 0, Material::water());
    grid.paint(1, 0, Material::sand());
    let mut ticks: u32 = 0;
    while grid.cell_at(1, 0).material == Material::sand() {
        tick(&mut grid, &config, 10_000 + 7_000 * (ticks % 3));
        ticks += 1;
        assert!(ticks <= 10);
    }
    assert!(grid.cell_at(1, 0).material.mass < Material::sand().mass);
    assert_eq!(grid.cell_at(2, 0).material, Material::sand());
}

#[test]
fn velocity_stops_at_the_largest_value() {
    let mut grid = Grid::create(2, 1);
    grid.paint(0, 0, Material::sand());
    solve_particle(&mut grid, 0, 0, u32::MAX, u32::MAX);
    let moved = grid.cell_at(1, 0);
    assert_eq!(moved.material, Material::sand());
    assert_eq!(moved.velocity.y, u64::MAX);
    assert!(!moved.settled);
    let left = grid.cell_at(0, 0);
    assert_eq!(left.material, Material::void());
    assert_eq!(left.velocity.y, UNITS_PER_CELL);
    assert!(left.settled);
}

#[test]
fn visiting_one_cell_touches_only_its_column() {
    let mut grid = Grid::create(3, 3);
    grid.paint(0, 0, Material::sand());
    grid.paint(0, 1, Material::sand());
    grid.paint(0, 2, Material::water());
    let mut expected = grid.clone();
    solve_particle(&mut grid, 0, 1, GRAVITY, 1_000_000);
    assert_eq!(grid.cell_at(0, 0), expected.cell_at(0, 0));
    assert_eq!(grid.cell_at(0, 2), expected.cell_at(0, 2));
    assert_eq!(grid.cell_at(1, 1).material, Material::sand());
    assert_eq!(grid.cell_at(0, 1).material, Material::void());
    solve_particle(&mut expected, 0, 1, GRAVITY, 1_000_000);
    assert_eq!(grid, expected);
}

#[test]
fn visiting_a_solid_changes_nothing() {
    let mut grid = Grid::create(3, 1);
    grid.paint(0, 0, Material::solid());
    let before = grid.clone();
    solve_particle(&mut grid, 0, 0, GRAVITY, 1_000_000);
    assert_eq!(grid, before);
}

#[test]
fn freshly_painted_particle_does_not_fall_in_a_short_first_tick() {
    let config = Config::standard();
    let mut grid = Grid::create(3, 1);
    grid.paint(0, 0, Material::water());
    tick(&mut grid, &config, FRAME);
    assert_eq!(grid.cell_at(0, 0).material, Material::water());
    assert_eq!(grid.cell_at(0, 0).velocity.y, UNITS_PER_CELL + 1000 * 9810 * 16_667);
}

#[test]
fn standard_config_has_the_usual_constants() {
    let config = Config::standard();
    assert_eq!(config.row_count, 100);
    assert_eq!(config.col_count, 140);
    assert_eq!(config.cell_size, 5);
    assert_eq!(config.gravity, 9810);
    assert_eq!(GRAVITY, 9810);
}

/// One column of the board under one tick, written out once more on plain
/// vectors, column by column.
fn model_column(column: &mut Vec<Cell>, gravity: u32, dt: u32) {
    let rows = column.len();
    for cell in column.iter_mut() {
        cell.settled = false;
    }
    for row in 0..rows {
        if !matches!(column[row].material.phase, Phase::Powder { .. } | Phase::Liquid { .. }) {
            continue;
        }
        let push = column[row].material.mass as u128 * gravity as u128 * dt as u128;
        let sum = column[row].velocity.y as u128 + push;
        column[row].velocity.y = if sum > u64::MAX as u128 { u64::MAX } else { sum as u64 };
        let reach = column[row].velocity.y / UNITS_PER_CELL;
        let mut step: u64 = 0;
        while step < reach {
            let target = row as u64 + step;
            if target >= rows as u64 {
                column[row].velocity.y = (rows - 1 - row) as u64 * UNITS_PER_CELL;
                break;
            }
            let target = target as usize;
            if step > 0 {
                let heavier = column[row].material.mass > column[target].material.mass;
                if !(heavier && !column[row].settled) {
                    break;
                }
                column.swap(row, target);
                column[target].settled = false;
            }
            step += 1;
        }
        column[row].settled = true;
    }
}

#[test]
fn tick_agrees_with_a_column_by_column_model() {
    let config = Config::standard();
    let palette = [
        Material::void(),
        Material::void(),
        Material::void(),
        Material::water(),
        Material::sand(),
        Material::solid(),
        Material::powder(),
        Material::liquid(),
        Material::gas(),
        Material::plasma(),
        heavy_powder(),
    ];
    let rows = 12;
    let cols = 9;
    let mut grid = Grid::create(rows, cols);
    let mut seed: u64 = 0x2545_f491_4f6c_dd1d;
    let mut next = move || {
        seed = seed.wrapping_mul(6364136223846793005).wrapping_add(1442695040888963407);
        (seed >> 33) as usize
    };
    for row in 0..rows {
        for col in 0..cols {
            let material = palette[next() % palette.len()];
            if material != Material::void() {
                grid.paint(row, col, material);
            }
        }
    }
    let mut model: Vec<Vec<Cell>> = (0..cols)
        .map(|col| (0..rows).map(|row| grid.cell_at(row, col)).collect())
        .collect();
    for _ in 0..120 {
        let dt = (next() % 400_000) as u32;
        tick(&mut grid, &config, dt);
        for column in model.iter_mut() {
            model_column(column, config.gravity, dt);
        }
        for col in 0..cols {
            for row in 0..rows {
                assert_eq!(grid.cell_at(row, col), model[col][row]);
            }
        }
    }
}

#[test]
fn tick_without_elapsed_time_leaves_a_settled_grid_as_it_is() {
    let config = Config::standard();
    let mut grid = Grid::create(4, 2);
    grid.paint(1, 0, Material::water());
    grid.paint(2, 0, Material::sand());
    grid.paint(3, 0, Material::solid());
    grid.paint(3, 1, Material::sand());
    tick(&mut grid, &config, 2_000_000);
    let once = grid.clone();
    tick(&mut grid, &config, 0);
    assert_eq!(grid, once);
    tick(&mut grid, &config, FRAME);
    assert_ne!(grid, once);
}

#[test]
fn settled_cell_displaces_nothing_until_a_tick_rouses_it() {
    let config = Config::standard();
    let mut sand = Cell::fresh(Material::sand());
    sand.settled = true;
    sand.velocity.y = 5 * UNITS_PER_CELL;
    let mut grid = Grid::from_cells(2, 1, vec![sand, Cell::empty()]);
    solve_particle(&mut grid, 0, 0, GRAVITY, 0);
    let kept = grid.cell_at(0, 0);
    assert_eq!(kept.material, Material::sand());
    assert_eq!(kept.velocity.y, 5 * UNITS_PER_CELL);
    assert!(kept.settled);
    assert_eq!(grid.cell_at(1, 0), Cell::empty());

    let mut roused = Grid::from_cells(2, 1, vec![sand, Cell::empty()]);
    tick(&mut roused, &config, 0);
    assert_eq!(roused.cell_at(0, 0).material, Material::void());
    assert_eq!(roused.cell_at(1, 0).material, Material::sand());
}

#[test]
fn displaced_cell_can_be_carried_further_down() {
    let mut sand = Cell::fresh(Material::sand());
    sand.velocity.y = 3 * UNITS_PER_CELL;
    let water = Cell::fresh(Material::water());
    let mut grid = Grid::from_cells(4, 1, vec![sand, water, Cell::empty(), Cell::empty()]);
    solve_particle(&mut grid, 0, 0, GRAVITY, 0);
    assert_eq!(
        column_materials(&grid, 0),
        vec![Material::void(), Material::sand(), Material::water(), Material::void()]
    );
    assert!(grid.cell_at(0, 0).settled);
    assert!(!grid.cell_at(1, 0).settled);
    assert!(!grid.cell_at(2, 0).settled);
    assert_eq!(grid.cell_at(1, 0).velocity.y, 3 * UNITS_PER_CELL);
}
