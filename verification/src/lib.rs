//! A falling-sand particle engine on a fixed grid, verified with Verus.
//!
//! Every cell of the grid holds one material. On each tick the cells are
//! visited row by row, and a powder or liquid that has gathered enough downward
//! velocity changes places with lighter cells below it in its column.
//!
//! All physical quantities are fixed-point integers. Masses and the other
//! material properties count thousandths, elapsed time counts microseconds,
//! and a velocity counts [`grid::UNITS_PER_CELL`]-ths of a cell, so that
//! `mass * gravity * dt` is a velocity with no rounding.

pub mod controls;
pub mod engine;
pub mod grid;
pub mod laws;
pub mod material;
