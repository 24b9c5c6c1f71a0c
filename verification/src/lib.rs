//! A Conway's Game of Life engine on a toroidal grid.
//!
//! The universe is a bit-packed grid of `width * height` cells addressed in
//! row-major order. Neighbors wrap around the edges, so every cell has exactly
//! eight neighbors. Each generation applies the classic transition rule to a
//! frozen snapshot of the grid and atomically replaces it with the result.
//! Editing operations (toggling, bulk seeding, stencil insertion, resizing)
//! mutate the grid in place between generations.

/// Trusted bindings to the bit-packed storage and the randomness source.
pub mod bits;
/// The mathematical model of the grid: indexing, neighbor counting, the rule.
pub mod grid;
/// Laws relating the grid model's operations, proved once for all grids.
pub mod laws;
/// The named stencil patterns: the glider and the pulsar.
pub mod patterns;
/// The automaton engine: the `Universe` type and its operations.
pub mod universe;

pub use grid::next_cell_state;
pub use universe::StartState;
pub use universe::Universe;
