//! A verified core for Conway's Game of Life on a square toroidal grid.
//!
//! The library holds the automaton itself: the two-valued cell state, the
//! transition rule, toroidal neighbor counting, and the per-generation
//! update. Rendering and random seeding are left to the embedding program,
//! which hands the grid plain values and reads cells back through accessors.

pub mod cell;
pub mod grid;
