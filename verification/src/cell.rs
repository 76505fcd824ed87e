//! The two-valued cell state and the Game of Life transition rule.

use vstd::prelude::*;

verus! {

/// A cell is either dead or alive; it is a plain value with no identity,
/// copied freely.
#[derive(Clone, Copy, Debug, PartialEq, Eq, Structural)]
pub enum Cell {
    Dead,
    Alive,
}

/// The contribution of one cell to a neighbor count: 1 when alive, 0 when dead.
pub open spec fn live_weight(cell: Cell) -> int {
    if cell is Alive {
        1
    } else {
        0
    }
}

/// The Game of Life rule as a truth table over the previous generation:
/// a live cell survives exactly with two or three live neighbors
/// (underpopulation below two, overpopulation above three), and a dead cell
/// becomes alive exactly with three (reproduction); every other cell keeps
/// its state.
pub open spec fn spec_next_state(current: Cell, live_neighbors: int) -> Cell {
    match current {
        Cell::Alive => if live_neighbors == 2 || live_neighbors == 3 {
            Cell::Alive
        } else {
            Cell::Dead
        },
        Cell::Dead => if live_neighbors == 3 {
            Cell::Alive
        } else {
            Cell::Dead
        },
    }
}

impl Cell {
    /// Applies the transition rule to this cell given the number of live
    /// neighbors in the previous generation. Total: defined for every count,
    /// though a cell of a grid only ever has between 0 and 8 live neighbors.
    pub fn next_state(&self, live_neighbors: u32) -> (next: Cell)
        ensures
            next == spec_next_state(*self, live_neighbors as int),
    {
        match *self {
            Cell::Alive => if live_neighbors == 2 || live_neighbors == 3 {
                Cell::Alive
            } else {
                Cell::Dead
            },
            Cell::Dead => if live_neighbors == 3 {
                Cell::Alive
            } else {
                Cell::Dead
            },
        }
    }

    /// True exactly when this cell is alive.
    pub fn is_alive(&self) -> (alive: bool)
        ensures
            alive == (*self is Alive),
    {
        match *self {
            Cell::Alive => true,
            Cell::Dead => false,
        }
    }
}

} // verus!
