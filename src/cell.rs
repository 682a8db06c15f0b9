//! The state of a single cell, and the errors of the engine.
use vstd::prelude::*;

verus! {

/// The state of one cell of the grid.
///
/// `Alive` and `Dead` are the steady states. The two `Calculating` states hold a
/// snapshot of the neighbour count and exist only while a generation is advanced.
#[derive(Debug, Clone, Copy, PartialEq, Eq, Structural)]
pub enum CellState {
    Alive,
    Dead,
    AliveCalculating(usize),
    DeadCalculating(usize),
}

/// The ways an operation on the engine can fail.
#[derive(Debug, Clone, Copy, PartialEq, Eq, Structural)]
pub enum GridError {
    /// The grid was used before it was created.
    NotInitialized,
    /// The grid was created a second time.
    AlreadyInitialized,
    /// A coordinate lies outside the grid.
    OutOfBounds,
    /// A previous failed operation left the grid in a broken state.
    StateCorrupted,
    /// A generation was started while a cell was already in a transient state.
    ConcurrentAdvance,
    /// The resolving phase of a generation met a cell that was not snapshotted.
    PhaseMismatch,
}

impl CellState {
    /// Whether the cell counts as alive for its neighbours: a transient cell
    /// gives the same signal as the steady state it came from.
    pub open spec fn counts_alive(self) -> bool {
        self is Alive || self is AliveCalculating
    }

    /// Whether the cell is in one of the two steady states.
    pub open spec fn is_steady(self) -> bool {
        self is Alive || self is Dead
    }

    pub fn counts_as_alive(&self) -> (r: bool)
        ensures
            r == self.counts_alive(),
    {
        match self {
            CellState::Alive | CellState::AliveCalculating(_) => true,
            _ => false,
        }
    }

    pub fn is_alive(&self) -> (r: bool)
        ensures
            r == (*self is Alive),
    {
        match self {
            CellState::Alive => true,
            _ => false,
        }
    }
}

/// The steady state that a pattern entry stands for: zero is dead, anything else alive.
pub open spec fn cell_of(value: i32) -> CellState {
    if value == 0 {
        CellState::Dead
    } else {
        CellState::Alive
    }
}

impl From<i32> for CellState {
    fn from(value: i32) -> (r: CellState)
        ensures
            r == cell_of(value),
    {
        match value {
            0 => CellState::Dead,
            _ => CellState::Alive,
        }
    }
}

impl vstd::std_specs::convert::FromSpecImpl<i32> for CellState {
    open spec fn obeys_from_spec() -> bool {
        true
    }

    open spec fn from_spec(v: i32) -> CellState {
        cell_of(v)
    }
}

} // verus!
