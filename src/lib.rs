//! A Game of Life engine on a toroidal grid, driven one generation at a time.
//!
//! `cell` holds the cell states and errors, `board` the grid with its
//! neighbour counting, generation step and pattern seeding, and `life` the
//! engine that owns one grid and guards its creation and use.
pub mod board;
pub mod cell;
pub mod life;
