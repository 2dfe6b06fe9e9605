//! Two-state cellular automata of the Game-of-Life family on a toroidal grid,
//! with bit-packed cells and dirty-cell tracking.

pub mod bitset;
pub mod dirty;
pub mod engine;
pub mod laws;
pub mod pattern;
pub mod rule;
pub mod torus;
pub mod universe;

pub use dirty::DirtyTracker;
pub use pattern::{PositionSet, GRID_HEIGHT, GRID_WIDTH};
pub use rule::Rule;
pub use universe::{Universe, UniverseError};
