//! A Langton's Ant cellular automaton on a toroidal grid.
//!
//! One or more ants walk a bounded grid whose edges wrap around. Each
//! discrete step an ant flips the colour of the cell it stands on, turns
//! right on a black cell and left on a white one, and moves one cell
//! forward. The grid of black cells, the step rule, and the character
//! rendering of a frame are verified; terminal output lives outside the
//! library.

pub mod ant;
pub mod grid;
pub mod render;
pub mod world;
