//! Game-state simulation for a terminal snake game: the snake's movement
//! model, growth and collision rules, fruit placement and consumption, menu
//! selection state, and the interpretation of the game's settings strings.
//!
//! Rendering, keyboard polling and frame pacing live outside this crate; they
//! exchange plain values (positions, directions, key events) with it.

pub mod interface;
pub mod mechanics;
pub mod settings;
