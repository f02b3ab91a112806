//! The simulation engine of a terminal snake game: toroidal grid arithmetic,
//! the segmented body, item placement and the per-tick state transition.

pub mod grid;
mod chance;
pub mod game;
pub mod lemmas;
