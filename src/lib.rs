//! Conway's Game of Life on a toroidal grid: the grid model, the life rule,
//! and the interaction state machine that drives editing and running.
pub mod world;
pub mod game;
