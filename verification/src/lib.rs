//! Rule engine for a two-player naval combat game on a 10x10 grid.
//!
//! Each player secretly places a fleet of five ships on their own grid,
//! then the players alternate firing at single cells of the opponent's
//! grid until one fleet is entirely sunk.  This crate holds the game-state
//! model: cell addressing, ship geometry and placement validation, the
//! per-board shot ledger, hit/miss/sink resolution, and the win condition.
//! Rendering, input handling and transport belong to the callers.

pub mod board;
pub mod cell;
pub mod error;
pub mod game;
pub mod ship;
