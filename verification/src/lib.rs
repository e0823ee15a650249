//! Core of a terminal puzzle game crossing Minesweeper with an RPG battle
//! mechanic: revealed cells show the summed level of adjacent monsters, the
//! grid wraps around toroidally, and stepping on a monster starts an
//! alternating-turn battle decided by level comparison.
//!
//! The crate holds the verified game logic: board generation, toroidal
//! adjacency, flood reveal, and the battle / progression state machine.
//! Terminal rendering and input decoding live outside it.

pub mod cell;
pub mod coords;
pub mod board;
pub mod battle;
pub mod game;
