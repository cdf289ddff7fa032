//! A verified tic-tac-toe rule and decision engine for a 3x3 board.
//!
//! The crate holds the game's logic: the board state, the win/threat
//! rules, the computer opponent's move policy, and the turn-sequencing
//! state machine. Console input and output live outside the crate; they
//! hand validated choices in and take board snapshots out.

pub mod board;
pub mod controller;
pub mod rules;
pub mod selector;
