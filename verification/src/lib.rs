//! A Monte Carlo Tree Search engine for turn-based board games, with the
//! search tree, its statistics and the user-interface state machines
//! verified.
use vstd::prelude::*;

pub mod tree;
pub mod engine;
pub mod gui;
pub mod text;
pub mod layout;
pub mod blokus_ui;
pub mod game;
pub mod mouse;
pub mod renderers;
pub mod rng;
pub mod othello;
pub mod ranking;
pub mod cells;
pub mod worker;
pub mod config;
pub mod shape;
pub mod laws;

verus! {
} // verus!
