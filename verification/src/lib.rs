//! An interactive Game of Life sandbox: a rectangular grid of cells evolving
//! under Conway's rules, together with the state machine that drives sizing,
//! drawing and simulating it.

pub mod cell;
pub mod session;
pub mod world;
