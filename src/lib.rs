//! A cellular automaton on a fixed rectangular grid, with a precomputed
//! neighbour table per cell, and the decisions of the loop that steps it.

pub mod cell;
pub mod event_loop;
