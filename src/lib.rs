//! Conway's Game of Life on a toroidal grid: the transition rule, the
//! wrap-around neighbourhood, and detection of period-1 and period-2 cycles.

pub mod rules;
pub mod grid;
pub mod history;
pub mod laws;
