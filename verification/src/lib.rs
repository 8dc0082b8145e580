//! A falling-sand cellular automaton: a grid of coloured grains that fall and
//! slide under gravity, a brush that deposits them, and the colour wheel that
//! paints them.

pub mod cadence;
pub mod color;
pub mod grid;
pub mod laws;
mod random;
pub mod rule;
pub mod simulation;
