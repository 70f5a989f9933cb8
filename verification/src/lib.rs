//! A falling-sand cellular automaton: a 2-D grid of substance cells (air,
//! stone, sand, water) advanced one frame at a time under gravity,
//! density-ordered displacement and lateral flow, and rendered into an
//! RGBA pixel buffer.

pub mod element;
pub mod laws;
pub mod rules;
pub mod world;
