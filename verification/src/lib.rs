//! A discrete-time artificial-life engine on a bounded two-dimensional grid.
//!
//! Every cell of the grid may hold a creature and a sample of a diffusible
//! substance. One tick first lets the substances decay and diffuse, then
//! resolves every creature once, in row-major order. All randomness comes from
//! a seeded generator owned by the engine, so a run is a function of its seed
//! and its initial grid.
//!
//! Quantities that are fractions (amounts, probabilities, rates) are held in
//! fixed point, in millionths: see [`cell::AMOUNT_ONE`].

pub mod random;
pub mod cell;
pub mod grid;
pub mod render;
pub mod rules;
pub mod sums;
pub mod field;
pub mod occupant;
pub mod engine;
pub mod control;
pub mod report;
