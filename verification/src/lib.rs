//! Core of a heightmap world editor: the discrete parts of terrain synthesis
//! and the bounded undo history of brush strokes.
//!
//! Every field of the world is a dense row-major grid. Elevations and the
//! other continuous quantities are IEEE-754 single-precision numbers carried
//! by their bit patterns (`u32`): this library moves, orders and stores them
//! but never does arithmetic on them.

pub mod biomes;
pub mod brush;
pub mod catchment;
pub mod codec;
pub mod commands;
pub mod config;
pub mod elevation;
pub mod erosion;
pub mod hydrology;
pub mod persistence;
pub mod pipeline;
pub mod rng;
pub mod state;
pub mod sums;
pub mod undo;
pub mod volcanoes;
