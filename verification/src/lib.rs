//! A verified core for Conway's Game of Life: a bounded grid of
//! alive/dead cells advanced in discrete generations by the standard
//! survival/birth rule, on a wall-clock-gated cadence.
//!
//! The crate covers the grid data model, the per-generation
//! snapshot/rule-evaluation pipeline, and the tick scheduler. Rendering,
//! window handling and configuration-file parsing are collaborators
//! outside this core; they exchange plain values with it.

pub mod config;
pub mod grid;
pub mod random;
pub mod rules;
pub mod scheduler;
pub mod snapshot;
