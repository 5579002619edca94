//! Input dispatch, noise-grid generation and tile coloring for an
//! interactive noise visualizer.
pub mod color;
pub mod generation;
pub mod input;
