//! Core of an interactive Game-of-Life simulator: a fixed-size boolean grid
//! and a double-buffered simulation that applies the classic transition rule.
//!
//! Rendering, windowing and event polling are left to an outside driver; the
//! library exposes the grid, the simulation step, and the pause gate.

pub mod grid;
pub mod laws;
pub mod runs;
pub mod sim;

pub use grid::BoolGrid2D;
pub use sim::Simulation;
