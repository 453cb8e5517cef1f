//! A styled cell-grid model and attribute-run rendering pipeline for a
//! terminal display.
//!
//! The crate holds the logic that sits between a terminal-state engine and a
//! GUI framework: a bounded two-dimensional buffer of character+format cells
//! with bounds-checked mutation and line-scroll recycling, a coalescer that
//! turns a screen of per-cell styling into a minimal ordered sequence of
//! styled text runs, a pixel-to-cell resize negotiator, and the closed
//! key-code and color-attribute mappings the engine boundary needs.

pub mod coalesce;
pub mod keys;
pub mod resize;
pub mod style;
pub mod text_grid;
