//! Rendering of the forecast for a terminal.
pub mod terminal;
