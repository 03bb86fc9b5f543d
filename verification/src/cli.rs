//! Command-line option values shared by the library and the program.
use vstd::prelude::*;

pub mod args;
pub mod run;

verus! {

/// How the program prints its result.
#[derive(Debug, Clone, Copy, PartialEq, Eq, Structural)]
pub enum OutputFormat {
    /// Waybar JSON.
    Bar,
    /// Terminal display.
    Text,
    /// Raw forecast JSON.
    Json,
}

/// When ANSI colour is used.
#[derive(Debug, Clone, Copy, PartialEq, Eq, Structural)]
pub enum ColorMode {
    Auto,
    Always,
    Never,
}

} // verus!
