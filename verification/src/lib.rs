use vstd::prelude::*;

pub mod cli;
pub mod color;
pub mod constants;
pub mod display;
pub mod format;
pub mod graphs;
pub mod lang;
pub mod sort;
pub mod stats;
pub mod terminal;
pub mod text;
pub mod util;
pub mod weather_core;

verus! {
} // verus!
