//! Constants of the forecast display.
use vstd::prelude::*;

pub mod ascii;

pub use ascii::get_ascii_icon;

verus! {

/// The placeholder for the weather icon in a custom indicator.
pub const ICON_PLACEHOLDER: &'static str = "{ICON}";

} // verus!
