//! Icons shown in the bar and the tooltip.
use vstd::prelude::*;

pub mod ascii;

pub use ascii::get_ascii_icon;

verus! {

/// The placeholder for the weather icon in a custom indicator.
pub const ICON_PLACEHOLDER: &'static str = "{ICON}";

pub const CLOUD_COVER_ICON: &'static str = "\u{2601}\u{fe0f}";

pub const PRECIPITATION_ICON: &'static str = "\u{1f327}\u{fe0f}";

pub const VISIBILITY_ICON: &'static str = "\u{1f441}\u{fe0f}";

pub const ERROR_ICON: &'static str = "\u{26d3}\u{fe0f}";

/// The icon for weather codes that have none of their own.
pub const FALLBACK_ICON: &'static str = "\u{2600}\u{fe0f}";

/// The nerd-font icon for weather codes that have none of their own.
pub const FALLBACK_ICON_NERD: &'static str = "\u{F0319}";

} // verus!
