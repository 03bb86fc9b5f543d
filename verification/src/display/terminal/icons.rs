//! Icons of the terminal display.
use vstd::prelude::*;
use crate::format::{wind_arrow, wind_sector};

verus! {

/// The emoji arrow pointing where the wind blows from `degrees`.
pub fn format_wind_dir_icon(degrees: i64) -> (icon: &'static str)
    ensures
        icon@ == wind_arrow(wind_sector(degrees as int)),
{
    crate::format::format_wind_dir_icon(degrees, false)
}

} // verus!
