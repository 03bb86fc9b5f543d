//! Terminal layout, colouring and icons.
pub mod colorize;
pub mod icons;
pub mod layout;

pub use colorize::colorize_spark_panel;
pub use icons::format_wind_dir_icon;
pub use layout::render_row;
