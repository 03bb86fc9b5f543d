//! Weather warnings (nowcasts): naming cached alerts and choosing the
//! warnings that concern a place.
pub mod fetch;

pub use fetch::{cap_id_from_link, filter_by_province};
