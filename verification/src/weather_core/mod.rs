//! Weather logic independent of the command line and the terminal.
pub mod constants;
pub mod error;
pub mod graphs;
pub mod location;
pub mod location_remote;
pub mod warnings;
pub mod weather;
