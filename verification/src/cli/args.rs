//! Options of the program's subcommands.
use vstd::prelude::*;

pub use crate::cli::{ColorMode, OutputFormat};

verus! {

/// Cache lifetime of a forecast, in seconds, when no lifetime is given.
pub const DEFAULT_SERVER_TTL_SECS: u64 = 600;

/// Options of the `server` subcommand.
#[derive(Debug, Clone, PartialEq, Eq)]
pub struct ServerOpts {
    /// Append every fetched forecast to the archive.
    pub archive: bool,
    /// Path of the Unix socket that clients connect to.
    pub socket: Option<String>,
    /// Cache lifetime of a forecast, in minutes.
    pub ttl: Option<u64>,
}

/// The forecast cache lifetime in seconds that server options ask for.
pub open spec fn ttl_secs_spec(ttl: Option<u64>) -> int {
    match ttl {
        Some(m) => m * 60,
        None => DEFAULT_SERVER_TTL_SECS as int,
    }
}

impl ServerOpts {
    /// The forecast cache lifetime in seconds: the given minutes times 60,
    /// or ten minutes when no lifetime is given.
    pub fn ttl_secs(&self) -> (secs: u64)
        requires
            ttl_secs_spec(self.ttl) <= u64::MAX,
        ensures
            secs == ttl_secs_spec(self.ttl),
    {
        match self.ttl {
            Some(m) => m * 60,
            None => DEFAULT_SERVER_TTL_SECS,
        }
    }
}

} // verus!
