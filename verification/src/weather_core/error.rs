//! Errors of the library.
use vstd::prelude::*;
use crate::text::{owned, push_str};

verus! {

/// What went wrong. Each variant carries its message.
#[derive(Debug, Clone, PartialEq, Eq)]
pub enum CuacaError {
    Location(String),
    Network(String),
    Parse(String),
    Cache(String),
    Config(String),
    Data(String),
    Unknown(String),
}

/// The heading of each kind of error.
pub open spec fn error_heading(e: CuacaError) -> Seq<char> {
    match e {
        CuacaError::Location(_) => "Location error: "@,
        CuacaError::Network(_) => "Network error: "@,
        CuacaError::Parse(_) => "Parse error: "@,
        CuacaError::Cache(_) => "Cache I/O error: "@,
        CuacaError::Config(_) => "Configuration error: "@,
        CuacaError::Data(_) => "Data error: "@,
        CuacaError::Unknown(_) => "Unexpected error: "@,
    }
}

/// The message an error carries.
pub open spec fn error_detail(e: CuacaError) -> Seq<char> {
    match e {
        CuacaError::Location(m) => m@,
        CuacaError::Network(m) => m@,
        CuacaError::Parse(m) => m@,
        CuacaError::Cache(m) => m@,
        CuacaError::Config(m) => m@,
        CuacaError::Data(m) => m@,
        CuacaError::Unknown(m) => m@,
    }
}

impl CuacaError {
    /// The text shown to the user: the kind of error and its message.
    pub fn message(&self) -> (r: String)
        ensures
            r@ == error_heading(*self) + error_detail(*self),
    {
        let (heading, detail) = match self {
            CuacaError::Location(m) => ("Location error: ", m),
            CuacaError::Network(m) => ("Network error: ", m),
            CuacaError::Parse(m) => ("Parse error: ", m),
            CuacaError::Cache(m) => ("Cache I/O error: ", m),
            CuacaError::Config(m) => ("Configuration error: ", m),
            CuacaError::Data(m) => ("Data error: ", m),
            CuacaError::Unknown(m) => ("Unexpected error: ", m),
        };
        let mut r = owned(heading);
        push_str(&mut r, detail.as_str());
        r
    }
}

} // verus!
