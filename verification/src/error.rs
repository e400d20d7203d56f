//! The library's error type.
//!
//! The verified core produces only configuration errors and internal
//! errors; transport, file and parse errors belong to the callers that
//! perform those effects.

use vstd::prelude::*;

verus! {

/// An error from building a plan or resolving the environment.
#[derive(Debug)]
pub enum AlixtError {
    /// A configuration that cannot be turned into a plan.
    Config(String),
    /// An internal invariant that callers were promised would hold.
    InternalError(String),
}

impl AlixtError {
    /// The error's message.
    pub fn text(&self) -> (r: &String)
        ensures
            r@ == (match self {
                AlixtError::Config(m) => m@,
                AlixtError::InternalError(m) => m@,
            }),
    {
        match self {
            AlixtError::Config(m) => m,
            AlixtError::InternalError(m) => m,
        }
    }
}

} // verus!
