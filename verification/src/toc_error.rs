//! Error value shared by every fallible operation of the crate.
//!
//! All failures are fatal to the operation that raised them; the error
//! carries a single message string and nothing else.

use vstd::prelude::*;

verus! {

/// A fatal error carrying one human-readable message.
#[derive(Debug)]
pub struct TocError {
    pub message: String,
}

impl TocError {
    /// Builds an error from a message.
    pub fn new(message: &str) -> (r: TocError)
        ensures
            r.message@ == message@,
    {
        TocError { message: message.to_owned() }
    }

    /// Builds an error from a static message.
    pub fn from_str(message: &str) -> (r: TocError)
        ensures
            r.message@ == message@,
    {
        TocError { message: message.to_owned() }
    }

    /// The message carried by this error.
    pub fn message(&self) -> (r: &str)
        ensures
            r@ == self.message@,
    {
        self.message.as_str()
    }
}

} // verus!
