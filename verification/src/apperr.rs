//! The crate's error type: a numeric code with its origin.

use vstd::prelude::*;

verus! {

/// An application error carrying a subsystem error code.
#[derive(Clone, Copy, PartialEq, Eq, Structural, Debug)]
pub struct Error {
    pub icu: bool,
    pub code: u32,
}

impl Error {
    /// An error from the text-encoding subsystem.
    pub fn new_icu(code: u32) -> (r: Error)
        ensures
            r.icu,
            r.code == code,
    {
        Error { icu: true, code }
    }
}

} // verus!
