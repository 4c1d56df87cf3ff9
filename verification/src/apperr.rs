//! A transparent error type abstracting over system and application errors.

use vstd::prelude::*;

verus! {

/// A transparent error: an application, ICU, or system error code.
#[derive(Debug, Clone, Copy, PartialEq, Eq, Structural)]
pub enum Error {
    App(u32),
    Icu(u32),
    Sys(u32),
}

impl Error {
    pub fn new_app(code: u32) -> (r: Self)
        ensures
            r == Error::App(code),
    {
        Error::App(code)
    }

    pub fn new_icu(code: u32) -> (r: Self)
        ensures
            r == Error::Icu(code),
    {
        Error::Icu(code)
    }

    pub fn new_sys(code: u32) -> (r: Self)
        ensures
            r == Error::Sys(code),
    {
        Error::Sys(code)
    }
}

} // verus!
