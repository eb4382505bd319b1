use vstd::prelude::*;

verus! {

/// Why an invocation failed; any of these aborts the transaction as a whole,
/// so the caller observes a failed outcome and no partial state.
#[derive(Clone, Copy, Debug, PartialEq, Eq, Structural)]
pub enum Error {
    /// A required named key is absent from the registry.
    KeyNotFound,
    /// A resolved reference addresses a value of the wrong shape.
    TypeMismatch,
    /// Reserved for a validation path that is never reached: no operation
    /// of this program produces it.
    KeyAlreadyExists,
}

/// The numeric code under which each error kind is reported to the host.
pub open spec fn error_code(e: Error) -> u16 {
    match e {
        Error::KeyAlreadyExists => 0,
        Error::KeyNotFound => 1,
        Error::TypeMismatch => 2,
    }
}

impl Error {
    /// The code by which a verifying harness tells the error kinds apart.
    pub fn code(&self) -> (c: u16)
        ensures
            c == error_code(*self),
    {
        match self {
            Error::KeyAlreadyExists => 0,
            Error::KeyNotFound => 1,
            Error::TypeMismatch => 2,
        }
    }
}

} // verus!
