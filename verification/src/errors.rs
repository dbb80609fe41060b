//! Typed error taxonomy of the host.
//!
//! Every failure a guest can provoke is reported as an [`Error`] carrying a
//! type (the component of origin) and a code (the category of failure).
//! A well-behaved host never surfaces `InternalError` in reaction to
//! malformed guest input; the verified functions of this crate state that
//! in their contracts.

use vstd::prelude::*;

verus! {

/// Component of origin of an error.
#[derive(Clone, Copy, Debug, PartialEq, Eq, Structural)]
pub enum ScErrorType {
    Contract,
    WasmVm,
    Context,
    Storage,
    Object,
    Crypto,
    Events,
    Budget,
    Value,
    Auth,
}

/// Category of an error.
#[derive(Clone, Copy, Debug, PartialEq, Eq, Structural)]
pub enum ScErrorCode {
    ArithDomain,
    IndexBounds,
    InvalidInput,
    MissingValue,
    ExistingValue,
    ExceededLimit,
    InvalidAction,
    InternalError,
    UnexpectedType,
    UnexpectedSize,
}

/// A typed error value; also representable as a `Val` (the `Status` variant).
#[derive(Clone, Copy, Debug, PartialEq, Eq, Structural)]
pub struct Error {
    pub etype: ScErrorType,
    pub code: ScErrorCode,
}

impl Error {
    pub fn from_type_and_code(etype: ScErrorType, code: ScErrorCode) -> (r: Error)
        ensures
            r == (Error { etype, code }),
    {
        Error { etype, code }
    }

    pub fn is_code(&self, code: ScErrorCode) -> (r: bool)
        ensures
            r == (self.code == code),
    {
        self.code == code
    }

    pub fn is_type(&self, etype: ScErrorType) -> (r: bool)
        ensures
            r == (self.etype == etype),
    {
        self.etype == etype
    }
}

/// The error type returned by every fallible host operation.
#[derive(Clone, Copy, Debug, PartialEq, Eq, Structural)]
pub struct HostError {
    pub error: Error,
}

impl HostError {
    pub fn from_error(error: Error) -> (r: HostError)
        ensures
            r == (HostError { error }),
    {
        HostError { error }
    }
}

/// Shorthand for building a `HostError` from a type and code.
pub fn host_err(etype: ScErrorType, code: ScErrorCode) -> (r: HostError)
    ensures
        r == (HostError { error: Error { etype, code } }),
{
    HostError { error: Error { etype, code } }
}

/// An error counts as internal exactly when its code is `InternalError`.
pub open spec fn is_internal(e: HostError) -> bool {
    e.error.code == ScErrorCode::InternalError
}

/// Re-raises a host error, provided it is not a host defect.
///
/// The adversarial drivers route every error they tolerate through this
/// function; its precondition is the verified form of the promise that no
/// internal error is ever observed there.
pub fn panic_if_internal_error(e: HostError) -> (r: HostError)
    requires
        !is_internal(e),
    ensures
        r == e,
{
    e
}

/// Accepts the outcome of a metered operation when it succeeded or failed
/// only by exhausting the budget; any other error is ruled out by the
/// precondition.
pub fn swallow_exceeded_limit_errors(r: Result<(), HostError>)
    requires
        match r {
            Ok(_) => true,
            Err(e) => e.error.code == ScErrorCode::ExceededLimit,
        },
{
    match r {
        Ok(_) => (),
        Err(_) => (),
    }
}

} // verus!
