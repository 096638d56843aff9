//! Error model: numeric status codes, their classification, and message lookup.
//!
//! Every failing operation on a session records a numeric code on the handle
//! and returns an [`Error`] carrying the same code.  Messages are looked up in
//! a fixed table; a handle may additionally carry a compiler message that
//! overrides the table entry for the compiler code.

use vstd::prelude::*;

verus! {

/// Requested protocol version does not match the engine's version.
pub const EDT_VERSION: i32 = 1;

/// Unrecognized bits, or conflicting pointer-width bits, in the open flags.
pub const EDT_BADFLAGS: i32 = 2;

/// The compiler rejected the program text.
pub const EDT_COMPILER: i32 = 3;

/// Executing the program would exceed the engine's probe budget.
pub const EDT_NOMEM: i32 = 4;

/// Unknown option name.
pub const EDT_BADOPTNAME: i32 = 5;

/// Malformed option value.
pub const EDT_BADOPTVAL: i32 = 6;

/// The session is already running.
pub const EDT_ACTIVE: i32 = 7;

/// The session is not running.
pub const EDT_NOTRUNNING: i32 = 8;

/// The session was already stopped.
pub const EDT_STOPPED: i32 = 9;

/// A principal or drop buffer was lost on the engine side.
pub const EDT_DROPPED: i32 = 10;

/// The requested handler class is not supported.
pub const EDT_NOTSUP: i32 = 11;

/// The engine reported an unrecognized failure.
pub const EDT_UNKNOWN: i32 = 12;

/// The error taxonomy of the consumer layer.
#[derive(Clone, Copy, PartialEq, Eq, Structural, Debug)]
pub enum ErrorKind {
    OpenFailure,
    CompileFailure,
    ExecFailure,
    OptionFailure,
    LifecycleFailure,
    ConsumptionFailure,
    HandlerRegistrationFailure,
    UnknownFailure,
}

/// Classification of a numeric code into the error taxonomy.
pub open spec fn spec_kind_of(code: i32) -> ErrorKind {
    if code == EDT_VERSION || code == EDT_BADFLAGS {
        ErrorKind::OpenFailure
    } else if code == EDT_COMPILER {
        ErrorKind::CompileFailure
    } else if code == EDT_NOMEM {
        ErrorKind::ExecFailure
    } else if code == EDT_BADOPTNAME || code == EDT_BADOPTVAL {
        ErrorKind::OptionFailure
    } else if code == EDT_ACTIVE || code == EDT_NOTRUNNING || code == EDT_STOPPED {
        ErrorKind::LifecycleFailure
    } else if code == EDT_DROPPED {
        ErrorKind::ConsumptionFailure
    } else if code == EDT_NOTSUP {
        ErrorKind::HandlerRegistrationFailure
    } else {
        ErrorKind::UnknownFailure
    }
}

/// The message table shared by the global lookup and by every handle.
pub open spec fn spec_errmsg(code: i32) -> Seq<char> {
    if code == EDT_VERSION {
        "requested version is not supported by this engine"@
    } else if code == EDT_BADFLAGS {
        "invalid open flags"@
    } else if code == EDT_COMPILER {
        "program failed to compile"@
    } else if code == EDT_NOMEM {
        "probe limit exceeded"@
    } else if code == EDT_BADOPTNAME {
        "invalid option name"@
    } else if code == EDT_BADOPTVAL {
        "invalid option value"@
    } else if code == EDT_ACTIVE {
        "tracing is already active"@
    } else if code == EDT_NOTRUNNING {
        "tracing is not running"@
    } else if code == EDT_STOPPED {
        "tracing has already been stopped"@
    } else if code == EDT_DROPPED {
        "buffered data was dropped by the engine"@
    } else if code == EDT_NOTSUP {
        "operation not supported by this engine"@
    } else {
        "unknown engine failure"@
    }
}

/// A failure reported by the engine, wrapped with its numeric code.
#[derive(Clone, Copy, PartialEq, Eq, Structural, Debug)]
pub struct Error {
    pub code: i32,
}

impl Error {
    /// Wraps a numeric engine code.
    pub fn from_code(code: i32) -> (r: Error)
        ensures
            r.code == code,
    {
        Error { code }
    }

    /// Classifies the code into the error taxonomy.
    pub fn kind(&self) -> (r: ErrorKind)
        ensures
            r == spec_kind_of(self.code),
    {
        if self.code == EDT_VERSION || self.code == EDT_BADFLAGS {
            ErrorKind::OpenFailure
        } else if self.code == EDT_COMPILER {
            ErrorKind::CompileFailure
        } else if self.code == EDT_NOMEM {
            ErrorKind::ExecFailure
        } else if self.code == EDT_BADOPTNAME || self.code == EDT_BADOPTVAL {
            ErrorKind::OptionFailure
        } else if self.code == EDT_ACTIVE || self.code == EDT_NOTRUNNING || self.code
            == EDT_STOPPED {
            ErrorKind::LifecycleFailure
        } else if self.code == EDT_DROPPED {
            ErrorKind::ConsumptionFailure
        } else if self.code == EDT_NOTSUP {
            ErrorKind::HandlerRegistrationFailure
        } else {
            ErrorKind::UnknownFailure
        }
    }

    /// The table message for this code, without consulting any handle.
    pub fn message(&self) -> (r: &'static str)
        ensures
            r@ == spec_errmsg(self.code),
    {
        global_errmsg(self.code)
    }
}

/// Message lookup against the fixed table alone.
pub fn global_errmsg(code: i32) -> (r: &'static str)
    ensures
        r@ == spec_errmsg(code),
{
    if code == EDT_VERSION {
        "requested version is not supported by this engine"
    } else if code == EDT_BADFLAGS {
        "invalid open flags"
    } else if code == EDT_COMPILER {
        "program failed to compile"
    } else if code == EDT_NOMEM {
        "probe limit exceeded"
    } else if code == EDT_BADOPTNAME {
        "invalid option name"
    } else if code == EDT_BADOPTVAL {
        "invalid option value"
    } else if code == EDT_ACTIVE {
        "tracing is already active"
    } else if code == EDT_NOTRUNNING {
        "tracing is not running"
    } else if code == EDT_STOPPED {
        "tracing has already been stopped"
    } else if code == EDT_DROPPED {
        "buffered data was dropped by the engine"
    } else if code == EDT_NOTSUP {
        "operation not supported by this engine"
    } else {
        "unknown engine failure"
    }
}

} // verus!
