//! The error kinds that the engine reports.

use vstd::prelude::*;

verus! {

/// An error raised by the engine.
#[derive(Debug, Clone)]
pub enum Error {
    /// An internal invariant was violated: a missing current selection,
    /// an oversized foreign mutation result, a borrow conflict in the
    /// mutator bridge.
    IllegalState(String),
    /// A named metadata entry or observation channel was not found.
    NotFound(String),
    /// A graceful termination request.  Propagated to the top-level loop,
    /// where it causes an orderly process exit rather than an error report.
    ShuttingDown,
}

impl Error {
    /// Build an `IllegalState` error from a description.
    pub fn illegal_state(msg: &str) -> (r: Error)
        ensures
            r matches Error::IllegalState(m) && m@ == msg@,
    {
        Error::IllegalState(msg.to_owned())
    }

    /// Build a `NotFound` error from a description.
    pub fn not_found(msg: &str) -> (r: Error)
        ensures
            r matches Error::NotFound(m) && m@ == msg@,
    {
        Error::NotFound(msg.to_owned())
    }

    /// Build a graceful-termination request.
    pub fn shutting_down() -> (r: Error)
        ensures
            r is ShuttingDown,
    {
        Error::ShuttingDown
    }

    /// Whether this error is a graceful termination request.
    pub fn is_shutting_down(&self) -> (r: bool)
        ensures
            r == (self is ShuttingDown),
    {
        match self {
            Error::ShuttingDown => true,
            _ => false,
        }
    }

    /// Whether this error reports a violated invariant.
    pub fn is_illegal_state(&self) -> (r: bool)
        ensures
            r == (self is IllegalState),
    {
        match self {
            Error::IllegalState(_) => true,
            _ => false,
        }
    }

    /// Whether this error reports a missing named entry.
    pub fn is_not_found(&self) -> (r: bool)
        ensures
            r == (self is NotFound),
    {
        match self {
            Error::NotFound(_) => true,
            _ => false,
        }
    }
}

} // verus!
