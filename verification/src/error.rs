//! Errors that the relay reports on its own account.

use vstd::prelude::*;

verus! {

/// What sort of fault an [`Error`] reports.
#[derive(Clone, Copy, Debug, PartialEq, Eq)]
pub enum ErrorKind {
    /// A peer sent bytes that break the protocol.
    InvalidData,
    /// A caller or the environment asked for something that cannot be done.
    InvalidInput,
}

/// A fault with its explanation.
#[derive(Clone, Copy, Debug, PartialEq, Eq)]
pub struct Error {
    pub kind: ErrorKind,
    pub message: &'static str,
}

} // verus!
