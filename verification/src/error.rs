//! The errors that routing and reply correlation report.
use vstd::prelude::*;

verus! {

/// Why a message could not be sent, or a reply could not be had.
#[derive(Clone, Copy, Debug, PartialEq, Eq, Structural)]
pub enum SendError {
    /// The group had no subscriber when it was looked at.
    Unreachable,
    /// The reply conduit was dropped or failed before a reply came.
    ReplyFailed,
    /// A reply came, but not of the type that the caller expects.
    TypeMismatch,
    /// The timer ran out before a reply came.
    Timeout,
    /// The registry or the system behind it could not do its part.
    RegistryFault,
}

} // verus!
