//! The error taxonomy of the subsystem.
//!
//! Every fallible step collapses to one of these; nothing here is fatal to
//! the process — each failure is scoped to one session.

use vstd::prelude::*;

verus! {

/// Why a session could not produce an album.
#[derive(Clone, Copy, PartialEq, Eq, Structural, Debug)]
pub enum AuthError {
    /// No session, or a session that has not completed authorization.
    AuthRequired,
    /// The authorization-code exchange failed; the session entry is
    /// discarded rather than retried.
    ExchangeFailed,
    /// A token refresh failed; the session entry is kept, but the request
    /// fails rather than reuse an expired token.
    RefreshFailed,
}

} // verus!
