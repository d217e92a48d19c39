//! Errors of the event service.

use vstd::prelude::*;

verus! {

/// Failures while handling a request.
#[derive(Debug, Clone, PartialEq, Eq)]
pub enum Error {
    /// A failure described by its message.
    Unknown(String),
    /// The request carried no `Authorization` header.
    AuthTokenMissing,
    /// The `Authorization` header could not be read as text.
    AuthTokenInvalid,
}

} // verus!
