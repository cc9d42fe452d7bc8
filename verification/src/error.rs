//! The failures that the mirror tells apart.

use vstd::prelude::*;

verus! {

/// The credential exchange failed.
#[derive(Debug, Clone, Copy, PartialEq, Eq, Structural)]
pub enum AuthError {
    /// The exchange could not be carried out.
    Transport,
    /// The endpoint answered with something that is not a credential.
    MalformedResponse,
}

/// A remote read failed.
#[derive(Debug, Clone, Copy, PartialEq, Eq, Structural)]
pub enum SyncError {
    /// The request was not answered, or not with success.
    Fetch,
    /// The answer could not be read as the expected shape.
    Decode,
}

/// An operation on the local table failed.
#[derive(Debug, Clone, Copy, PartialEq, Eq, Structural)]
pub enum PersistenceError {
    /// The table refused or could not carry out the statement.
    Store,
}

} // verus!
