//! The failures that a repository call can end in.

use vstd::prelude::*;

verus! {

/// Why a repository call failed. The variants that stem from the store carry
/// the store's own message.
#[derive(Debug, PartialEq, Eq)]
pub enum RepoError {
    /// A query plan could not be built.
    Prepare(String),
    /// The store refused or failed a call.
    Execute(String),
    /// A row came back in a shape that the entity does not have.
    RowDecode(String),
    /// The board or post that a new entity refers to does not exist.
    ParentNotFound(u128),
    /// No entity has the identifier that was looked up.
    NotFound(u128),
}

/// The transport status of a bad request.
pub const STATUS_BAD_REQUEST: u16 = 400;

/// The transport status of a missing entity.
pub const STATUS_NOT_FOUND: u16 = 404;

/// The transport status of a failure on the server's side.
pub const STATUS_SERVER_ERROR: u16 = 500;

impl RepoError {
    /// The transport status that the error is reported with.
    pub open spec fn status(&self) -> u16 {
        match self {
            RepoError::ParentNotFound(_) => STATUS_BAD_REQUEST,
            RepoError::NotFound(_) => STATUS_NOT_FOUND,
            _ => STATUS_SERVER_ERROR,
        }
    }

    pub fn http_status(&self) -> (r: u16)
        ensures
            r == self.status(),
    {
        match self {
            RepoError::ParentNotFound(_) => STATUS_BAD_REQUEST,
            RepoError::NotFound(_) => STATUS_NOT_FOUND,
            _ => STATUS_SERVER_ERROR,
        }
    }
}

/// Whether a transport status reports a failure, of the caller or of the
/// server.
pub fn is_failure_status(status: u16) -> (r: bool)
    ensures
        r == (status >= 400),
{
    status >= 400
}

/// The label under which a store operation is counted.
pub fn outcome_label(success: bool) -> (label: &'static str)
    ensures
        label@ == (if success {
            "success"@
        } else {
            "error"@
        }),
{
    if success {
        "success"
    } else {
        "error"
    }
}

} // verus!
