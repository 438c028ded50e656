//! The ways in which a file operation fails, and what the client is told.

use crate::response::{Response, ResponseView};
use vstd::prelude::*;

verus! {

/// Why a file operation was refused or did not complete.
#[derive(Debug, Clone, PartialEq, Eq)]
pub enum ServiceError {
    /// The credential is missing, invalid or expired.
    Unauthenticated,
    /// The path names a parent directory and could leave the caller's root.
    PathTraversal,
    /// The operation would change the file system of a read-only server.
    ReadOnlyViolation,
    /// The file system refused the operation; the text is its own.
    Filesystem(String),
    /// The name of a directory entry is not valid text.
    Encoding,
}

/// A failure as a value.
pub enum ErrorView {
    Unauthenticated,
    PathTraversal,
    ReadOnlyViolation,
    Filesystem(Seq<char>),
    Encoding,
}

impl View for ServiceError {
    type V = ErrorView;

    open spec fn view(&self) -> ErrorView {
        match self {
            ServiceError::Unauthenticated => ErrorView::Unauthenticated,
            ServiceError::PathTraversal => ErrorView::PathTraversal,
            ServiceError::ReadOnlyViolation => ErrorView::ReadOnlyViolation,
            ServiceError::Filesystem(text) => ErrorView::Filesystem(text@),
            ServiceError::Encoding => ErrorView::Encoding,
        }
    }
}

/// The status that answers a failure: 401 without a valid credential, 400
/// for a request that is refused for what it asks, 500 where the file
/// system failed.
pub open spec fn error_status(error: ErrorView) -> u16 {
    match error {
        ErrorView::Unauthenticated => 401,
        ErrorView::PathTraversal => 400,
        ErrorView::ReadOnlyViolation => 400,
        ErrorView::Filesystem(_) => 500,
        ErrorView::Encoding => 500,
    }
}

/// The text that answers a failure. A failure of the file system is told in
/// the file system's own words; every other text is fixed.
pub open spec fn error_message(error: ErrorView) -> Seq<char> {
    match error {
        ErrorView::Unauthenticated => "Invalid token"@,
        ErrorView::PathTraversal => "Moving up directories is not allowed"@,
        ErrorView::ReadOnlyViolation => "server is read-only."@,
        ErrorView::Filesystem(text) => text,
        ErrorView::Encoding => "String conversion failed"@,
    }
}

/// The response that answers a failure.
pub open spec fn failure(error: ErrorView) -> ResponseView {
    ResponseView { status: error_status(error), body: error_message(error), location: None }
}

/// Turns a failure into the response that reports it.
pub fn error_response(error: &ServiceError) -> (response: Response)
    ensures
        response@ == failure(error@),
{
    match error {
        ServiceError::Unauthenticated => Response {
            status: 401,
            body: "Invalid token".to_owned(),
            location: None,
        },
        ServiceError::PathTraversal => Response {
            status: 400,
            body: "Moving up directories is not allowed".to_owned(),
            location: None,
        },
        ServiceError::ReadOnlyViolation => Response {
            status: 400,
            body: "server is read-only.".to_owned(),
            location: None,
        },
        ServiceError::Filesystem(text) => Response {
            status: 500,
            body: text.clone(),
            location: None,
        },
        ServiceError::Encoding => Response {
            status: 500,
            body: "String conversion failed".to_owned(),
            location: None,
        },
    }
}

} // verus!
