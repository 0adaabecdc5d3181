//! The errors that a queue node reports to its clients.

use vstd::prelude::*;
use crate::leader::StoreError;

verus! {

/// Why a request to a queue node failed.
#[derive(Debug, PartialEq, Eq)]
pub enum ApiError {
    /// The store failed; the text says at what.
    DatabaseError(String),
    /// Anything else that went wrong inside the node, a malformed request
    /// among it; the text is the message for the client.
    InternalServerError(String),
    /// The heap holds no job.
    EmptyHeapError,
}

/// The status under which every failure is reported.
pub const INTERNAL_SERVER_ERROR: u16 = 500;

impl ApiError {
    /// The error for a store that failed at `doing`. A missing row is
    /// reported like any other failure of the store.
    pub fn from_store(error: StoreError, doing: &str) -> (e: Self)
        ensures
            e matches ApiError::DatabaseError(text) && text@ == doing@,
    {
        match error {
            StoreError::Unavailable => ApiError::DatabaseError(String::from_str(doing)),
            StoreError::NotFound => ApiError::DatabaseError(String::from_str(doing)),
        }
    }

    /// The response status for this error.
    pub fn status(&self) -> (code: u16)
        ensures
            code == INTERNAL_SERVER_ERROR,
    {
        INTERNAL_SERVER_ERROR
    }

    /// The response body for this error.
    pub fn body(&self) -> (text: String)
        ensures
            text@ == match *self {
                ApiError::DatabaseError(detail) => "DatabaseError: "@ + detail@,
                ApiError::InternalServerError(detail) => detail@,
                ApiError::EmptyHeapError => "EmptyHeapError"@,
            },
    {
        match self {
            ApiError::DatabaseError(detail) => String::from_str("DatabaseError: ").concat(
                detail.as_str(),
            ),
            ApiError::InternalServerError(detail) => detail.clone(),
            ApiError::EmptyHeapError => String::from_str("EmptyHeapError"),
        }
    }

    /// The error in words, for a log.
    pub fn message(&self) -> (text: String)
        ensures
            text@ == match *self {
                ApiError::DatabaseError(detail) => "Database Error: "@ + detail@,
                ApiError::InternalServerError(detail) => "Internal Server Error: "@ + detail@,
                ApiError::EmptyHeapError => "Empty Heap Error"@,
            },
    {
        match self {
            ApiError::DatabaseError(detail) => String::from_str("Database Error: ").concat(
                detail.as_str(),
            ),
            ApiError::InternalServerError(detail) => String::from_str(
                "Internal Server Error: ",
            ).concat(detail.as_str()),
            ApiError::EmptyHeapError => String::from_str("Empty Heap Error"),
        }
    }
}

} // verus!
