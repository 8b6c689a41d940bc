//! The server-side error taxonomy and its JSON-RPC error codes.

use vstd::prelude::*;

verus! {

/// JSON-RPC code for requests whose envelope is not valid JSON-RPC 2.0.
pub const CODE_INVALID_REQUEST: i64 = -32600;

/// JSON-RPC code for an unknown method.
pub const CODE_METHOD_NOT_FOUND: i64 = -32601;

/// JSON-RPC code for malformed parameters of a known method.
pub const CODE_INVALID_PARAMS: i64 = -32602;

/// JSON-RPC code for every other server-side failure.
pub const CODE_SERVER_ERROR: i64 = -32000;

/// The kinds of failure a sandbox operation can report.
#[derive(Debug)]
pub enum ServerError {
    /// Malformed input: bad names, missing required fields.
    InvalidInput(String),
    /// Namespace or sandbox unknown.
    NotFound(String),
    /// No free portal port, or a dependency loop.
    ResourceExhausted(String),
    /// VMM failure or supervisor crash.
    Backend(String),
    /// Every other unrecoverable condition.
    Internal(String),
}

impl ServerError {
    /// The JSON-RPC error code this error surfaces as: validation failures map
    /// to the invalid-params code, everything else to the server-error code.
    pub open spec fn spec_code(&self) -> i64 {
        match self {
            ServerError::InvalidInput(_) => CODE_INVALID_PARAMS,
            _ => CODE_SERVER_ERROR,
        }
    }

    /// Returns the JSON-RPC error code for this error.
    pub fn code(&self) -> (r: i64)
        ensures
            r == self.spec_code(),
    {
        match self {
            ServerError::InvalidInput(_) => CODE_INVALID_PARAMS,
            ServerError::NotFound(_) => CODE_SERVER_ERROR,
            ServerError::ResourceExhausted(_) => CODE_SERVER_ERROR,
            ServerError::Backend(_) => CODE_SERVER_ERROR,
            ServerError::Internal(_) => CODE_SERVER_ERROR,
        }
    }

    /// The message carried by the error.
    pub fn message(&self) -> (r: &String)
        ensures
            r == match self {
                ServerError::InvalidInput(m) => m,
                ServerError::NotFound(m) => m,
                ServerError::ResourceExhausted(m) => m,
                ServerError::Backend(m) => m,
                ServerError::Internal(m) => m,
            },
    {
        match self {
            ServerError::InvalidInput(m) => m,
            ServerError::NotFound(m) => m,
            ServerError::ResourceExhausted(m) => m,
            ServerError::Backend(m) => m,
            ServerError::Internal(m) => m,
        }
    }
}

} // verus!
