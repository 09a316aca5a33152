//! What each request does to the ledger and what is answered.
//!
//! A handler takes the ledger, who asks, and the time, and returns the answer;
//! it changes the ledger only where it answers [`StatusCode::Success`].

pub mod expense;
pub mod list;
pub mod session;
pub mod summary;
pub mod transfer;

use vstd::prelude::*;

verus! {

/// How a request ended.
#[derive(Debug, Clone, Copy, PartialEq, Eq, Structural)]
pub enum StatusCode {
    /// Done.
    Success,
    /// The input is malformed, or the entry is not in a state that allows the step.
    BadRequest,
    /// No token, or one that does not verify.
    Unauthorized,
    /// The ledger could not take the change.
    InternalServerError,
}

impl StatusCode {
    /// The number of the status in HTTP.
    pub fn as_u16(self) -> (code: u16)
        ensures
            code == match self {
                StatusCode::Success => 200u16,
                StatusCode::BadRequest => 400u16,
                StatusCode::Unauthorized => 401u16,
                StatusCode::InternalServerError => 500u16,
            },
    {
        match self {
            StatusCode::Success => 200,
            StatusCode::BadRequest => 400,
            StatusCode::Unauthorized => 401,
            StatusCode::InternalServerError => 500,
        }
    }
}

} // verus!
