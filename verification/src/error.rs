//! The error that reaches the HTTP boundary.

use vstd::prelude::*;

verus! {

/// A failure while a request was served, reported with status 500.
#[derive(Debug)]
pub enum HttpError {
    Internal { err: String },
}

impl HttpError {
    /// An internal error with the given description.
    pub fn internal(err: String) -> (out: HttpError)
        ensures
            out == (HttpError::Internal { err }),
    {
        HttpError::Internal { err }
    }

    /// The description of the failure.
    pub fn description(&self) -> (out: &str)
        ensures
            out@ == self.text(),
    {
        match self {
            HttpError::Internal { err } => err.as_str(),
        }
    }

    /// The description of the failure, as a value.
    pub open spec fn text(&self) -> Seq<char> {
        match self {
            HttpError::Internal { err } => err@,
        }
    }

    /// The HTTP status with which the failure is answered.
    pub fn status(&self) -> (out: u16)
        ensures
            out == 500,
    {
        500
    }
}

} // verus!
