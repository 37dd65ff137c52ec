//! Errors that are answered to an HTTP client.

use vstd::prelude::*;
use vstd::string::StringExecFns;

verus! {

/// An error of the application.
#[derive(Debug)]
pub enum AppError {
    /// The request was not understood, for the reason given.
    BadRequest(String),
}

/// The HTTP status that says that a request was not understood.
pub const BAD_REQUEST: u16 = 400;

impl AppError {
    /// The reason that was given for this error.
    pub open spec fn reason(self) -> Seq<char> {
        match self {
            AppError::BadRequest(reason) => reason@,
        }
    }

    /// The text that describes this error.
    pub fn message(&self) -> (text: String)
        ensures
            text@ == "bad request: "@ + self.reason(),
    {
        match self {
            AppError::BadRequest(reason) => String::from_str("bad request: ").concat(
                reason.as_str(),
            ),
        }
    }

    /// The HTTP status and body with which this error is answered.
    pub fn into_response(self) -> (response: (u16, String))
        ensures
            response.0 == BAD_REQUEST,
            response.1@ == "bad request: "@ + self.reason(),
    {
        let text = self.message();
        (BAD_REQUEST, text)
    }
}

} // verus!
