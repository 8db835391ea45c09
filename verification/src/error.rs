//! The failures that the store operations report, and how each one is shown
//! to a caller over HTTP.

use vstd::prelude::*;

verus! {

/// A typed failure of a store operation.
#[derive(Clone, Copy, Debug, PartialEq, Eq, Structural)]
pub enum Error {
    /// A required field is missing or the URL is malformed.
    Validation,
    /// No record is stored under the identifier.
    NotFound,
    /// The record is gated and the credential is absent or does not match.
    Auth,
    /// No free identifier was found within the allowed attempts.
    GenerationExhausted,
    /// The backing store failed or refused the write.
    Store,
}

impl Error {
    /// The HTTP status under which the failure is reported.
    pub open spec fn spec_status_code(self) -> u16 {
        match self {
            Error::Validation => 400,
            Error::NotFound => 404,
            Error::Auth => 401,
            Error::GenerationExhausted => 500,
            Error::Store => 500,
        }
    }

    /// The message that goes out with the failure.
    pub open spec fn spec_message(self) -> Seq<char> {
        match self {
            Error::Validation => "Bad Request: a well-formed absolute URL is required"@,
            Error::NotFound => "ID Not Found in our System"@,
            Error::Auth => "Unauthorized"@,
            Error::GenerationExhausted => "Could not find a free ID, please try again"@,
            Error::Store => "Internal Server Error"@,
        }
    }

    /// The HTTP status under which the failure is reported: 400 for bad
    /// input, 404 for an unknown identifier, 401 for a bad credential and
    /// 500 for the two server-side failures.
    #[verifier::when_used_as_spec(spec_status_code)]
    pub fn status_code(self) -> (code: u16)
        ensures
            code == self.spec_status_code(),
    {
        match self {
            Error::Validation => 400,
            Error::NotFound => 404,
            Error::Auth => 401,
            Error::GenerationExhausted => 500,
            Error::Store => 500,
        }
    }

    /// The message that goes out with the failure. It names the kind of
    /// failure and nothing of the store's inner state; an exhausted
    /// allocation asks the caller to try the creation again.
    pub fn message(self) -> (text: String)
        ensures
            text@ == self.spec_message(),
    {
        match self {
            Error::Validation => "Bad Request: a well-formed absolute URL is required".to_owned(),
            Error::NotFound => "ID Not Found in our System".to_owned(),
            Error::Auth => "Unauthorized".to_owned(),
            Error::GenerationExhausted => "Could not find a free ID, please try again".to_owned(),
            Error::Store => "Internal Server Error".to_owned(),
        }
    }
}

} // verus!
