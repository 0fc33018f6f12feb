//! Error taxonomy shared by the validation logic and both persistence
//! backends, and its mapping to HTTP status codes.

use vstd::prelude::*;

verus! {

/// Every failure a question-bank operation can report.
#[derive(Clone, Copy, Debug, PartialEq, Eq, Structural)]
pub enum QuestionError {
    /// The request body is malformed: a required field is missing or a
    /// supplied field has the wrong type.
    InvalidPayload,
    /// No record exists for the given identifier.
    NotFound,
    /// A record with the given identifier already exists (only the
    /// string-keyed backend reports this, on insert).
    Conflict,
    /// The backend itself failed, for example because the identifier space
    /// is exhausted.
    Internal,
}

impl QuestionError {
    /// The HTTP status code a dispatcher reports for this failure.
    pub fn status_code(&self) -> (code: u16)
        ensures
            *self == QuestionError::InvalidPayload ==> code == 400,
            *self == QuestionError::NotFound ==> code == 404,
            *self == QuestionError::Conflict ==> code == 409,
            *self == QuestionError::Internal ==> code == 500,
    {
        match self {
            QuestionError::InvalidPayload => 400,
            QuestionError::NotFound => 404,
            QuestionError::Conflict => 409,
            QuestionError::Internal => 500,
        }
    }
}

/// Marker for a failed request to the backing service; the proxy process
/// turns this into a rejection of the browser's request.
#[derive(Clone, Copy, Debug, PartialEq, Eq, Structural)]
pub struct RetrieveError;

} // verus!
