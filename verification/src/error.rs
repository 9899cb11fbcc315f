//! The errors that a request for an evaluation is answered with.

use axum::http::StatusCode;
use vstd::prelude::*;

use crate::authzen::ErrorBody;
use crate::convert::ConversionError;
use crate::json;

verus! {

/// `axum::http::StatusCode`, the status of an HTTP response.
#[verifier::external_type_specification]
#[verifier::external_body]
pub struct ExStatusCode(StatusCode);

/// The number of a `StatusCode`.
pub uninterp spec fn status_number(status: StatusCode) -> u16;

/// `StatusCode::from_u16` makes a status of a number with three digits.
#[verifier::external_body]
pub(crate) fn status_code(number: u16) -> (status: StatusCode)
    requires
        100 <= number < 1000,
    ensures
        status_number(status) == number,
{
    StatusCode::from_u16(number).unwrap()
}

/// Why a request is not answered with a decision.
#[derive(Debug)]
pub enum ApiError {
    /// The body is no JSON of a request.
    InvalidJson(serde_json::Error),
    /// The request cannot be put to Cedar.
    Conversion(ConversionError),
    /// The authorizer failed.
    Evaluation,
}

impl ApiError {
    /// The number of the status that the error is answered with.
    pub open spec fn number(self) -> u16 {
        match self {
            ApiError::InvalidJson(_) => 400,
            ApiError::Conversion(_) => 400,
            ApiError::Evaluation => 500,
        }
    }

    /// The code that the error is answered with.
    pub open spec fn code_text(self) -> Seq<char> {
        match self {
            ApiError::InvalidJson(_) => "invalid_json"@,
            ApiError::Conversion(error) => error.code_text(),
            ApiError::Evaluation => "evaluation_failed"@,
        }
    }

    /// The message that the error is answered with.
    pub open spec fn message_text(self) -> Seq<char> {
        match self {
            ApiError::InvalidJson(error) => json::json_error_message(error),
            ApiError::Conversion(error) => error.message_text(),
            ApiError::Evaluation => "authorization failed"@,
        }
    }

    /// The status that the error is answered with: the client is to blame for a
    /// request that cannot be read or put to Cedar, and for nothing else.
    pub fn status(&self) -> (status: StatusCode)
        ensures
            status_number(status) == self.number(),
    {
        match self {
            ApiError::InvalidJson(_) => status_code(400),
            ApiError::Conversion(_) => status_code(400),
            ApiError::Evaluation => status_code(500),
        }
    }

    /// The code that the error is answered with.
    pub fn code(&self) -> (code: &'static str)
        ensures
            code@ == self.code_text(),
    {
        match self {
            ApiError::InvalidJson(_) => "invalid_json",
            ApiError::Conversion(error) => error.code(),
            ApiError::Evaluation => "evaluation_failed",
        }
    }

    /// The message that the error is answered with. Of a failure of the
    /// authorizer it tells nothing but that there was one.
    pub fn message(&self) -> (message: String)
        ensures
            message@ == self.message_text(),
    {
        match self {
            ApiError::InvalidJson(error) => json::json_error_text(error),
            ApiError::Conversion(error) => error.message(),
            ApiError::Evaluation => "authorization failed".to_string(),
        }
    }

    /// The body that the error is answered with.
    pub fn body(&self) -> (body: ErrorBody)
        ensures
            body.error@ == self.code_text(),
            body.message@ == self.message_text(),
    {
        ErrorBody::new(self.code(), self.message())
    }
}

impl From<serde_json::Error> for ApiError {
    fn from(error: serde_json::Error) -> (made: Self) {
        ApiError::InvalidJson(error)
    }
}

impl vstd::std_specs::convert::FromSpecImpl<serde_json::Error> for ApiError {
    open spec fn obeys_from_spec() -> bool {
        true
    }

    open spec fn from_spec(error: serde_json::Error) -> Self {
        ApiError::InvalidJson(error)
    }
}

impl From<ConversionError> for ApiError {
    fn from(error: ConversionError) -> (made: Self) {
        ApiError::Conversion(error)
    }
}

impl vstd::std_specs::convert::FromSpecImpl<ConversionError> for ApiError {
    open spec fn obeys_from_spec() -> bool {
        true
    }

    open spec fn from_spec(error: ConversionError) -> Self {
        ApiError::Conversion(error)
    }
}

} // verus!
