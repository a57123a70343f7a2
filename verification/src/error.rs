//! The errors that the API answers with, and the form of the answer.

use vstd::prelude::*;
use vstd::string::StringExecFns;

verus! {

/// The body of an answer that reports an error.
#[derive(Debug)]
pub struct ErrorResponse {
    /// The kind of error, for programs.
    pub code: String,
    /// The error in words, for people.
    pub message: String,
    /// More for developers, if there is more.
    pub details: Option<String>,
    /// The request that failed, for the log.
    pub request_id: Option<String>,
}

/// The mathematical value of an `ErrorResponse`.
pub struct ErrorBody {
    pub code: Seq<char>,
    pub message: Seq<char>,
    pub details: Option<Seq<char>>,
    pub request_id: Option<Seq<char>>,
}

impl DeepView for ErrorResponse {
    type V = ErrorBody;

    open spec fn deep_view(&self) -> ErrorBody {
        ErrorBody {
            code: self.code@,
            message: self.message@,
            details: self.details.deep_view(),
            request_id: self.request_id.deep_view(),
        }
    }
}

/// What can go wrong in answering a request.
#[derive(Debug)]
pub enum AppError {
    NotFound(String),
    BadRequest(String),
    InternalError(String),
    ValidationError(String),
    Unauthorized(String),
    Forbidden(String),
    Conflict(String),
    RateLimited(String),
}

/// The mathematical value of an `AppError`.
pub enum AppFault {
    NotFound(Seq<char>),
    BadRequest(Seq<char>),
    InternalError(Seq<char>),
    ValidationError(Seq<char>),
    Unauthorized(Seq<char>),
    Forbidden(Seq<char>),
    Conflict(Seq<char>),
    RateLimited(Seq<char>),
}

impl DeepView for AppError {
    type V = AppFault;

    open spec fn deep_view(&self) -> AppFault {
        match self {
            AppError::NotFound(m) => AppFault::NotFound(m@),
            AppError::BadRequest(m) => AppFault::BadRequest(m@),
            AppError::InternalError(m) => AppFault::InternalError(m@),
            AppError::ValidationError(m) => AppFault::ValidationError(m@),
            AppError::Unauthorized(m) => AppFault::Unauthorized(m@),
            AppError::Forbidden(m) => AppFault::Forbidden(m@),
            AppError::Conflict(m) => AppFault::Conflict(m@),
            AppError::RateLimited(m) => AppFault::RateLimited(m@),
        }
    }
}

impl AppFault {
    /// The message that the error carries.
    pub open spec fn message(self) -> Seq<char> {
        match self {
            AppFault::NotFound(m) => m,
            AppFault::BadRequest(m) => m,
            AppFault::InternalError(m) => m,
            AppFault::ValidationError(m) => m,
            AppFault::Unauthorized(m) => m,
            AppFault::Forbidden(m) => m,
            AppFault::Conflict(m) => m,
            AppFault::RateLimited(m) => m,
        }
    }

    /// The HTTP status that the error is answered with.
    pub open spec fn status(self) -> u16 {
        match self {
            AppFault::NotFound(_) => 404,
            AppFault::BadRequest(_) => 400,
            AppFault::InternalError(_) => 500,
            AppFault::ValidationError(_) => 400,
            AppFault::Unauthorized(_) => 401,
            AppFault::Forbidden(_) => 403,
            AppFault::Conflict(_) => 409,
            AppFault::RateLimited(_) => 429,
        }
    }

    /// The code that names the kind of error.
    pub open spec fn code(self) -> Seq<char> {
        match self {
            AppFault::NotFound(_) => "NOT_FOUND"@,
            AppFault::BadRequest(_) => "BAD_REQUEST"@,
            AppFault::InternalError(_) => "INTERNAL_ERROR"@,
            AppFault::ValidationError(_) => "VALIDATION_ERROR"@,
            AppFault::Unauthorized(_) => "UNAUTHORIZED"@,
            AppFault::Forbidden(_) => "FORBIDDEN"@,
            AppFault::Conflict(_) => "CONFLICT"@,
            AppFault::RateLimited(_) => "RATE_LIMITED"@,
        }
    }

    /// The kind of error in words.
    pub open spec fn label(self) -> Seq<char> {
        match self {
            AppFault::NotFound(_) => "Not Found"@,
            AppFault::BadRequest(_) => "Bad Request"@,
            AppFault::InternalError(_) => "Internal Error"@,
            AppFault::ValidationError(_) => "Validation Error"@,
            AppFault::Unauthorized(_) => "Unauthorized"@,
            AppFault::Forbidden(_) => "Forbidden"@,
            AppFault::Conflict(_) => "Conflict"@,
            AppFault::RateLimited(_) => "Rate Limited"@,
        }
    }

    /// The error in one line: kind, colon, message.
    pub open spec fn text(self) -> Seq<char> {
        self.label() + ": "@ + self.message()
    }

    /// The body of the answer: code and message, and nothing more.
    pub open spec fn body(self) -> ErrorBody {
        ErrorBody { code: self.code(), message: self.message(), details: None, request_id: None }
    }
}

impl AppError {
    /// What was asked for is not there.
    pub fn not_found(message: &str) -> (e: Self)
        ensures
            e.deep_view() == AppFault::NotFound(message@),
    {
        AppError::NotFound(String::from_str(message))
    }

    /// The request makes no sense.
    pub fn bad_request(message: &str) -> (e: Self)
        ensures
            e.deep_view() == AppFault::BadRequest(message@),
    {
        AppError::BadRequest(String::from_str(message))
    }

    /// The request breaks a rule.
    pub fn validation_error(message: &str) -> (e: Self)
        ensures
            e.deep_view() == AppFault::ValidationError(message@),
    {
        AppError::ValidationError(String::from_str(message))
    }

    /// The request does not say who asks.
    pub fn unauthorized(message: &str) -> (e: Self)
        ensures
            e.deep_view() == AppFault::Unauthorized(message@),
    {
        AppError::Unauthorized(String::from_str(message))
    }

    /// Who asks may not have it.
    pub fn forbidden(message: &str) -> (e: Self)
        ensures
            e.deep_view() == AppFault::Forbidden(message@),
    {
        AppError::Forbidden(String::from_str(message))
    }

    /// The request clashes with what is there.
    pub fn conflict(message: &str) -> (e: Self)
        ensures
            e.deep_view() == AppFault::Conflict(message@),
    {
        AppError::Conflict(String::from_str(message))
    }

    /// Too many requests.
    pub fn rate_limited(message: &str) -> (e: Self)
        ensures
            e.deep_view() == AppFault::RateLimited(message@),
    {
        AppError::RateLimited(String::from_str(message))
    }

    /// The fault is the server's.
    pub fn internal_error(message: &str) -> (e: Self)
        ensures
            e.deep_view() == AppFault::InternalError(message@),
    {
        AppError::InternalError(String::from_str(message))
    }

    /// The message that the error carries.
    pub fn message(&self) -> (m: &str)
        ensures
            m@ == self.deep_view().message(),
    {
        match self {
            AppError::NotFound(m) => m.as_str(),
            AppError::BadRequest(m) => m.as_str(),
            AppError::InternalError(m) => m.as_str(),
            AppError::ValidationError(m) => m.as_str(),
            AppError::Unauthorized(m) => m.as_str(),
            AppError::Forbidden(m) => m.as_str(),
            AppError::Conflict(m) => m.as_str(),
            AppError::RateLimited(m) => m.as_str(),
        }
    }

    /// The HTTP status that the error is answered with.
    pub fn status_code(&self) -> (status: u16)
        ensures
            status == self.deep_view().status(),
    {
        match self {
            AppError::NotFound(_) => 404,
            AppError::BadRequest(_) => 400,
            AppError::InternalError(_) => 500,
            AppError::ValidationError(_) => 400,
            AppError::Unauthorized(_) => 401,
            AppError::Forbidden(_) => 403,
            AppError::Conflict(_) => 409,
            AppError::RateLimited(_) => 429,
        }
    }

    /// The code that names the kind of error.
    pub fn code(&self) -> (code: &'static str)
        ensures
            code@ == self.deep_view().code(),
    {
        match self {
            AppError::NotFound(_) => "NOT_FOUND",
            AppError::BadRequest(_) => "BAD_REQUEST",
            AppError::InternalError(_) => "INTERNAL_ERROR",
            AppError::ValidationError(_) => "VALIDATION_ERROR",
            AppError::Unauthorized(_) => "UNAUTHORIZED",
            AppError::Forbidden(_) => "FORBIDDEN",
            AppError::Conflict(_) => "CONFLICT",
            AppError::RateLimited(_) => "RATE_LIMITED",
        }
    }

    /// The kind of error in words.
    pub fn label(&self) -> (label: &'static str)
        ensures
            label@ == self.deep_view().label(),
    {
        match self {
            AppError::NotFound(_) => "Not Found",
            AppError::BadRequest(_) => "Bad Request",
            AppError::InternalError(_) => "Internal Error",
            AppError::ValidationError(_) => "Validation Error",
            AppError::Unauthorized(_) => "Unauthorized",
            AppError::Forbidden(_) => "Forbidden",
            AppError::Conflict(_) => "Conflict",
            AppError::RateLimited(_) => "Rate Limited",
        }
    }

    /// The error in one line: kind, colon, message.
    pub fn to_text(&self) -> (out: String)
        ensures
            out@ == self.deep_view().text(),
    {
        let mut out = String::from_str(self.label());
        out.append(": ");
        out.append(self.message());
        out
    }

    /// The body of the answer that reports the error.
    pub fn to_response(&self) -> (body: ErrorResponse)
        ensures
            body.deep_view() == self.deep_view().body(),
    {
        ErrorResponse {
            code: String::from_str(self.code()),
            message: String::from_str(self.message()),
            details: None,
            request_id: None,
        }
    }
}

} // verus!
