//! The failures that a service call can return.

use vstd::prelude::*;
use vstd::string::StringExecFns;

verus! {

/// The four kinds of failure, each with its message.
#[derive(Debug)]
pub enum AppError {
    NotFound(String),
    Unauthorized(String),
    BadRequest(String),
    InternalServerError(String),
}

/// The kind of a failure without its message.
#[derive(Clone, Copy, Debug, PartialEq, Eq, Structural)]
pub enum ErrorKind {
    NotFound,
    Unauthorized,
    BadRequest,
    InternalServerError,
}

impl AppError {
    /// The kind of this failure.
    pub open spec fn spec_kind(&self) -> ErrorKind {
        match self {
            AppError::NotFound(_) => ErrorKind::NotFound,
            AppError::Unauthorized(_) => ErrorKind::Unauthorized,
            AppError::BadRequest(_) => ErrorKind::BadRequest,
            AppError::InternalServerError(_) => ErrorKind::InternalServerError,
        }
    }

    /// The message of this failure.
    pub open spec fn spec_message(&self) -> Seq<char> {
        match self {
            AppError::NotFound(m) => m@,
            AppError::Unauthorized(m) => m@,
            AppError::BadRequest(m) => m@,
            AppError::InternalServerError(m) => m@,
        }
    }

    /// This failure is of kind `kind` and carries the message `message`.
    pub open spec fn is(&self, kind: ErrorKind, message: Seq<char>) -> bool {
        self.spec_kind() == kind && self.spec_message() == message
    }

    /// The text that stands before the message when a failure is printed.
    pub open spec fn spec_prefix(kind: ErrorKind) -> Seq<char> {
        match kind {
            ErrorKind::NotFound => "Not Found: "@,
            ErrorKind::Unauthorized => "Unauthorized: "@,
            ErrorKind::BadRequest => "Bad Request: "@,
            ErrorKind::InternalServerError => "Internal Server Error: "@,
        }
    }

    #[verifier::when_used_as_spec(spec_kind)]
    pub fn kind(&self) -> (r: ErrorKind)
        ensures
            r == self.spec_kind(),
    {
        match self {
            AppError::NotFound(_) => ErrorKind::NotFound,
            AppError::Unauthorized(_) => ErrorKind::Unauthorized,
            AppError::BadRequest(_) => ErrorKind::BadRequest,
            AppError::InternalServerError(_) => ErrorKind::InternalServerError,
        }
    }

    /// The message of this failure, without the kind.
    pub fn message(&self) -> (r: &str)
        ensures
            r@ == self.spec_message(),
    {
        match self {
            AppError::NotFound(m) => m.as_str(),
            AppError::Unauthorized(m) => m.as_str(),
            AppError::BadRequest(m) => m.as_str(),
            AppError::InternalServerError(m) => m.as_str(),
        }
    }

    /// The failure as one line of text: the kind, a colon and the message.
    pub fn to_string(&self) -> (r: String)
        ensures
            r@ == Self::spec_prefix(self.spec_kind()) + self.spec_message(),
    {
        let prefix = match self {
            AppError::NotFound(_) => "Not Found: ",
            AppError::Unauthorized(_) => "Unauthorized: ",
            AppError::BadRequest(_) => "Bad Request: ",
            AppError::InternalServerError(_) => "Internal Server Error: ",
        };
        String::from_str(prefix).concat(self.message())
    }
}

} // verus!
