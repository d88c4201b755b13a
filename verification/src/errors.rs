//! Error kinds shared by the service, and their HTTP mapping.

use vstd::prelude::*;

verus! {

/// A typed error. `NotFound` and `BadRequest` are user-facing; the
/// rest map to an internal server error.
#[derive(Debug, Clone)]
pub enum AppError {
    NotFound(String),
    BadRequest(String),
    Io(String),
    Database(String),
    Python(String),
    Strategy(String),
    Internal(String),
}

/// Body of an HTTP error reply.
#[derive(Debug, Clone)]
pub struct ErrorResponse {
    pub error: String,
    pub message: String,
}

impl AppError {
    /// HTTP status code of this error kind.
    pub fn status_code(&self) -> (r: u16)
        ensures
            r == 404 <==> self is NotFound,
            r == 400 <==> self is BadRequest,
            r == 404 || r == 400 || r == 500,
    {
        match self {
            AppError::NotFound(_) => 404,
            AppError::BadRequest(_) => 400,
            AppError::Io(_) => 500,
            AppError::Database(_) => 500,
            AppError::Python(_) => 500,
            AppError::Strategy(_) => 500,
            AppError::Internal(_) => 500,
        }
    }

    /// The kind name `kind_name` returns for each variant.
    pub open spec fn spec_kind(&self) -> Seq<char> {
        match self {
            AppError::NotFound(_) => "NotFound"@,
            AppError::BadRequest(_) => "BadRequest"@,
            AppError::Io(_) => "IO"@,
            AppError::Database(_) => "Database"@,
            AppError::Python(_) => "Python"@,
            AppError::Strategy(_) => "Strategy"@,
            AppError::Internal(_) => "Internal"@,
        }
    }

    /// Name of the error kind, as used in the HTTP error body.
    pub fn kind_name(&self) -> (r: String)
        ensures
            r@ == self.spec_kind(),
    {
        match self {
            AppError::NotFound(_) => "NotFound".to_owned(),
            AppError::BadRequest(_) => "BadRequest".to_owned(),
            AppError::Io(_) => "IO".to_owned(),
            AppError::Database(_) => "Database".to_owned(),
            AppError::Python(_) => "Python".to_owned(),
            AppError::Strategy(_) => "Strategy".to_owned(),
            AppError::Internal(_) => "Internal".to_owned(),
        }
    }

    /// The message carried by this error.
    pub open spec fn spec_message(&self) -> Seq<char> {
        match self {
            AppError::NotFound(m) => m@,
            AppError::BadRequest(m) => m@,
            AppError::Io(m) => m@,
            AppError::Database(m) => m@,
            AppError::Python(m) => m@,
            AppError::Strategy(m) => m@,
            AppError::Internal(m) => m@,
        }
    }

    /// The message carried by this error.
    pub fn message(&self) -> (r: String)
        ensures
            r@ == self.spec_message(),
    {
        match self {
            AppError::NotFound(m) => m.clone(),
            AppError::BadRequest(m) => m.clone(),
            AppError::Io(m) => m.clone(),
            AppError::Database(m) => m.clone(),
            AppError::Python(m) => m.clone(),
            AppError::Strategy(m) => m.clone(),
            AppError::Internal(m) => m.clone(),
        }
    }

    /// The HTTP error body for this error: its kind name and its
    /// message.
    pub fn to_response(&self) -> (r: ErrorResponse)
        ensures
            r.error@ == self.spec_kind(),
            r.message@ == self.spec_message(),
    {
        ErrorResponse { error: self.kind_name(), message: self.message() }
    }
}

pub type AppResult<T> = Result<T, AppError>;

} // verus!
