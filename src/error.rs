//! The library's error type.
use vstd::prelude::*;

verus! {

/// What went wrong with a request.
#[derive(PartialEq, Eq, Structural, Clone, Copy, Debug)]
pub enum ErrorKind {
    /// The target plant does not exist.
    NotFound,
    /// The request lacks a valid input (no usable upload field).
    BadRequest,
    /// An unexpected failure (persistence, file I/O, a vanished record).
    Internal,
}

/// The error of an operation; details are logged, never shown to callers.
#[derive(PartialEq, Eq, Structural, Clone, Copy, Debug)]
pub struct AppError {
    pub kind: ErrorKind,
}

impl AppError {
    pub fn not_found() -> (r: AppError)
        ensures
            r.kind == ErrorKind::NotFound,
    {
        AppError { kind: ErrorKind::NotFound }
    }

    pub fn bad_request() -> (r: AppError)
        ensures
            r.kind == ErrorKind::BadRequest,
    {
        AppError { kind: ErrorKind::BadRequest }
    }

    pub fn internal() -> (r: AppError)
        ensures
            r.kind == ErrorKind::Internal,
    {
        AppError { kind: ErrorKind::Internal }
    }

    /// The HTTP status code that reports this error.
    pub fn status_code(&self) -> (r: u16)
        ensures
            r == (match self.kind {
                ErrorKind::NotFound => 404u16,
                ErrorKind::BadRequest => 400u16,
                ErrorKind::Internal => 500u16,
            }),
    {
        match self.kind {
            ErrorKind::NotFound => 404,
            ErrorKind::BadRequest => 400,
            ErrorKind::Internal => 500,
        }
    }
}

} // verus!
