//! The failures that the library reports.
use vstd::prelude::*;

verus! {

/// What went wrong, in the terms a caller acts on.
#[derive(Debug, PartialEq, Eq)]
pub enum Error {
    /// A password check failed, or no such account exists.
    WrongCredentials,
    /// No stored session holds the presented string, or its envelope does not open.
    TokenMismatch,
    /// The envelope opened, but the signed assertion inside is invalid or expired.
    Unauthorized,
    /// The named record does not exist.
    NotFound(String),
    /// An account with that email already exists.
    EmailInUse,
    /// The request lacks something it needs.
    BadRequest(String),
    /// A store did not persist the named record.
    StoreData(String),
    /// A stored password hash could not be read or derived.
    PasswordHash,
    /// An assertion could not be signed.
    Jwt,
}

impl Error {
    /// The HTTP status that reports this failure.
    pub fn status_code(&self) -> (r: u16)
        ensures
            r == match self {
                Error::NotFound(_) => 404u16,
                Error::BadRequest(_) => 400u16,
                Error::StoreData(_) | Error::PasswordHash => 500u16,
                _ => 401u16,
            },
    {
        match self {
            Error::NotFound(_) => 404,
            Error::StoreData(_) => 500,
            Error::WrongCredentials => 401,
            Error::TokenMismatch => 401,
            Error::Unauthorized => 401,
            Error::EmailInUse => 401,
            Error::Jwt => 401,
            Error::BadRequest(_) => 400,
            Error::PasswordHash => 500,
        }
    }
}

} // verus!
