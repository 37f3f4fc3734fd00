//! The error taxonomy of the protocol: every component reports one of a
//! small set of typed failures — a reference that resolves to nothing, a
//! caller without write permission, a malformed request, or a failure of a
//! collaborator (storage, network, parsing).

use vstd::prelude::*;

verus! {

/// Failure of a session check against the local account store.
#[derive(Clone, Debug)]
pub enum UserValidateError {
    Unauthorized(String),
    NotFound(String),
    InternalServerError(String),
}

/// Which credential of a login or registration form was rejected.
#[derive(Clone, Copy, Debug, PartialEq, Eq, Structural)]
pub enum FormAuthError {
    Email,
    Password,
    Username,
}

/// Failure of a login request.
#[derive(Clone, Debug)]
pub enum LoginError {
    BadRequest(String),
    Unauthorized(FormAuthError),
    InternalServerError(String),
}

/// Failure of an account registration.
#[derive(Clone, Debug)]
pub enum RegistrationError {
    Conflict(FormAuthError),
    BadRequest(String),
    InternalServerError(String),
}

/// Failure of a chapter-creation request.
#[derive(Clone, Debug)]
pub enum ChapterCreationError {
    InternalError(String),
    NotFound,
    Unauthorized,
}

/// Failure while listing or dereferencing chapters.
#[derive(Clone, Debug)]
pub enum ChapterError {
    NotFound,
    InternalError(String),
}

/// Failure of a novel-creation request.
#[derive(Clone, Debug)]
pub enum CreateNovelError {
    Unauthorized(String),
    BadRequest(String),
    InternalServerError(String),
}

/// Failure while looking a novel up by reference.
#[derive(Clone, Debug)]
pub enum GetNovelError {
    PermanentRedirect(String),
    WebfingerNotFound,
    NovelNotFound,
    InternalServerError(String),
}

} // verus!
