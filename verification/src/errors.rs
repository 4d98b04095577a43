//! Typed errors of the two components and the single mapping from each
//! typed error to exactly one outward category. The outward category is
//! what a caller observes; the typed error is what the core computes.

use vstd::prelude::*;

verus! {

/// Errors of the credential/session component.
#[derive(Clone, Copy, Debug, PartialEq, Eq, Structural)]
pub enum UserError {
    /// The name exists but the password does not verify.
    InvalidPassword,
    /// The hashing primitive refused to produce a hash.
    PasswordHashError,
    /// No or no live session was presented where one is required.
    SessionGetError,
    /// The store cannot allocate a fresh identifier.
    StorageError,
    /// Sign-up with a name that already exists.
    UserAlreadyExists,
    /// Log-in with a name that does not exist.
    UserNotFound,
}

/// Errors of the project/group component.
#[derive(Clone, Copy, Debug, PartialEq, Eq, Structural)]
pub enum ProjectError {
    /// The caller's tier does not permit the operation.
    Forbidden,
    /// The referenced project or group does not exist.
    ProjectDoesNotExistError,
    /// No or no live session was presented where one is required.
    SessionGetError,
    /// The store cannot allocate a fresh identifier.
    StorageError,
}

/// The outward categories: every typed error maps to exactly one of
/// these, and nothing finer ever reaches a caller.
#[derive(Clone, Copy, Debug, PartialEq, Eq, Structural)]
pub enum OutwardError {
    /// No valid session: the caller must authenticate first.
    Unauthenticated,
    /// A valid session whose tier does not permit the operation.
    Forbidden,
    /// The referenced resource does not exist.
    NotFound,
    /// A uniqueness constraint was violated (duplicate account name).
    Conflict,
    /// An unexpected persistence failure, never detailed to the caller.
    Internal,
}

/// The outward category of each credential/session error. An unknown
/// name and a wrong password map to the same category, so the outward
/// signal is no username-enumeration oracle.
pub open spec fn spec_user_error_outward(e: UserError) -> OutwardError {
    match e {
        UserError::InvalidPassword => OutwardError::Unauthenticated,
        UserError::SessionGetError => OutwardError::Unauthenticated,
        UserError::UserNotFound => OutwardError::Unauthenticated,
        UserError::UserAlreadyExists => OutwardError::Conflict,
        UserError::PasswordHashError => OutwardError::Internal,
        UserError::StorageError => OutwardError::Internal,
    }
}

/// Mapping table of the credential/session component.
pub fn user_error_outward(e: UserError) -> (r: OutwardError)
    ensures
        r == spec_user_error_outward(e),
{
    match e {
        UserError::InvalidPassword => OutwardError::Unauthenticated,
        UserError::SessionGetError => OutwardError::Unauthenticated,
        UserError::UserNotFound => OutwardError::Unauthenticated,
        UserError::UserAlreadyExists => OutwardError::Conflict,
        UserError::PasswordHashError => OutwardError::Internal,
        UserError::StorageError => OutwardError::Internal,
    }
}

/// The outward category of each project/group error.
pub open spec fn spec_project_error_outward(e: ProjectError) -> OutwardError {
    match e {
        ProjectError::ProjectDoesNotExistError => OutwardError::NotFound,
        ProjectError::SessionGetError => OutwardError::Unauthenticated,
        ProjectError::Forbidden => OutwardError::Forbidden,
        ProjectError::StorageError => OutwardError::Internal,
    }
}

/// Mapping table of the project/group component.
pub fn project_error_outward(e: ProjectError) -> (r: OutwardError)
    ensures
        r == spec_project_error_outward(e),
{
    match e {
        ProjectError::ProjectDoesNotExistError => OutwardError::NotFound,
        ProjectError::SessionGetError => OutwardError::Unauthenticated,
        ProjectError::Forbidden => OutwardError::Forbidden,
        ProjectError::StorageError => OutwardError::Internal,
    }
}

/// The HTTP status each outward category is surfaced as.
pub open spec fn spec_status_code(e: OutwardError) -> u16 {
    match e {
        OutwardError::Unauthenticated => 401,
        OutwardError::Forbidden => 403,
        OutwardError::NotFound => 404,
        OutwardError::Conflict => 409,
        OutwardError::Internal => 500,
    }
}

impl OutwardError {
    /// The HTTP status this category is surfaced as.
    pub fn status_code(&self) -> (r: u16)
        ensures
            r == spec_status_code(*self),
    {
        match self {
            OutwardError::Unauthenticated => 401,
            OutwardError::Forbidden => 403,
            OutwardError::NotFound => 404,
            OutwardError::Conflict => 409,
            OutwardError::Internal => 500,
        }
    }
}

} // verus!
