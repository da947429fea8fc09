//! The error taxonomy of the service, and its mapping to HTTP status codes
//! and error messages.

use vstd::prelude::*;
use vstd::string::*;

verus! {

/// Why a submitted piece of text was rejected by a validation rule.
#[derive(Clone, Copy, Debug, PartialEq, Eq, Structural)]
pub enum ValidationError {
    /// The text exceeds the maximum tweet length.
    TooLong,
    /// The text is empty.
    Empty,
}

/// Why an authentication attempt was rejected.
#[derive(Clone, Copy, Debug, PartialEq, Eq, Structural)]
pub enum AuthError {
    /// The bearer token is unknown: it was never issued, or it was revoked.
    InvalidToken,
    /// A login named an existing user but the wrong credential.
    BadCredentials,
}

/// Why a change to the follow graph was rejected.
#[derive(Clone, Copy, Debug, PartialEq, Eq, Structural)]
pub enum FollowError {
    /// A user may not follow themselves.
    SelfFollow,
    /// The follow edge already exists; following twice is an error, not a no-op.
    AlreadyFollowing,
    /// There is no edge to remove.
    NotFollowing,
}

/// Every error a request can surface with, mapped to a status code by
/// [`status_code`] and to a message by [`error_message`].
#[derive(Clone, Copy, Debug, PartialEq, Eq, Structural)]
pub enum ApiError {
    /// The request payload did not match the contract's payload shape.
    MalformedRequest,
    /// A domain validation rule was violated.
    Validation(ValidationError),
    /// The request was not, or could not be, authenticated.
    Auth(AuthError),
    /// A change to the follow graph was rejected.
    Follow(FollowError),
    /// The named user does not exist.
    NotFound,
    /// The username is already taken.
    Conflict,
}

/// The HTTP status code each error surfaces with: malformed payloads are 400,
/// validation failures and self-follows 422, authentication failures 401,
/// unknown users 404, and conflicts (duplicate username, duplicate or missing
/// follow edge) 409.
pub fn status_code(e: &ApiError) -> (code: u16)
    ensures
        code == spec_status_code(*e),
{
    match e {
        ApiError::MalformedRequest => 400,
        ApiError::Validation(_) => 422,
        ApiError::Auth(_) => 401,
        ApiError::Follow(FollowError::SelfFollow) => 422,
        ApiError::Follow(_) => 409,
        ApiError::NotFound => 404,
        ApiError::Conflict => 409,
    }
}

/// The status code an error surfaces with; [`status_code`] returns it.
pub open spec fn spec_status_code(e: ApiError) -> u16 {
    match e {
        ApiError::MalformedRequest => 400,
        ApiError::Validation(_) => 422,
        ApiError::Auth(_) => 401,
        ApiError::Follow(FollowError::SelfFollow) => 422,
        ApiError::Follow(_) => 409,
        ApiError::NotFound => 404,
        ApiError::Conflict => 409,
    }
}

/// The human-readable message each error surfaces with;
/// [`error_message`] returns it.
pub open spec fn spec_error_message(e: ApiError) -> Seq<char> {
    match e {
        ApiError::MalformedRequest => "Malformed request"@,
        ApiError::Validation(ValidationError::TooLong) => "Tweet is too long. Max then is 280"@,
        ApiError::Validation(ValidationError::Empty) => "Text must not be empty"@,
        ApiError::Auth(AuthError::InvalidToken) => "Invalid token"@,
        ApiError::Auth(AuthError::BadCredentials) => "Invalid credentials"@,
        ApiError::Follow(FollowError::SelfFollow) => "Cannot follow yourself"@,
        ApiError::Follow(FollowError::AlreadyFollowing) => "Already following"@,
        ApiError::Follow(FollowError::NotFollowing) => "Not following"@,
        ApiError::NotFound => "User not found"@,
        ApiError::Conflict => "Username is taken"@,
    }
}

/// The message that goes into the error envelope for each error.
pub fn error_message(e: &ApiError) -> (msg: String)
    ensures
        msg@ == spec_error_message(*e),
{
    match e {
        ApiError::MalformedRequest => String::from_str("Malformed request"),
        ApiError::Validation(ValidationError::TooLong) => String::from_str(
            "Tweet is too long. Max then is 280",
        ),
        ApiError::Validation(ValidationError::Empty) => String::from_str("Text must not be empty"),
        ApiError::Auth(AuthError::InvalidToken) => String::from_str("Invalid token"),
        ApiError::Auth(AuthError::BadCredentials) => String::from_str("Invalid credentials"),
        ApiError::Follow(FollowError::SelfFollow) => String::from_str("Cannot follow yourself"),
        ApiError::Follow(FollowError::AlreadyFollowing) => String::from_str("Already following"),
        ApiError::Follow(FollowError::NotFollowing) => String::from_str("Not following"),
        ApiError::NotFound => String::from_str("User not found"),
        ApiError::Conflict => String::from_str("Username is taken"),
    }
}

} // verus!
