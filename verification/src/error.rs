//! The errors that the authentication service reports to the HTTP layer.

use vstd::prelude::*;
use crate::text::{join2, owned};

verus! {

/// An error of the authentication service, as the handlers tell them apart.
#[derive(Debug)]
pub enum AuthError {
    /// Signing up with an identifier that is already taken.
    UserAlreadyExists,
    /// Logging in with a wrong identifier or password.
    InvalidCredentials,
    /// Signing up failed for the reason given.
    SignupError(String),
    /// A request carried an unusable value.
    InvalidInput(String),
    /// A token could not be decoded or verified.
    InvalidToken(String),
    /// A token was valid but has expired.
    TokenExpired,
    /// Checking a token failed for the reason given.
    TokenValidation(String),
    /// Any other failure of the service.
    Internal(String),
}

impl AuthError {
    /// The human-readable text of the error, as `to_string` renders it.
    pub open spec fn spec_message(&self) -> Seq<char> {
        match self {
            AuthError::UserAlreadyExists => "User already exists"@,
            AuthError::InvalidCredentials => "Invalid credentials"@,
            AuthError::SignupError(m) => "Signup error: "@ + m@,
            AuthError::InvalidInput(m) => "Invalid input: "@ + m@,
            AuthError::InvalidToken(m) => "Invalid token: "@ + m@,
            AuthError::TokenExpired => "Token expired"@,
            AuthError::TokenValidation(m) => "Token validation error: "@ + m@,
            AuthError::Internal(m) => "Internal error: "@ + m@,
        }
    }

    /// Renders the error as text.
    pub fn message(&self) -> (m: String)
        ensures
            m@ == self.spec_message(),
    {
        match self {
            AuthError::UserAlreadyExists => owned("User already exists"),
            AuthError::InvalidCredentials => owned("Invalid credentials"),
            AuthError::SignupError(m) => join2("Signup error: ", m.as_str()),
            AuthError::InvalidInput(m) => join2("Invalid input: ", m.as_str()),
            AuthError::InvalidToken(m) => join2("Invalid token: ", m.as_str()),
            AuthError::TokenExpired => owned("Token expired"),
            AuthError::TokenValidation(m) => join2("Token validation error: ", m.as_str()),
            AuthError::Internal(m) => join2("Internal error: ", m.as_str()),
        }
    }
}

} // verus!
