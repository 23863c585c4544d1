//! The kinds of failure that the services report.

use vstd::prelude::*;
use vstd::string::StringExecFns;

verus! {

/// Why an operation of the library failed.
#[derive(Clone, Copy, Debug, PartialEq, Eq, Structural)]
pub enum ServiceError {
    /// Registration was asked for an email that a user already has.
    DuplicateEmail,
    /// No user has the email, or the password does not match.
    InvalidCredentials,
    /// No song or playlist has the identifier.
    NotFound,
    /// The search term is empty.
    InvalidQuery,
    /// The token's signature, shape or expiry was not accepted.
    InvalidToken,
    /// The token's subject is not a user identifier.
    MalformedSubject,
    /// The store could not hold the row.
    StorageError,
    /// The password could not be hashed.
    HashingError,
    /// The stored password hash could not be read.
    VerificationError,
    /// The token could not be signed.
    SigningError,
    /// The request carries no authorization header.
    MissingAuthorization,
    /// The authorization header is not of the bearer form.
    MalformedAuthorization,
    /// An upload lacks its title, its artist or its audio file.
    MissingFields,
}

impl ServiceError {
    /// The message that goes with each kind of failure.
    pub open spec fn message_text(self) -> Seq<char> {
        match self {
            ServiceError::DuplicateEmail => "User with this email already exists"@,
            ServiceError::InvalidCredentials => "Invalid credentials"@,
            ServiceError::NotFound => "Not found"@,
            ServiceError::InvalidQuery => "Search query is required"@,
            ServiceError::InvalidToken => "Invalid token"@,
            ServiceError::MalformedSubject => "Invalid user ID in token"@,
            ServiceError::StorageError => "Database error"@,
            ServiceError::HashingError => "Password hashing error"@,
            ServiceError::VerificationError => "Password verification error"@,
            ServiceError::SigningError => "Token creation error"@,
            ServiceError::MissingAuthorization => "Missing Authorization header"@,
            ServiceError::MalformedAuthorization => "Invalid Authorization header format"@,
            ServiceError::MissingFields => "Missing required fields: title, artist, and audio file"@,
        }
    }

    /// The message of this failure, as text for a response body.
    pub fn message(&self) -> (text: String)
        ensures
            text@ == self.message_text(),
    {
        match self {
            ServiceError::DuplicateEmail => String::from_str("User with this email already exists"),
            ServiceError::InvalidCredentials => String::from_str("Invalid credentials"),
            ServiceError::NotFound => String::from_str("Not found"),
            ServiceError::InvalidQuery => String::from_str("Search query is required"),
            ServiceError::InvalidToken => String::from_str("Invalid token"),
            ServiceError::MalformedSubject => String::from_str("Invalid user ID in token"),
            ServiceError::StorageError => String::from_str("Database error"),
            ServiceError::HashingError => String::from_str("Password hashing error"),
            ServiceError::VerificationError => String::from_str("Password verification error"),
            ServiceError::SigningError => String::from_str("Token creation error"),
            ServiceError::MissingAuthorization => String::from_str("Missing Authorization header"),
            ServiceError::MalformedAuthorization => String::from_str(
                "Invalid Authorization header format",
            ),
            ServiceError::MissingFields => String::from_str(
                "Missing required fields: title, artist, and audio file",
            ),
        }
    }
}

} // verus!
