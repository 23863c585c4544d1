//! What the service answers: the status and body of the reply to each
//! outcome of an operation.

use crate::error::ServiceError;
use crate::models::{public_part, AuthResponse, User, UserResponse, UserResponseView};
use crate::store::{user_by_id, Store};
use vstd::prelude::*;
use vstd::string::StringExecFns;

verus! {

/// A reply: its status code and its body, which is either what was asked
/// for or the message of an error.
#[derive(Debug)]
pub struct Reply<T> {
    pub status: u16,
    pub body: Result<T, String>,
}

/// The status that goes with each kind of failure: 400 for what the
/// request itself got wrong, 401 for what concerns the caller's identity,
/// 404 for what is not there, 500 for what failed inside.
pub open spec fn status_of(error: ServiceError) -> u16 {
    match error {
        ServiceError::DuplicateEmail => 400,
        ServiceError::InvalidQuery => 400,
        ServiceError::MissingFields => 400,
        ServiceError::InvalidCredentials => 401,
        ServiceError::InvalidToken => 401,
        ServiceError::MalformedSubject => 401,
        ServiceError::MissingAuthorization => 401,
        ServiceError::MalformedAuthorization => 401,
        ServiceError::NotFound => 404,
        ServiceError::StorageError => 500,
        ServiceError::HashingError => 500,
        ServiceError::VerificationError => 500,
        ServiceError::SigningError => 500,
    }
}

/// The status code of a failure.
pub fn status_code(error: ServiceError) -> (status: u16)
    ensures
        status == status_of(error),
{
    match error {
        ServiceError::DuplicateEmail => 400,
        ServiceError::InvalidQuery => 400,
        ServiceError::MissingFields => 400,
        ServiceError::InvalidCredentials => 401,
        ServiceError::InvalidToken => 401,
        ServiceError::MalformedSubject => 401,
        ServiceError::MissingAuthorization => 401,
        ServiceError::MalformedAuthorization => 401,
        ServiceError::NotFound => 404,
        ServiceError::StorageError => 500,
        ServiceError::HashingError => 500,
        ServiceError::VerificationError => 500,
        ServiceError::SigningError => 500,
    }
}

/// Whether `reply` reports the failure `error`: with its status and its
/// message.
pub open spec fn reports<T>(reply: Reply<T>, error: ServiceError) -> bool {
    &&& reply.status == status_of(error)
    &&& reply.body matches Err(message)
    &&& message@ == error.message_text()
}

/// The reply to a failure.
pub fn failure_reply<T>(error: ServiceError) -> (reply: Reply<T>)
    ensures
        reports(reply, error),
{
    Reply { status: status_code(error), body: Err(error.message()) }
}

/// The reply to an operation that creates something: 201 with what was
/// created, or the report of the failure.
pub fn created_reply<T>(result: Result<T, ServiceError>) -> (reply: Reply<T>)
    ensures
        match result {
            Ok(value) => reply.status == 201 && reply.body == Ok::<T, String>(value),
            Err(e) => reports(reply, e),
        },
{
    match result {
        Ok(value) => Reply { status: 201, body: Ok(value) },
        Err(e) => failure_reply(e),
    }
}

/// The reply to an operation that reads or changes something: 200 with the
/// result, or the report of the failure.
pub fn ok_reply<T>(result: Result<T, ServiceError>) -> (reply: Reply<T>)
    ensures
        match result {
            Ok(value) => reply.status == 200 && reply.body == Ok::<T, String>(value),
            Err(e) => reports(reply, e),
        },
{
    match result {
        Ok(value) => Reply { status: 200, body: Ok(value) },
        Err(e) => failure_reply(e),
    }
}

/// The reply to a lookup: 200 with what was found, 404 with the given
/// message where nothing was, or the report of the failure.
pub fn found_reply<T>(result: Result<Option<T>, ServiceError>, missing: &str) -> (reply: Reply<T>)
    ensures
        match result {
            Ok(Some(value)) => reply.status == 200 && reply.body == Ok::<T, String>(value),
            Ok(None) => reply.status == 404 && (reply.body matches Err(message) && message@
                == missing@),
            Err(e) => reports(reply, e),
        },
{
    match result {
        Ok(Some(value)) => Reply { status: 200, body: Ok(value) },
        Ok(None) => Reply { status: 404, body: Err(String::from_str(missing)) },
        Err(e) => failure_reply(e),
    }
}

/// What a login or a registration answers on success: the token and the
/// user without the password hash.
pub fn auth_response(outcome: Result<(String, User), ServiceError>) -> (r: Result<
    AuthResponse,
    ServiceError,
>)
    ensures
        match outcome {
            Ok((token, user)) => r matches Ok(response) && response.token == token
                && response.user@ == public_part(user@),
            Err(e) => r == Err::<AuthResponse, ServiceError>(e),
        },
{
    match outcome {
        Ok((token, user)) => Ok(AuthResponse { token, user: UserResponse::from(user) }),
        Err(e) => Err(e),
    }
}

/// The view of an optional public user.
pub open spec fn user_response_option_view(u: Option<UserResponse>) -> Option<UserResponseView> {
    match u {
        Some(x) => Some(x@),
        None => None,
    }
}

/// The public part of the user with the given identifier, where there is
/// one.
pub fn current_user(store: &Store, user_id: u128) -> (r: Option<UserResponse>)
    ensures
        user_response_option_view(r) == match user_by_id(store@.users, user_id) {
            Some(user) => Some(public_part(user)),
            None => None,
        },
{
    match store.find_user(user_id) {
        Some(user) => Some(UserResponse::from(user)),
        None => None,
    }
}

} // verus!
