//! Password hashing, token issuance and the display of durations.

use crate::error::ServiceError;
use crate::ids::{id_text, uuid_text};
use crate::middleware::Claims;
use crate::text::{append_decimal, decimal_text, push_char, two_column_text};
use vstd::prelude::*;

verus! {

#[verifier::external_type_specification]
#[verifier::external_body]
pub struct ExHashError(bcrypt::BcryptError);

/// Whether a password matches a stored hash, as `bcrypt::verify` decides it;
/// `None` where the hash cannot be read.
pub uninterp spec fn bcrypt_outcome(password: Seq<char>, hash: Seq<char>) -> Option<bool>;

/// The token that `jsonwebtoken::encode` makes of the two claims with the
/// HS256 algorithm and `secret` as the key; `None` where it makes none.
pub uninterp spec fn signed_token(subject: Seq<char>, expiry: nat, secret: Seq<char>) -> Option<
    Seq<char>,
>;

/// Hashes a password with `bcrypt::hash` at the default cost and a random
/// salt. A hash that comes back is one that the password matches.
#[verifier::external_body]
fn bcrypt_hash(password: &str) -> (r: Result<String, bcrypt::BcryptError>)
    ensures
        r matches Ok(h) ==> bcrypt_outcome(password@, h@) == Some(true),
{
    bcrypt::hash(password, bcrypt::DEFAULT_COST)
}

/// Checks a password against a hash with `bcrypt::verify`: the result is
/// that function's decision, an error where it cannot read the hash.
#[verifier::external_body]
fn bcrypt_verify(password: &str, hash: &str) -> (r: Result<bool, bcrypt::BcryptError>)
    ensures
        match r {
            Ok(b) => bcrypt_outcome(password@, hash@) == Some(b),
            Err(_) => bcrypt_outcome(password@, hash@) is None,
        },
{
    bcrypt::verify(password, hash)
}

/// Signs the two claims with `jsonwebtoken::encode`, under the default
/// header (HS256) and `secret` as the key: the result is that function's
/// token, an error where it makes none.
#[verifier::external_body]
fn sign_claims(claims: &Claims, secret: &str) -> (r: Result<String, jsonwebtoken::errors::Error>)
    ensures
        match r {
            Ok(t) => signed_token(claims.sub@, claims.exp as nat, secret@) == Some(t@),
            Err(_) => signed_token(claims.sub@, claims.exp as nat, secret@) is None,
        },
{
    let mut body = serde_json::Map::new();
    body.insert("sub".to_string(), serde_json::Value::from(claims.sub.as_str()));
    body.insert("exp".to_string(), serde_json::Value::from(claims.exp));
    jsonwebtoken::encode(
        &jsonwebtoken::Header::default(),
        &body,
        &jsonwebtoken::EncodingKey::from_secret(secret.as_bytes()),
    )
}

/// The present instant from `chrono::Utc::now`, in microseconds since the
/// start of 1970.
#[verifier::external_body]
pub(crate) fn current_time() -> (now: i64) {
    chrono::Utc::now().timestamp_micros()
}

/// Hashes a password with a fresh salt. The hash is one that the password
/// matches; hashing fails only with `HashingError`.
pub fn hash_password(password: &str) -> (r: Result<String, ServiceError>)
    ensures
        match r {
            Ok(h) => bcrypt_outcome(password@, h@) == Some(true),
            Err(e) => e == ServiceError::HashingError,
        },
{
    match bcrypt_hash(password) {
        Ok(h) => Ok(h),
        Err(_) => Err(ServiceError::HashingError),
    }
}

/// What checking a password against a stored hash gives: whether it
/// matches, or `VerificationError` where the hash cannot be read.
pub open spec fn verification(password: Seq<char>, hash: Seq<char>) -> Result<bool, ServiceError> {
    match bcrypt_outcome(password, hash) {
        Some(b) => Ok(b),
        None => Err(ServiceError::VerificationError),
    }
}

/// Checks a password against a stored hash. A mismatch is `Ok(false)`, not
/// an error.
pub fn verify_password(password: &str, hash: &str) -> (r: Result<bool, ServiceError>)
    ensures
        r == verification(password@, hash@),
{
    match bcrypt_verify(password, hash) {
        Ok(b) => Ok(b),
        Err(_) => Err(ServiceError::VerificationError),
    }
}

/// How long a token stays valid: seven days, in seconds.
pub const TOKEN_LIFETIME_SECONDS: i64 = 604800;

/// The second at which a token issued at `now` (in microseconds) expires.
pub open spec fn expiry_of(now: i64) -> int {
    now as int / 1_000_000 + TOKEN_LIFETIME_SECONDS
}

/// The claims of a token issued to `user_id` at `now`: the subject is the
/// text of the identifier and the expiry lies seven days after `now`. There
/// are none where that second cannot be held.
pub fn claims_for(user_id: u128, now: i64) -> (r: Option<Claims>)
    ensures
        match r {
            Some(c) => c.sub@ == uuid_text(user_id) && c.exp == expiry_of(now),
            None => !(0 <= expiry_of(now) <= usize::MAX),
        },
{
    let seconds: i64 = if now >= 0 {
        now / 1_000_000
    } else {
        (now + 1) / 1_000_000 - 1
    };
    assert(seconds == now as int / 1_000_000);
    let expiry: i64 = seconds + TOKEN_LIFETIME_SECONDS;
    if expiry < 0 || expiry as u64 > usize::MAX as u64 {
        None
    } else {
        Some(Claims { sub: id_text(user_id), exp: expiry as usize })
    }
}

/// The token issued to `user_id` at `now` under `secret`, where there is
/// one.
pub open spec fn token_at(user_id: u128, secret: Seq<char>, now: i64) -> Option<Seq<char>> {
    if 0 <= expiry_of(now) <= usize::MAX {
        signed_token(uuid_text(user_id), expiry_of(now) as nat, secret)
    } else {
        None
    }
}

/// Issues a token to `user_id` at the instant `now`: signed with `secret`,
/// its subject the user's identifier, valid for seven days.
pub fn issue_token_at(user_id: u128, secret: &str, now: i64) -> (r: Result<String, ServiceError>)
    ensures
        match r {
            Ok(t) => token_at(user_id, secret@, now) == Some(t@),
            Err(e) => e == ServiceError::SigningError && token_at(user_id, secret@, now) is None,
        },
{
    match claims_for(user_id, now) {
        Some(claims) => match sign_claims(&claims, secret) {
            Ok(t) => Ok(t),
            Err(_) => Err(ServiceError::SigningError),
        },
        None => Err(ServiceError::SigningError),
    }
}

/// Whether `token` is a token issued to `user_id` under `secret` at some
/// instant.
pub open spec fn issued_to(token: Seq<char>, user_id: u128, secret: Seq<char>) -> bool {
    exists|now: i64| #[trigger] token_at(user_id, secret, now) == Some(token)
}

/// Issues a token to `user_id` now: signed with `secret`, its subject the
/// user's identifier, valid for seven days from the present instant. It
/// fails only with `SigningError`.
pub fn create_jwt_token(user_id: u128, secret: &str) -> (r: Result<String, ServiceError>)
    ensures
        match r {
            Ok(token) => issued_to(token@, user_id, secret@),
            Err(e) => e == ServiceError::SigningError,
        },
{
    let now = current_time();
    issue_token_at(user_id, secret, now)
}

/// The whole minutes in a number of seconds, rounded toward zero.
pub open spec fn whole_minutes(seconds: int) -> int {
    if seconds >= 0 {
        seconds / 60
    } else {
        -((-seconds) / 60)
    }
}

/// The seconds left over beside the whole minutes; they have the sign of
/// `seconds`.
pub open spec fn leftover_seconds(seconds: int) -> int {
    seconds - 60 * whole_minutes(seconds)
}

/// A duration as minutes, a colon, and the seconds in two columns.
pub open spec fn duration_text(seconds: int) -> Seq<char> {
    decimal_text(whole_minutes(seconds)) + seq![':'] + two_column_text(leftover_seconds(seconds))
}

/// Writes a duration in seconds as `minutes:seconds`, the seconds
/// zero-padded to two columns.
pub fn format_duration(seconds: i32) -> (text: String)
    ensures
        text@ == duration_text(seconds as int),
{
    let minutes: i32 = seconds / 60;
    let remaining: i32 = seconds % 60;
    assert(minutes == whole_minutes(seconds as int));
    assert(remaining == leftover_seconds(seconds as int));
    let mut text: String = String::new();
    append_decimal(&mut text, minutes as i64);
    push_char(&mut text, ':');
    if 0 <= remaining && remaining < 10 {
        push_char(&mut text, '0');
    }
    append_decimal(&mut text, remaining as i64);
    assert(text@ =~= duration_text(seconds as int));
    text
}

} // verus!
