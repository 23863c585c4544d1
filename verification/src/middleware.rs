//! Reading the identity of a caller: the bearer token of a request and the
//! claims that a token carries.

use crate::error::ServiceError;
use crate::ids::{read_id, uuid_parse, uuid_text};
use crate::text::{chars_of, optional_text, push_char};
use crate::utils::{expiry_of, issued_to, signed_token, token_at};
use vstd::prelude::*;

verus! {

/// What a token states: the user it was issued to, as the text of the user's
/// identifier, and the second (since the start of 1970) at which it expires.
#[derive(Debug)]
pub struct Claims {
    pub sub: String,
    pub exp: usize,
}

/// The two claims as a decoded token holds them: each is absent where the
/// token does not carry it in the expected form.
#[derive(Debug)]
pub struct DecodedClaims {
    pub sub: Option<String>,
    pub exp: Option<u64>,
}

#[verifier::external_type_specification]
#[verifier::external_body]
pub struct ExTokenError(jsonwebtoken::errors::Error);

/// The subject and the expiry that `jsonwebtoken::decode` reads from a token
/// that it accepts under `secret`, each absent where the token does not
/// carry it as a text or as a whole number.
pub uninterp spec fn token_claims(token: Seq<char>, secret: Seq<char>) -> (
    Option<Seq<char>>,
    Option<u64>,
);

/// Checks and decodes a token with `jsonwebtoken::decode`, for the HS256
/// algorithm and the default validation: the signature must be that of
/// `secret` and the expiry must not lie in the past. Whether the token is
/// accepted depends on the clock; the claims of an accepted token are those
/// that the token carries, whenever it is accepted. Where the token is one
/// that `jsonwebtoken::encode` made of a subject and an expiry under the
/// same secret, the claims of the accepted token are that subject and that
/// expiry.
#[verifier::external_body]
fn decode_token(token: &str, secret: &str) -> (r: Result<
    DecodedClaims,
    jsonwebtoken::errors::Error,
>)
    ensures
        r matches Ok(decoded) ==> (optional_text(decoded.sub), decoded.exp) == token_claims(
            token@,
            secret@,
        ),
        r matches Ok(decoded) ==> forall|subject: Seq<char>, expiry: nat|
            expiry <= u64::MAX && #[trigger] signed_token(subject, expiry, secret@) == Some(
                token@,
            ) ==> optional_text(decoded.sub) == Some(subject) && decoded.exp == Some(
                expiry as u64,
            ),
{
    let data = jsonwebtoken::decode::<serde_json::Value>(
        token,
        &jsonwebtoken::DecodingKey::from_secret(secret.as_bytes()),
        &jsonwebtoken::Validation::default(),
    )?;
    Ok(
        DecodedClaims {
            sub: data.claims.get("sub").and_then(|v| v.as_str()).map(|s| s.to_string()),
            exp: data.claims.get("exp").and_then(|v| v.as_u64()),
        },
    )
}

/// The claims of a decoded token, where both are there and the expiry fits.
pub fn claims_of(decoded: DecodedClaims) -> (r: Option<Claims>)
    ensures
        match r {
            Some(c) => decoded.sub == Some(c.sub) && decoded.exp == Some(c.exp as u64),
            None => decoded.sub is None || decoded.exp is None || decoded.exp->0 > usize::MAX,
        },
{
    match decoded.sub {
        Some(sub) => match decoded.exp {
            Some(exp) => if exp <= usize::MAX as u64 {
                Some(Claims { sub, exp: exp as usize })
            } else {
                None
            },
            None => None,
        },
        None => None,
    }
}

/// The user that accepted claims name: `InvalidToken` where no claims were
/// accepted, `MalformedSubject` where the subject is not the text of an
/// identifier.
pub open spec fn subject_result(subject: Option<Seq<char>>) -> Result<u128, ServiceError> {
    match subject {
        None => Err(ServiceError::InvalidToken),
        Some(text) => match uuid_parse(text) {
            Some(id) => Ok(id),
            None => Err(ServiceError::MalformedSubject),
        },
    }
}

/// The subject of optional claims.
pub open spec fn subject_text(claims: Option<Claims>) -> Option<Seq<char>> {
    match claims {
        Some(c) => Some(c.sub@),
        None => None,
    }
}

/// The user that the claims of an accepted token name. Claims whose subject
/// is the text of an identifier name that identifier.
pub fn subject_of(claims: Option<Claims>) -> (r: Result<u128, ServiceError>)
    ensures
        r == subject_result(subject_text(claims)),
        forall|id: u128| subject_text(claims) == Some(uuid_text(id)) ==> r == Ok::<u128, ServiceError>(id),
{
    match claims {
        None => Err(ServiceError::InvalidToken),
        Some(c) => match read_id(c.sub.as_str()) {
            Some(id) => Ok(id),
            None => Err(ServiceError::MalformedSubject),
        },
    }
}

/// The subject of decoded claims, where both claims are there and the
/// expiry fits in a `usize`.
pub open spec fn accepted_subject(decoded: (Option<Seq<char>>, Option<u64>)) -> Option<
    Seq<char>,
> {
    if decoded.0 is Some && decoded.1 is Some && decoded.1->0 <= usize::MAX {
        decoded.0
    } else {
        None
    }
}

/// The user that a token names. The token must carry the signature of
/// `secret` and must not have expired, else `InvalidToken`. The result is
/// then what the claims that the token carries give: the identifier that
/// the subject writes, `InvalidToken` where a claim is missing, or
/// `MalformedSubject` where the subject is not the text of an identifier.
/// An accepted token whose subject is the text of an identifier names that
/// identifier. A token that was issued to a user under the same secret
/// names that user and no other: it validates to that user unless it is
/// refused.
pub fn validate_jwt(token: &str, secret: &str) -> (r: Result<u128, ServiceError>)
    ensures
        r == Err::<u128, ServiceError>(ServiceError::InvalidToken) || r == subject_result(
            accepted_subject(token_claims(token@, secret@)),
        ),
        forall|id: u128|
            r != Err::<u128, ServiceError>(ServiceError::InvalidToken) && accepted_subject(
                token_claims(token@, secret@),
            ) == Some(uuid_text(id)) ==> r == Ok::<u128, ServiceError>(id),
        forall|id: u128| #[trigger]
            issued_to(token@, id, secret@) ==> r == Ok::<u128, ServiceError>(id) || r == Err::<
                u128,
                ServiceError,
            >(ServiceError::InvalidToken),
{
    let claims = match decode_token(token, secret) {
        Ok(decoded) => {
            let ghost subject = optional_text(decoded.sub);
            let ghost expiry = decoded.exp;
            let claims = claims_of(decoded);
            proof {
                assert forall|id: u128| #[trigger]
                    issued_to(token@, id, secret@) implies subject_text(claims) == Some(
                    uuid_text(id),
                ) by {
                    let now = choose|now: i64| #[trigger]
                        token_at(id, secret@, now) == Some(token@);
                    assert(signed_token(uuid_text(id), expiry_of(now) as nat, secret@) == Some(
                        token@,
                    ));
                }
            }
            claims
        },
        Err(_) => None,
    };
    subject_of(claims)
}

/// The text that stands before the token in an authorization header.
pub open spec fn bearer_prefix() -> Seq<char> {
    seq!['B', 'e', 'a', 'r', 'e', 'r', ' ']
}

/// The token of an authorization header: what follows `Bearer `.
pub open spec fn bearer_result(header: Option<Seq<char>>) -> Result<Seq<char>, ServiceError> {
    match header {
        None => Err(ServiceError::MissingAuthorization),
        Some(h) => if h.len() >= 7 && h.take(7) == bearer_prefix() {
            Ok(h.skip(7))
        } else {
            Err(ServiceError::MalformedAuthorization)
        },
    }
}

/// The characters of an optional string slice.
pub open spec fn header_text(header: Option<&str>) -> Option<Seq<char>> {
    match header {
        Some(h) => Some(h@),
        None => None,
    }
}

/// Takes the token out of an authorization header.
pub fn bearer_token(header: Option<&str>) -> (r: Result<String, ServiceError>)
    ensures
        match r {
            Ok(token) => bearer_result(header_text(header)) == Ok::<Seq<char>, ServiceError>(
                token@,
            ),
            Err(e) => bearer_result(header_text(header)) == Err::<Seq<char>, ServiceError>(e),
        },
{
    match header {
        None => Err(ServiceError::MissingAuthorization),
        Some(h) => {
            let v = chars_of(h);
            if v.len() < 7 || v[0] != 'B' || v[1] != 'e' || v[2] != 'a' || v[3] != 'r' || v[4]
                != 'e' || v[5] != 'r' || v[6] != ' ' {
                proof {
                    if v@.len() >= 7 {
                        let p = v@.take(7);
                        assert(p[0] == v@[0] && p[1] == v@[1] && p[2] == v@[2] && p[3] == v@[3]
                            && p[4] == v@[4] && p[5] == v@[5] && p[6] == v@[6]);
                    }
                }
                return Err(ServiceError::MalformedAuthorization);
            }
            assert(v@.take(7) =~= bearer_prefix());
            let mut token: String = String::new();
            let mut i: usize = 7;
            while i < v.len()
                invariant
                    7 <= i <= v@.len(),
                    token@ == v@.subrange(7, i as int),
                decreases v@.len() - i,
            {
                push_char(&mut token, v[i]);
                i = i + 1;
            }
            assert(v@.subrange(7, i as int) =~= v@.skip(7));
            Ok(token)
        },
    }
}

/// The user that a request's authorization header names. The header must be
/// there and of the bearer form before the token is looked at; the token is
/// what follows `Bearer `, unchanged, and the result is what validating that
/// token under `secret` gives.
pub fn authenticate(header: Option<&str>, secret: &str) -> (r: Result<u128, ServiceError>)
    ensures
        bearer_result(header_text(header)) matches Err(e) ==> r == Err::<u128, ServiceError>(e),
        bearer_result(header_text(header)) matches Ok(token) ==> (r == Err::<u128, ServiceError>(
            ServiceError::InvalidToken,
        ) || r == subject_result(accepted_subject(token_claims(token, secret@)))),
        forall|id: u128|
            (bearer_result(header_text(header)) matches Ok(token) && r != Err::<
                u128,
                ServiceError,
            >(ServiceError::InvalidToken) && accepted_subject(token_claims(token, secret@))
                == Some(uuid_text(id))) ==> r == Ok::<u128, ServiceError>(id),
        forall|id: u128|
            bearer_result(header_text(header)) is Ok && #[trigger] issued_to(
                bearer_result(header_text(header))->Ok_0,
                id,
                secret@,
            ) ==> r == Ok::<u128, ServiceError>(id) || r == Err::<u128, ServiceError>(
                ServiceError::InvalidToken,
            ),
{
    match bearer_token(header) {
        Ok(token) => validate_jwt(token.as_str(), secret),
        Err(e) => Err(e),
    }
}

} // verus!
