use music_library::error::ServiceError;
use music_library::ids::id_text;
use music_library::middleware::{
    authenticate, bearer_token, claims_of, subject_of, validate_jwt, Claims, DecodedClaims,
};
use music_library::utils::{claims_for, create_jwt_token, issue_token_at, TOKEN_LIFETIME_SECONDS};

const SECRET: &str = "a secret for tests";
const ALICE: u128 = 0x550e8400_e29b_41d4_a716_446655440000;

fn now_micros() -> i64 {
    chrono::Utc::now().timestamp_micros()
}

fn signed(sub: serde_json::Value, exp: serde_json::Value, secret: &str) -> String {
    let mut body = serde_json::Map::new();
    body.insert("sub".to_string(), sub);
    body.insert("exp".to_string(), exp);
    jsonwebtoken::encode(
        &jsonwebtoken::Header::default(),
        &body,
        &jsonwebtoken::EncodingKey::from_secret(secret.as_bytes()),
    )
    .unwrap()
}

#[test]
fn id_text_is_hyphenated_lower_case_hex() {
    assert_eq!(id_text(ALICE), "550e8400-e29b-41d4-a716-446655440000");
    assert_eq!(id_text(0), "00000000-0000-0000-0000-000000000000");
    assert_eq!(id_text(u128::MAX), "ffffffff-ffff-ffff-ffff-ffffffffffff");
    assert_eq!(id_text(0xABCDEF), "00000000-0000-0000-0000-000000abcdef");
}

#[test]
fn id_text_is_what_the_uuid_crate_writes() {
    for id in [0u128, 1, ALICE, u128::MAX, 0x0123456789abcdef_fedcba9876543210] {
        assert_eq!(id_text(id), uuid::Uuid::from_u128(id).to_string());
    }
    for _ in 0..20 {
        let id = uuid::Uuid::new_v4();
        assert_eq!(id_text(id.as_u128()), id.to_string());
    }
}

#[test]
fn claims_expire_seven_days_after_issuance() {
    assert_eq!(TOKEN_LIFETIME_SECONDS, 7 * 24 * 60 * 60);
    let claims = claims_for(ALICE, 1_700_000_000_000_000).unwrap();
    assert_eq!(claims.sub, "550e8400-e29b-41d4-a716-446655440000");
    assert_eq!(claims.exp, 1_700_604_800);
    let claims = claims_for(ALICE, 1_700_000_000_999_999).unwrap();
    assert_eq!(claims.exp, 1_700_604_800);
    let claims = claims_for(ALICE, 0).unwrap();
    assert_eq!(claims.exp, 604_800);
    let claims = claims_for(ALICE, -1).unwrap();
    assert_eq!(claims.exp, 604_799);
}

#[test]
fn claims_that_cannot_hold_their_expiry_are_refused() {
    assert!(claims_for(ALICE, -604_800_000_001).is_none());
    assert!(claims_for(ALICE, -604_800_000_000).is_some());
    assert!(claims_for(ALICE, i64::MIN).is_none());
    assert!(claims_for(ALICE, i64::MAX).is_some());
}

#[test]
fn fresh_token_validates_to_the_same_user() {
    let token = create_jwt_token(ALICE, SECRET).unwrap();
    assert_ne!(token, SECRET);
    assert_eq!(token.split('.').count(), 3);
    assert_eq!(validate_jwt(&token, SECRET), Ok(ALICE));
    let other = create_jwt_token(7, SECRET).unwrap();
    assert_eq!(validate_jwt(&other, SECRET), Ok(7));
}

#[test]
fn token_issued_at_an_instant_carries_that_expiry() {
    let now = now_micros();
    let token = issue_token_at(ALICE, SECRET, now).unwrap();
    let expected = signed(
        serde_json::Value::from("550e8400-e29b-41d4-a716-446655440000"),
        serde_json::Value::from(now.div_euclid(1_000_000) + 604_800),
        SECRET,
    );
    assert_eq!(token, expected);
    assert_eq!(issue_token_at(ALICE, SECRET, now).unwrap(), token);
}

#[test]
fn token_with_expiry_in_the_past_fails_validation() {
    let token = issue_token_at(ALICE, SECRET, 0).unwrap();
    assert_eq!(validate_jwt(&token, SECRET), Err(ServiceError::InvalidToken));
    let long_ago = now_micros() - 8 * 24 * 60 * 60 * 1_000_000;
    let token = issue_token_at(ALICE, SECRET, long_ago).unwrap();
    assert_eq!(validate_jwt(&token, SECRET), Err(ServiceError::InvalidToken));
}

#[test]
fn token_signed_with_another_secret_is_invalid() {
    let token = create_jwt_token(ALICE, "another secret").unwrap();
    assert_eq!(validate_jwt(&token, SECRET), Err(ServiceError::InvalidToken));
}

#[test]
fn malformed_tokens_are_invalid() {
    assert_eq!(validate_jwt("", SECRET), Err(ServiceError::InvalidToken));
    assert_eq!(validate_jwt("a.b.c", SECRET), Err(ServiceError::InvalidToken));
    assert_eq!(validate_jwt("not a token", SECRET), Err(ServiceError::InvalidToken));
    let token = create_jwt_token(ALICE, SECRET).unwrap();
    let cut = &token[..token.len() - 2];
    assert_eq!(validate_jwt(cut, SECRET), Err(ServiceError::InvalidToken));
}

#[test]
fn token_whose_subject_is_no_identifier_is_malformed() {
    let exp = now_micros() / 1_000_000 + 3600;
    let token = signed(serde_json::Value::from("alice"), serde_json::Value::from(exp), SECRET);
    assert_eq!(validate_jwt(&token, SECRET), Err(ServiceError::MalformedSubject));
}

#[test]
fn token_without_a_textual_subject_is_invalid() {
    let exp = now_micros() / 1_000_000 + 3600;
    let token = signed(serde_json::Value::from(17), serde_json::Value::from(exp), SECRET);
    assert_eq!(validate_jwt(&token, SECRET), Err(ServiceError::InvalidToken));
}

#[test]
fn subject_of_reads_the_identifier() {
    let claims = Claims { sub: "550e8400-e29b-41d4-a716-446655440000".to_string(), exp: 1 };
    assert_eq!(subject_of(Some(claims)), Ok(ALICE));
    let claims = Claims { sub: "550E8400E29B41D4A716446655440000".to_string(), exp: 1 };
    assert_eq!(subject_of(Some(claims)), Ok(ALICE));
    let claims = Claims { sub: "550e8400".to_string(), exp: 1 };
    assert_eq!(subject_of(Some(claims)), Err(ServiceError::MalformedSubject));
    let claims = Claims { sub: String::new(), exp: 1 };
    assert_eq!(subject_of(Some(claims)), Err(ServiceError::MalformedSubject));
    assert_eq!(subject_of(None), Err(ServiceError::InvalidToken));
}

#[test]
fn subject_of_reads_back_every_written_identifier() {
    for id in [0u128, 1, ALICE, u128::MAX] {
        let claims = Claims { sub: id_text(id), exp: 0 };
        assert_eq!(subject_of(Some(claims)), Ok(id));
    }
}

#[test]
fn claims_of_needs_both_claims() {
    let full = DecodedClaims { sub: Some("x".to_string()), exp: Some(5) };
    let claims = claims_of(full).unwrap();
    assert_eq!(claims.sub, "x");
    assert_eq!(claims.exp, 5);
    assert!(claims_of(DecodedClaims { sub: None, exp: Some(5) }).is_none());
    assert!(claims_of(DecodedClaims { sub: Some("x".to_string()), exp: None }).is_none());
    assert!(claims_of(DecodedClaims { sub: None, exp: None }).is_none());
}

#[test]
fn bearer_token_takes_what_follows_the_prefix() {
    assert_eq!(bearer_token(Some("Bearer abc.def.ghi")), Ok("abc.def.ghi".to_string()));
    assert_eq!(bearer_token(Some("Bearer ")), Ok(String::new()));
    assert_eq!(bearer_token(Some("Bearer  x")), Ok(" x".to_string()));
}

#[test]
fn bearer_token_refuses_other_headers() {
    assert_eq!(bearer_token(None), Err(ServiceError::MissingAuthorization));
    assert_eq!(bearer_token(Some("")), Err(ServiceError::MalformedAuthorization));
    assert_eq!(bearer_token(Some("Bearer")), Err(ServiceError::MalformedAuthorization));
    assert_eq!(bearer_token(Some("bearer abc")), Err(ServiceError::MalformedAuthorization));
    assert_eq!(bearer_token(Some("Basic abc")), Err(ServiceError::MalformedAuthorization));
    assert_eq!(bearer_token(Some(" Bearer abc")), Err(ServiceError::MalformedAuthorization));
}

#[test]
fn authenticate_rejects_the_header_before_the_token() {
    assert_eq!(authenticate(None, SECRET), Err(ServiceError::MissingAuthorization));
    assert_eq!(authenticate(Some("Token x"), SECRET), Err(ServiceError::MalformedAuthorization));
    assert_eq!(authenticate(Some("Bearer x"), SECRET), Err(ServiceError::InvalidToken));
    let token = create_jwt_token(ALICE, SECRET).unwrap();
    let header = format!("Bearer {}", token);
    assert_eq!(authenticate(Some(&header), SECRET), Ok(ALICE));
}

#[test]
fn authenticate_validates_the_token_behind_the_prefix() {
    let alice = create_jwt_token(ALICE, SECRET).unwrap();
    let bob = create_jwt_token(7, SECRET).unwrap();
    for (token, id) in [(alice, ALICE), (bob, 7)] {
        let header = format!("Bearer {}", token);
        assert_eq!(authenticate(Some(&header), SECRET), validate_jwt(&token, SECRET));
        assert_eq!(authenticate(Some(&header), SECRET), Ok(id));
        assert_eq!(authenticate(Some(&header), "another"), Err(ServiceError::InvalidToken));
    }
    let exp = now_micros() / 1_000_000 + 3600;
    let odd = signed(serde_json::Value::from("nobody"), serde_json::Value::from(exp), SECRET);
    let header = format!("Bearer {}", odd);
    assert_eq!(authenticate(Some(&header), SECRET), Err(ServiceError::MalformedSubject));
    let padded = format!("Bearer  {}", odd);
    assert_eq!(authenticate(Some(&padded), SECRET), Err(ServiceError::InvalidToken));
}

#[test]
fn tokens_issued_at_any_valid_instant_name_their_user() {
    let now = now_micros();
    for back in [0i64, 1, 3600, 6 * 24 * 3600] {
        let token = issue_token_at(ALICE, SECRET, now - back * 1_000_000).unwrap();
        assert_eq!(validate_jwt(&token, SECRET), Ok(ALICE));
    }
}
