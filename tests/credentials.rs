use truelink::{
    bearer_token, is_valid_email, validate_login, validate_registration, ApiError, AuthService,
    ConnectionStatus, CreateUserRequest, LoginRequest, TokenError, CLOCK_LEEWAY_SECS,
    TOKEN_LIFETIME_SECS,
};

fn service() -> AuthService {
    AuthService::new("test-signing-secret".to_string())
}

#[test]
fn status_codes_follow_error_kinds() {
    assert_eq!(ApiError::Validation.status_code(), 400);
    assert_eq!(ApiError::BadRequest.status_code(), 400);
    assert_eq!(ApiError::Unauthorized.status_code(), 401);
    assert_eq!(ApiError::NotFound.status_code(), 404);
    assert_eq!(ApiError::Conflict.status_code(), 409);
    assert_eq!(ApiError::Internal.status_code(), 500);
}

#[test]
fn status_text_is_lower_case() {
    assert_eq!(ConnectionStatus::Pending.as_text(), "pending");
    assert_eq!(ConnectionStatus::Accepted.as_text(), "accepted");
    assert_eq!(ConnectionStatus::Rejected.as_text(), "rejected");
    assert!(!ConnectionStatus::Pending.is_response());
    assert!(ConnectionStatus::Accepted.is_response());
    assert!(ConnectionStatus::Rejected.is_response());
}

#[test]
fn email_format_is_checked() {
    assert!(is_valid_email("a@x.com"));
    assert!(!is_valid_email("not-an-email"));
    assert!(!is_valid_email(""));
    assert!(!is_valid_email("a@"));
}

#[test]
fn registration_input_limits() {
    let ok = CreateUserRequest {
        email: "a@x.com".to_string(),
        full_name: "Al".to_string(),
        password: "12345678".to_string(),
    };
    assert_eq!(validate_registration(&ok), Ok(()));
    let short_name = CreateUserRequest { full_name: "A".to_string(), ..ok };
    assert_eq!(validate_registration(&short_name), Err(ApiError::Validation));
    let short_password = CreateUserRequest {
        email: "a@x.com".to_string(),
        full_name: "Alice".to_string(),
        password: "1234567".to_string(),
    };
    assert_eq!(validate_registration(&short_password), Err(ApiError::Validation));
    let bad_email = CreateUserRequest {
        email: "alice".to_string(),
        full_name: "Alice".to_string(),
        password: "12345678".to_string(),
    };
    assert_eq!(validate_registration(&bad_email), Err(ApiError::Validation));
}

#[test]
fn login_input_limits() {
    let ok = LoginRequest { email: "a@x.com".to_string(), password: "123456".to_string() };
    assert_eq!(validate_login(&ok), Ok(()));
    let short = LoginRequest { email: "a@x.com".to_string(), password: "12345".to_string() };
    assert_eq!(validate_login(&short), Err(ApiError::Validation));
    let bad = LoginRequest { email: "ax.com".to_string(), password: "123456".to_string() };
    assert_eq!(validate_login(&bad), Err(ApiError::Validation));
}

#[test]
fn hashed_password_verifies_and_others_do_not() {
    let auth = service();
    let hash = auth.hash_password("pw123456").unwrap();
    assert_ne!(hash, "pw123456");
    assert!(hash.starts_with("$argon2"));
    assert_eq!(auth.verify_password("pw123456", &hash), Ok(true));
    assert_eq!(auth.verify_password("pw1234567", &hash), Ok(false));
}

#[test]
fn hashing_twice_uses_fresh_salts() {
    let auth = service();
    let a = auth.hash_password("pw123456").unwrap();
    let b = auth.hash_password("pw123456").unwrap();
    assert_ne!(a, b);
}

#[test]
fn malformed_hash_is_an_error() {
    let auth = service();
    assert!(auth.verify_password("pw123456", "not a phc string").is_err());
    assert!(auth.verify_password("pw123456", "").is_err());
}

#[test]
fn issued_token_validates_to_its_claims() {
    let auth = service();
    let now = 1_700_000_000u64;
    let token = auth.issue_token_at(42, "a@x.com", now).unwrap();
    assert_eq!(token.split('.').count(), 3);
    let claims = auth.validate_token_at(&token, now + 10).unwrap();
    assert_eq!(claims.sub, 42);
    assert_eq!(claims.email, "a@x.com");
    assert_eq!(claims.exp, now + TOKEN_LIFETIME_SECS);
    let at_limit = auth.validate_token_at(&token, now + TOKEN_LIFETIME_SECS + CLOCK_LEEWAY_SECS);
    assert!(at_limit.is_ok());
}

#[test]
fn expired_token_is_reported_as_expired() {
    let auth = service();
    let now = 1_700_000_000u64;
    let token = auth.issue_token_at(42, "a@x.com", now).unwrap();
    let late = now + TOKEN_LIFETIME_SECS + CLOCK_LEEWAY_SECS + 1;
    assert_eq!(auth.validate_token_at(&token, late), Err(TokenError::Expired));
}

#[test]
fn foreign_or_garbled_token_is_invalid() {
    let auth = service();
    let other = AuthService::new("another-secret".to_string());
    let token = other.issue_token_at(7, "b@x.com", 1_700_000_000).unwrap();
    assert_eq!(auth.validate_token_at(&token, 1_700_000_000), Err(TokenError::Invalid));
    assert_eq!(auth.validate_token_at("abc.def.ghi", 1_700_000_000), Err(TokenError::Invalid));
    assert_eq!(auth.validate_token_at("", 1_700_000_000), Err(TokenError::Invalid));
}

#[test]
fn generated_token_validates_now() {
    let auth = service();
    let token = auth.generate_token(9, "c@x.com").unwrap();
    let claims = auth.validate_token(&token).unwrap();
    assert_eq!(claims.sub, 9);
    assert_eq!(claims.email, "c@x.com");
}

#[test]
fn bearer_prefix_is_stripped() {
    assert_eq!(bearer_token("Bearer abc.def"), "abc.def");
    assert_eq!(bearer_token("Bearer "), "");
    assert_eq!(bearer_token("Basic abc"), "");
    assert_eq!(bearer_token("bearer abc"), "");
    assert_eq!(bearer_token("Bear"), "");
}

#[test]
fn authorization_resolves_or_stays_anonymous() {
    let auth = service();
    let now = 1_700_000_000u64;
    let token = auth.issue_token_at(5, "d@x.com", now).unwrap();
    let header = format!("Bearer {}", token);
    assert_eq!(auth.user_id_from_authorization_at(Some(&header), now), Some(5));
    assert_eq!(auth.user_id_from_authorization_at(None, now), None);
    assert_eq!(auth.user_id_from_authorization_at(Some("Bearer "), now), None);
    assert_eq!(auth.user_id_from_authorization_at(Some(&token), now), None);
    assert_eq!(auth.user_id_from_authorization_at(Some("Bearer junk"), now), None);
    let late = now + TOKEN_LIFETIME_SECS + CLOCK_LEEWAY_SECS + 1;
    assert_eq!(auth.user_id_from_authorization_at(Some(&header), late), None);
    let fresh = auth.generate_token(6, "e@x.com").unwrap();
    let fresh_header = format!("Bearer {}", fresh);
    assert_eq!(auth.user_id_from_authorization(Some(&fresh_header)), Some(6));
}

#[test]
fn empty_password_still_hashes() {
    let auth = service();
    let hash = auth.hash_password("").unwrap();
    assert_eq!(auth.verify_password("", &hash), Ok(true));
    assert_eq!(auth.verify_password("x", &hash), Ok(false));
}

#[test]
fn clock_reads_after_the_epoch() {
    let now = truelink::now_secs();
    assert!(now > 1_600_000_000);
    assert!(now <= i64::MAX as u64);
}

#[test]
fn hash_under_a_given_salt_is_fixed_and_carries_it() {
    let auth = service();
    let salt_a = "c2FsdHNhbHRzYWx0c2FsdA";
    let salt_b = "YW5vdGhlcnNhbHR2YWx1ZQ";
    let a1 = auth.hash_password_with_salt("pw123456", salt_a).unwrap();
    let a2 = auth.hash_password_with_salt("pw123456", salt_a).unwrap();
    let b = auth.hash_password_with_salt("pw123456", salt_b).unwrap();
    assert_eq!(a1, a2);
    assert_ne!(a1, b);
    assert!(a1.starts_with("$argon2id$v=19$m=19456,t=2,p=1$"));
    assert!(a1.contains(salt_a));
    assert_eq!(auth.verify_password("pw123456", &a1), Ok(true));
    assert_eq!(auth.verify_password("other-pass", &b), Ok(false));
}

#[test]
fn hash_refuses_a_salt_that_is_not_b64() {
    let auth = service();
    assert!(auth.hash_password_with_salt("pw123456", "").is_err());
    assert!(auth.hash_password_with_salt("pw123456", "bad$salt!").is_err());
}
