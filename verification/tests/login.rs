use corp::login::credentials_match;
use corp::login::issue_token;
use corp::login::{
    generate_token, hash_password, login_answer, logout_answer, registration_failure,
    token_answer, token_expiry, token_revoked, validate_login, validate_registration,
    validate_token_request, verify_password, ApiError, PasswordError,
};

#[test]
fn registration_requires_every_field() {
    assert_eq!(validate_registration("", "a@b.c", "secret1"), Err(ApiError::MissingFields));
    assert_eq!(validate_registration("ann", "", "secret1"), Err(ApiError::MissingFields));
    assert_eq!(validate_registration("ann", "a@b.c", ""), Err(ApiError::MissingFields));
}

#[test]
fn registration_requires_six_byte_password() {
    assert_eq!(validate_registration("ann", "a@b.c", "12345"), Err(ApiError::WeakPassword));
    assert_eq!(validate_registration("ann", "a@b.c", "123456"), Ok(()));
    // Three characters of two bytes each make six bytes.
    assert_eq!(validate_registration("ann", "a@b.c", "ééé"), Ok(()));
    assert_eq!(validate_registration("ann", "a@b.c", "éé"), Err(ApiError::WeakPassword));
}

#[test]
fn duplicate_users_are_reported() {
    assert_eq!(
        registration_failure("error returned from database: UNIQUE constraint failed: users.username"),
        ApiError::UserExists
    );
    assert_eq!(registration_failure("database is locked"), ApiError::InternalError);
    assert_eq!(registration_failure("unique constraint failed"), ApiError::InternalError);
}

#[test]
fn login_requires_name_and_password() {
    assert_eq!(validate_login("", "pw"), Err(ApiError::MissingFields));
    assert_eq!(validate_login("ann", ""), Err(ApiError::MissingFields));
    assert_eq!(validate_login("ann", "pw"), Ok(()));
}

#[test]
fn login_answers() {
    assert_eq!(login_answer::<u32, ()>(Ok(Some(7))), Ok(7));
    assert_eq!(login_answer::<u32, ()>(Ok(None)), Err(ApiError::InvalidCredentials));
    assert_eq!(login_answer::<u32, ()>(Err(())), Err(ApiError::InternalError));
}

#[test]
fn token_requests_and_answers() {
    assert_eq!(validate_token_request(""), Err(ApiError::MissingToken));
    assert_eq!(validate_token_request("t"), Ok(()));
    assert_eq!(token_answer::<u32, ()>(Ok(Some(1))), Ok(1));
    assert_eq!(token_answer::<u32, ()>(Ok(None)), Err(ApiError::InvalidToken));
    assert_eq!(token_answer::<u32, ()>(Err(())), Err(ApiError::InternalError));
}

#[test]
fn logout_answers() {
    assert_eq!(logout_answer::<()>(Ok(true)), Ok("Logged out".to_string()));
    assert_eq!(logout_answer::<()>(Ok(false)), Err(ApiError::TokenNotFound));
    assert_eq!(logout_answer::<()>(Err(())), Err(ApiError::InternalError));
    assert!(token_revoked(1));
    assert!(!token_revoked(0));
}

#[test]
fn tokens_expire_after_a_day() {
    assert_eq!(token_expiry(0), 86400);
    assert_eq!(token_expiry(1_700_000_000), 1_700_086_400);
}

#[test]
fn tokens_are_random_v4_uuids() {
    let a = generate_token();
    let b = generate_token();
    assert_eq!(a.len(), 36);
    assert_ne!(a, b);
    let chars: Vec<char> = a.chars().collect();
    for (i, c) in chars.iter().enumerate() {
        if [8, 13, 18, 23].contains(&i) {
            assert_eq!(*c, '-');
        } else {
            assert!(c.is_ascii_hexdigit() && !c.is_ascii_uppercase());
        }
    }
    assert_eq!(chars[14], '4');
    assert!(['8', '9', 'a', 'b'].contains(&chars[19]));
}

#[test]
fn password_hash_round_trip() {
    let hash = hash_password("hunter22").expect("hashing succeeds");
    assert_eq!(hash.len(), 60);
    assert!(hash.starts_with("$2b$12$"));
    assert_eq!(verify_password("hunter22", &hash), Ok(true));
    assert_eq!(verify_password("hunter23", &hash), Ok(false));
}

#[test]
fn malformed_hashes_are_refused() {
    assert_eq!(verify_password("pw", "not a hash"), Err(PasswordError::Hashing));
}

#[test]
fn credentials_without_user_do_not_match() {
    assert_eq!(credentials_match("pw", None), Ok(false));
    let hash = hash_password("pw1234").unwrap();
    assert_eq!(credentials_match("pw1234", Some(&hash)), Ok(true));
    assert_eq!(credentials_match("pw12345", Some(&hash)), Ok(false));
    assert_eq!(credentials_match("pw", Some("broken")), Err(PasswordError::Hashing));
}

#[test]
fn issued_tokens_last_a_day() {
    let grant = issue_token(1000);
    assert_eq!(grant.expires_at, 1000 + 86400);
    assert_eq!(grant.token.len(), 36);
}
