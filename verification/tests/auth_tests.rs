use recro::accounts::{
    check_credentials, login_fields, registration_fields, BAD_CREDENTIALS, LOGIN_REQUIRED,
    PASSWORD_MISSING,
};
use recro::auth::{
    claims_from, create_jwt, extract_claims_from_headers, random_secret, secret_from_draws, verify_jwt,
    hash_password, jwt_secret_from, session_claims, token_for_request, token_from_authorization,
    validate_password, validate_username, verify_password, LoginRequest, RegisterRequest,
    TokenProblem, PASSWORD_REQUIRED, PASSWORD_TOO_LONG, PASSWORD_TOO_SHORT, PLACEHOLDER_SECRET,
    SECRET_ALPHABET, SESSION_TTL_SECS, USERNAME_BAD_CHARS, USERNAME_HAS_SPACES,
    USERNAME_REQUIRED, USERNAME_TOO_LONG, USERNAME_TOO_SHORT,
};
use recro::status::HttpStatus;

#[test]
fn test_validate_username() {
    assert!(validate_username("alex_123").is_ok());
    assert!(validate_username("john-doe").is_ok());
    assert!(validate_username("al").is_err());
    assert!(validate_username("alex smith").is_err());
    assert!(validate_username("alex@smith").is_err());
}

#[test]
fn test_validate_password() {
    assert!(validate_password("123456").is_ok());
    assert!(validate_password("short").is_err());
    assert!(validate_password("").is_err());
}

#[test]
fn test_password_hash_and_verify() {
    let pass = "strong_password_99";
    let hash = hash_password(pass).expect("Hashing should succeed");
    assert!(verify_password(pass, &hash));
    assert!(!verify_password("wrong_password", &hash));
}

#[test]
fn username_rules_answer_in_order() {
    assert_eq!(validate_username("   "), Err(USERNAME_REQUIRED));
    assert_eq!(validate_username("a b"), Err(USERNAME_HAS_SPACES));
    assert_eq!(validate_username("ab"), Err(USERNAME_TOO_SHORT));
    assert_eq!(validate_username(&"a".repeat(31)), Err(USERNAME_TOO_LONG));
    assert_eq!(validate_username("имя_пользователя"), Err(USERNAME_TOO_LONG));
    assert_eq!(validate_username("имя"), Err(USERNAME_BAD_CHARS));
    assert_eq!(validate_username("  alex  "), Ok(()));
    assert_eq!(validate_username(&"a".repeat(30)), Ok(()));
}

#[test]
fn password_lengths_are_bytes_of_the_trimmed_text() {
    assert_eq!(validate_password("  "), Err(PASSWORD_REQUIRED));
    assert_eq!(validate_password(" 12345 "), Err(PASSWORD_TOO_SHORT));
    // three Cyrillic letters are six bytes
    assert_eq!(validate_password("абв"), Ok(()));
    assert_eq!(validate_password(&"x".repeat(72)), Ok(()));
    assert_eq!(validate_password(&"x".repeat(73)), Err(PASSWORD_TOO_LONG));
}

#[test]
fn session_lasts_thirty_days() {
    let c = session_claims("test-user-uuid-123", "alex_smith", 1_700_000_000);
    assert_eq!(c.sub, "test-user-uuid-123");
    assert_eq!(c.username, "alex_smith");
    assert_eq!(c.exp, 1_700_000_000 + 2_592_000);
    assert_eq!(SESSION_TTL_SECS, 2_592_000);
}

#[test]
fn bearer_prefix_is_removed() {
    assert_eq!(token_from_authorization("Bearer abc.def"), "abc.def");
    assert_eq!(token_from_authorization("abc.def"), "abc.def");
    assert_eq!(token_from_authorization("bearer abc"), "bearer abc");
    assert_eq!(token_for_request(None), Err(TokenProblem::MissingHeader));
    assert_eq!(token_for_request(Some("Bearer t")), Ok("t".to_string()));
    let (status, msg) = TokenProblem::InvalidToken.message();
    assert_eq!(status, HttpStatus::Unauthorized);
    assert_eq!(msg, "Invalid or expired token");
}

#[test]
fn signing_secret_is_configured_or_random() {
    assert_eq!(jwt_secret_from(Some("  my-secret  ")), b"my-secret".to_vec());
    let random = jwt_secret_from(Some(PLACEHOLDER_SECRET));
    assert_eq!(random.len(), 64);
    assert!(random.iter().all(|b| SECRET_ALPHABET.as_bytes().contains(b)));
    assert_eq!(jwt_secret_from(Some("   ")).len(), 64);
    assert_eq!(jwt_secret_from(None).len(), 64);
}

#[test]
fn registration_takes_trimmed_fields() {
    let ok = registration_fields(&RegisterRequest {
        username: "  alex_1 ".to_string(),
        password: " secret1 ".to_string(),
    });
    assert_eq!(ok, Ok(("alex_1".to_string(), "secret1".to_string())));
    let bad_name = registration_fields(&RegisterRequest {
        username: "a".to_string(),
        password: "secret1".to_string(),
    });
    assert_eq!(bad_name, Err((HttpStatus::BadRequest, USERNAME_TOO_SHORT)));
    let bad_pass = registration_fields(&RegisterRequest {
        username: "alex".to_string(),
        password: "123".to_string(),
    });
    assert_eq!(bad_pass, Err((HttpStatus::BadRequest, PASSWORD_TOO_SHORT)));
}

#[test]
fn login_requires_both_fields() {
    let missing_login = login_fields(&LoginRequest { login: " ".into(), password: "x".into() });
    assert_eq!(missing_login, Err((HttpStatus::BadRequest, LOGIN_REQUIRED)));
    let missing_pass = login_fields(&LoginRequest { login: "bob".into(), password: "  ".into() });
    assert_eq!(missing_pass, Err((HttpStatus::BadRequest, PASSWORD_MISSING)));
    let ok = login_fields(&LoginRequest { login: " Bob ".into(), password: " pw ".into() });
    assert_eq!(ok, Ok(("Bob".to_string(), "pw".to_string())));
}

#[test]
fn registered_password_signs_in() {
    let (_, pw) = registration_fields(&RegisterRequest {
        username: "alex".into(),
        password: "  hunter22 ".into(),
    })
    .unwrap();
    let hash = hash_password(&pw).unwrap();
    let (_, typed) = login_fields(&LoginRequest { login: "alex".into(), password: "hunter22".into() })
        .unwrap();
    assert_eq!(check_credentials(&typed, Some(&hash)), Ok(()));
    assert_eq!(
        check_credentials("hunter23", Some(&hash)),
        Err((HttpStatus::Unauthorized, BAD_CREDENTIALS))
    );
    assert_eq!(check_credentials(&typed, None), Err((HttpStatus::Unauthorized, BAD_CREDENTIALS)));
    assert!(!verify_password("hunter22", "not a bcrypt hash"));
}

fn now_secs() -> u64 {
    std::time::SystemTime::now().duration_since(std::time::UNIX_EPOCH).unwrap().as_secs()
}

const TEST_KEY: &[u8] = b"test-signing-key";

#[test]
fn test_jwt_create_and_verify() {
    let user_id = "test-user-uuid-123";
    let username = "alex_smith";
    let token = create_jwt(user_id, username, now_secs(), TEST_KEY).expect("JWT creation should succeed");
    assert!(!token.is_empty());

    let claims = verify_jwt(&token, TEST_KEY).expect("JWT verification should succeed");
    assert_eq!(claims.sub, user_id);
    assert_eq!(claims.username, username);
}

#[test]
fn session_token_carries_its_expiry_and_key() {
    let now = now_secs();
    let token = create_jwt("u-1", "имя", now, TEST_KEY).unwrap();
    assert_eq!(token.split('.').count(), 3);
    let claims = verify_jwt(&token, TEST_KEY).unwrap();
    assert_eq!(claims.username, "имя");
    assert_eq!(claims.exp as u64, now + SESSION_TTL_SECS);
    assert!(verify_jwt(&token, b"another-key").is_err());
    assert!(verify_jwt("not.a.token", TEST_KEY).is_err());
    let expired = create_jwt("u-1", "a", now - 2 * SESSION_TTL_SECS, TEST_KEY).unwrap();
    assert!(verify_jwt(&expired, TEST_KEY).is_err());
    // the same claims and key give the same token
    assert_eq!(create_jwt("u-1", "имя", now, TEST_KEY).unwrap(), token);
}

#[test]
fn request_claims_come_from_the_bearer_token() {
    let token = create_jwt("u-7", "bob", now_secs(), TEST_KEY).unwrap();
    let header = format!("Bearer {}", token);
    let claims = extract_claims_from_headers(Some(&header), TEST_KEY).unwrap();
    assert_eq!(claims.sub, "u-7");
    assert_eq!(extract_claims_from_headers(Some(&token), TEST_KEY).unwrap().username, "bob");
    assert_eq!(extract_claims_from_headers(None, TEST_KEY).err(), Some(TokenProblem::MissingHeader));
    assert_eq!(extract_claims_from_headers(Some("Bearer x.y.z"), TEST_KEY).err(), Some(TokenProblem::InvalidToken));
    assert_eq!(
        TokenProblem::MissingHeader.message(),
        (HttpStatus::Unauthorized, "Missing Authorization header")
    );
}

#[test]
fn secrets_are_spelled_by_their_draws() {
    let mut draws = vec![0usize; 64];
    draws[1] = 26;
    draws[2] = 75;
    draws[63] = 61;
    let s = secret_from_draws(&draws);
    assert_eq!(s.len(), 64);
    assert_eq!(&s[..3], b"Aa+");
    assert_eq!(s[63], b'9');
    let r = random_secret();
    assert_eq!(r.len(), 64);
    assert!(r.iter().all(|b| SECRET_ALPHABET.as_bytes().contains(b)));
}

#[test]
fn decoded_claims_need_an_expiry_that_fits() {
    let c = claims_from("u".to_string(), "n".to_string(), 1_700_000_000).unwrap();
    assert_eq!((c.sub.as_str(), c.username.as_str(), c.exp), ("u", "n", 1_700_000_000usize));
    if (usize::MAX as u64) < u64::MAX {
        assert!(claims_from("u".to_string(), "n".to_string(), u64::MAX).is_err());
    } else {
        assert!(claims_from("u".to_string(), "n".to_string(), u64::MAX).is_ok());
    }
}
