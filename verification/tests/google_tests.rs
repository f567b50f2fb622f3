use recro::auth::UserInfo;
use recro::google::{
    auth_config, base_name_of, credential_of, email_verified_of, expiry_of, google_client_id,
    google_identity, google_password, link_by_email, name_base_of, random_username,
    refresh_linked_user, username_attempt, ClaimValue, GoogleIdentity, GoogleProblem,
    GoogleTokenInfo,
};
use recro::status::HttpStatus;

fn info() -> GoogleTokenInfo {
    GoogleTokenInfo {
        iss: "https://accounts.google.com".into(),
        sub: " 1234567890 ".into(),
        aud: "client-1".into(),
        email: Some("  Alex.Smith@Gmail.com ".into()),
        email_verified: ClaimValue::Text("TRUE".into()),
        name: Some("Alex Smith".into()),
        picture: Some("   ".into()),
        exp: ClaimValue::Text("2000000000".into()),
    }
}

fn identity() -> GoogleIdentity {
    GoogleIdentity {
        google_id: "g1".into(),
        email: Some("a@b.c".into()),
        avatar_url: Some("pic".into()),
        name: None,
    }
}

fn stored(email: Option<&str>, avatar: Option<&str>) -> UserInfo {
    UserInfo {
        id: "u1".into(),
        username: "alex".into(),
        email: email.map(|s| s.to_string()),
        avatar_url: avatar.map(|s| s.to_string()),
    }
}

#[test]
fn client_id_configuration() {
    assert_eq!(google_client_id(Some("  id  ")), Some("id".to_string()));
    assert_eq!(google_client_id(Some("   ")), None);
    assert_eq!(google_client_id(None), None);
    let c = auth_config(Some(" id "));
    assert_eq!(c.google_client_id, Some("id".to_string()));
    assert!(c.google_auth_enabled);
    assert!(!auth_config(None).google_auth_enabled);
    assert_eq!(credential_of("  tok "), Ok("tok".to_string()));
    assert_eq!(credential_of("  "), Err(GoogleProblem::MissingCredential));
}

#[test]
fn claims_read_from_numbers_and_strings() {
    assert_eq!(expiry_of(&ClaimValue::Int(5)), Some(5));
    assert_eq!(expiry_of(&ClaimValue::Text("+17".into())), Some(17));
    assert_eq!(expiry_of(&ClaimValue::Text("-3".into())), Some(-3));
    assert_eq!(expiry_of(&ClaimValue::Text("1.5".into())), None);
    assert_eq!(expiry_of(&ClaimValue::Text("99999999999999999999".into())), None);
    assert_eq!(expiry_of(&ClaimValue::OtherNumber), None);
    assert_eq!(expiry_of(&ClaimValue::Bool(true)), None);
    assert!(email_verified_of(&ClaimValue::Bool(true)));
    assert!(email_verified_of(&ClaimValue::Text("tRuE".into())));
    assert!(!email_verified_of(&ClaimValue::Text("yes".into())));
    assert!(!email_verified_of(&ClaimValue::Absent));
}

#[test]
fn token_info_checks_in_order() {
    let id = google_identity(&info(), "client-1", 1_900_000_000).unwrap();
    assert_eq!(id.google_id, "1234567890");
    assert_eq!(id.email, Some("alex.smith@gmail.com".to_string()));
    assert_eq!(id.avatar_url, None);
    assert_eq!(id.name, Some("Alex Smith".to_string()));

    let mut wrong_iss = info();
    wrong_iss.iss = "evil.com".into();
    assert_eq!(google_identity(&wrong_iss, "client-1", 0).err(), Some(GoogleProblem::WrongIssuer));
    let mut short_iss = info();
    short_iss.iss = "accounts.google.com".into();
    assert!(google_identity(&short_iss, "client-1", 0).is_ok());
    assert_eq!(google_identity(&info(), "client-2", 0).err(), Some(GoogleProblem::WrongAudience));
    assert_eq!(google_identity(&info(), "client-1", 2_000_000_000).err(), Some(GoogleProblem::Expired));
    let mut no_exp = info();
    no_exp.exp = ClaimValue::Absent;
    assert!(google_identity(&no_exp, "client-1", i64::MAX).is_ok());
    let mut unverified = info();
    unverified.email_verified = ClaimValue::Bool(false);
    assert_eq!(google_identity(&unverified, "client-1", 0).err(), Some(GoogleProblem::EmailUnverified));
    assert_eq!(GoogleProblem::EmailUnverified.message().0, HttpStatus::Forbidden);
    assert_eq!(GoogleProblem::Expired.message(), (HttpStatus::Unauthorized, "Срок действия токена Google истёк"));
}

#[test]
fn linked_users() {
    let (u, refresh) = refresh_linked_user(&identity(), &stored(Some("a@b.c"), Some("pic")));
    assert!(!refresh);
    assert_eq!(u.email, Some("a@b.c".to_string()));
    let (u, refresh) = refresh_linked_user(&identity(), &stored(None, Some("old")));
    assert!(refresh);
    assert_eq!(u.avatar_url, Some("pic".to_string()));
    assert_eq!(u.email, Some("a@b.c".to_string()));
    let mut bare = identity();
    bare.email = None;
    bare.avatar_url = None;
    let (u, refresh) = refresh_linked_user(&bare, &stored(Some("x@y"), None));
    assert!(!refresh);
    assert_eq!(u.email, Some("x@y".to_string()));

    assert_eq!(link_by_email(&identity(), &stored(Some("a@b.c"), None), Some("other")).err(), Some(GoogleProblem::EmailTaken));
    assert_eq!(
        GoogleProblem::EmailTaken.message(),
        (HttpStatus::Conflict, "Этот email уже привязан к другому Google-аккаунту")
    );
    let u = link_by_email(&identity(), &stored(Some("A@B.C"), Some("old")), Some("g1")).unwrap();
    assert_eq!(u.email, Some("a@b.c".to_string()));
    assert_eq!(u.avatar_url, Some("pic".to_string()));
    let u = link_by_email(&bare, &stored(None, Some("old")), None).unwrap();
    assert_eq!(u.avatar_url, Some("old".to_string()));
    assert_eq!(u.username, "alex");
}

#[test]
fn user_names_for_new_accounts() {
    assert_eq!(name_base_of("Alex Smith"), Some("Alex_Smith".to_string()));
    assert_eq!(name_base_of("__Иван__"), None);
    assert_eq!(name_base_of("Иван Petrov"), Some("Petrov".to_string()));
    assert_eq!(name_base_of("abcdefghijklmnopqrstuvwxyz"), Some("abcdefghijklmnopqrst".to_string()));
    assert_eq!(base_name_of(Some("Alex Smith"), Some("x@y"), "123"), "Alex_Smith");
    assert_eq!(base_name_of(Some("Я"), Some("john.doe@gmail.com"), "123"), "john_doe");
    assert_eq!(base_name_of(None, Some("ab@x"), "1234567890"), "user_123456");
    assert_eq!(base_name_of(None, None, "12"), "user_12");
    assert_eq!(username_attempt("Alex_Smith", 0), Some("Alex_Smith".to_string()));
    assert_eq!(username_attempt("abcdefghijklmnopqrst", 7), Some("abcdefghijklmnop_7".to_string()));
    assert_eq!(username_attempt("alex", 99), Some("alex_99".to_string()));
    assert_eq!(username_attempt("alex", 100), None);
    assert_eq!(random_username("0f8fad5b-d9cb-469f-a165-70867728950e"), "user_0f8fad5b");
    assert_eq!(google_password("uuid", 42), "goog_uuid_42");
}
