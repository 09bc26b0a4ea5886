use realworld_core::user::{
    classify_insert_error, update_user_validation, validate_signup, SettingsUpdateError,
    SignupResponse, User,
};

#[test]
fn default_user_is_empty() {
    let u = User::default();
    assert_eq!(u.username(), "");
    assert_eq!(u.email(), "");
    assert_eq!(u.bio(), None);
    assert_eq!(u.image(), None);
}

#[test]
fn set_password_rejects_short() {
    let r = User::default().set_password("abc".to_string());
    assert_eq!(r.unwrap_err(), "You need to provide a stronger password");
}

#[test]
fn set_username_rejects_short_with_named_message() {
    let r = User::default().set_username("bob".to_string());
    assert_eq!(
        r.unwrap_err(),
        "Username bob is too short, at least 4 characters"
    );
}

#[test]
fn set_username_accepts_four_characters() {
    let u = User::default().set_username("anna".to_string()).unwrap();
    assert_eq!(u.username(), "anna");
}

#[test]
fn validate_email_matches_the_pattern() {
    assert!(User::validate_email("user@example.com"));
    assert!(User::validate_email("a.b-c@mail.example.org"));
    assert!(!User::validate_email("not-an-address"));
    assert!(!User::validate_email("missing@tld"));
    assert!(!User::validate_email("@example.com"));
}

#[test]
fn set_email_rejects_invalid_with_named_message() {
    let r = User::default().set_email("bad".to_string());
    assert_eq!(
        r.unwrap_err(),
        "The email bad is invalid, provide a correct one"
    );
}

#[test]
fn set_bio_empty_clears_short_rejects() {
    let u = User::default().set_bio(String::new()).unwrap();
    assert_eq!(u.bio(), None);
    let r = User::default().set_bio("too short".to_string());
    assert_eq!(r.unwrap_err(), "bio too short, at least 10 characters");
    let u = User::default().set_bio("a longer biography".to_string()).unwrap();
    assert_eq!(u.bio(), Some("a longer biography".to_string()));
}

#[test]
fn set_image_empty_clears_non_http_rejects() {
    let u = User::default().set_image(String::new()).unwrap();
    assert_eq!(u.image(), None);
    let r = User::default().set_image("ftp://pic".to_string());
    assert_eq!(r.unwrap_err(), "Invalid image url!");
    let u = User::default()
        .set_image("https://pics.example.com/me.png".to_string())
        .unwrap();
    assert_eq!(u.image(), Some("https://pics.example.com/me.png".to_string()));
}

#[test]
fn hashed_password_verifies_and_rejects() {
    let u = User::default().set_password("swordfish".to_string()).unwrap();
    let stored = u.hashed_password().expect("hash produced");
    // the hash is a PHC string, not the password handed back unchanged
    assert_ne!(stored, "swordfish");
    assert!(User::check_password(&stored, "swordfish"));
    assert!(!User::check_password(&stored, "sword-fish"));
}

#[test]
fn signup_validation_succeeds_on_good_input() {
    let u = validate_signup(
        "alice".to_string(),
        "alice@example.com".to_string(),
        "hunter22".to_string(),
    )
    .unwrap();
    assert_eq!(u.username(), "alice");
    assert_eq!(u.email(), "alice@example.com");
}

#[test]
fn signup_validation_reports_first_failure() {
    assert_eq!(
        validate_signup("al".into(), "alice@example.com".into(), "hunter22".into()).unwrap_err(),
        "Username al is too short, at least 4 characters"
    );
    assert_eq!(
        validate_signup("alice".into(), "alice@example.com".into(), "pw".into()).unwrap_err(),
        "You need to provide a stronger password"
    );
    assert_eq!(
        validate_signup("alice".into(), "nope".into(), "hunter22".into()).unwrap_err(),
        "The email nope is invalid, provide a correct one"
    );
}

fn sample_user() -> User {
    validate_signup(
        "alice".to_string(),
        "alice@example.com".to_string(),
        "hunter22".to_string(),
    )
    .unwrap()
}

#[test]
fn settings_update_rejects_mismatched_passwords() {
    let r = update_user_validation(
        sample_user(),
        String::new(),
        String::new(),
        "alice@example.com".to_string(),
        "newpassword".to_string(),
        "different",
    );
    assert!(matches!(r, Err(SettingsUpdateError::PasswordsNotMatch)));
}

#[test]
fn settings_update_rejects_weak_new_password() {
    let r = update_user_validation(
        sample_user(),
        String::new(),
        String::new(),
        "alice@example.com".to_string(),
        "pw".to_string(),
        "pw",
    );
    match r {
        Err(SettingsUpdateError::ValidationError(m)) => {
            assert_eq!(m, "You need to provide a stronger password")
        }
        other => panic!("unexpected result: {other:?}"),
    }
}

#[test]
fn settings_update_rejects_bad_email() {
    let r = update_user_validation(
        sample_user(),
        String::new(),
        String::new(),
        "broken".to_string(),
        String::new(),
        "",
    );
    match r {
        Err(SettingsUpdateError::ValidationError(m)) => {
            assert_eq!(m, "The email broken is invalid, provide a correct one")
        }
        other => panic!("unexpected result: {other:?}"),
    }
}

#[test]
fn settings_update_applies_all_fields() {
    let r = update_user_validation(
        sample_user(),
        "https://pics.example.com/a.png".to_string(),
        "writes about verified code".to_string(),
        "new@example.com".to_string(),
        String::new(),
        "",
    )
    .unwrap();
    assert_eq!(r.username(), "alice");
    assert_eq!(r.email(), "new@example.com");
    assert_eq!(r.bio(), Some("writes about verified code".to_string()));
    assert_eq!(r.image(), Some("https://pics.example.com/a.png".to_string()));
}

#[test]
fn classify_insert_error_names_the_duplicate() {
    let r = classify_insert_error("error: UNIQUE constraint failed: Users.email");
    match r {
        SignupResponse::CreateUserError(m) => assert_eq!(m, "Duplicated email"),
        other => panic!("unexpected: {other:?}"),
    }
    let r = classify_insert_error("error: UNIQUE constraint failed: Users.username");
    match r {
        SignupResponse::CreateUserError(m) => assert_eq!(m, "Duplicated user"),
        other => panic!("unexpected: {other:?}"),
    }
    let r = classify_insert_error("disk I/O error");
    match r {
        SignupResponse::CreateUserError(m) => {
            assert_eq!(m, "There is some problem in user creation, check log")
        }
        other => panic!("unexpected: {other:?}"),
    }
}
