use realworld_core::auth::{
    decode_claims, issue, login_token, removal_cookie, reset_password_validate, resolve,
    route_decision, session_cookie, LoginError, RouteAction, TokenClaims,
};
use realworld_core::user::User;

const SECRET: &str = "test-signing-secret";

#[test]
fn issue_then_resolve_yields_subject() {
    let token = issue(SECRET, "alice", 3600, 1_000_000);
    let header = format!("token={token}");
    assert_eq!(resolve(SECRET, &header, 1_000_000), Some("alice".to_string()));
    // still valid one second before expiry
    assert_eq!(
        resolve(SECRET, &header, 1_003_599),
        Some("alice".to_string())
    );
}

#[test]
fn resolve_refuses_expired_token() {
    let token = issue(SECRET, "alice", 3600, 1_000_000);
    let header = format!("token={token}");
    // the instant now reaches exp the token is dead
    assert_eq!(resolve(SECRET, &header, 1_003_600), None);
    assert_eq!(resolve(SECRET, &header, 2_000_000), None);
}

#[test]
fn resolve_refuses_wrong_secret() {
    let token = issue(SECRET, "alice", 3600, 1_000_000);
    let header = format!("token={token}");
    assert_eq!(resolve("another-signing-key", &header, 1_000_000), None);
}

#[test]
fn resolve_refuses_tampered_token() {
    let token = issue(SECRET, "alice", 3600, 1_000_000);
    let mut tampered = token.clone();
    let last = tampered.pop().unwrap();
    tampered.push(if last == 'A' { 'B' } else { 'A' });
    let header = format!("token={tampered}");
    assert_eq!(resolve(SECRET, &header, 1_000_000), None);
}

#[test]
fn resolve_refuses_header_without_token_cookie() {
    assert_eq!(resolve(SECRET, "", 0), None);
    assert_eq!(resolve(SECRET, "theme=dark; sid=abc", 0), None);
    assert_eq!(resolve(SECRET, "token", 0), None);
}

#[test]
fn resolve_requires_the_exact_cookie_name() {
    let token = issue(SECRET, "alice", 3600, 1_000_000);
    // a cookie whose name merely starts with "token" is not the token cookie
    assert_eq!(resolve(SECRET, &format!("token2={token}"), 1_000_000), None);
    assert_eq!(resolve(SECRET, &format!("tokens={token}"), 1_000_000), None);
    assert_eq!(
        resolve(SECRET, &format!("token2={token}; token={token}"), 1_000_000),
        Some("alice".to_string())
    );
}

#[test]
fn resolve_finds_token_among_other_cookies() {
    let token = issue(SECRET, "bob", 3600, 5_000);
    let header = format!("theme=dark; token={token}; lang=en");
    assert_eq!(resolve(SECRET, &header, 5_000), Some("bob".to_string()));
}

#[test]
fn resolve_claims_survive_unicode_subjects() {
    let token = issue(SECRET, "αλίκη", 3600, 0);
    let header = format!("token={token}");
    assert_eq!(resolve(SECRET, &header, 10), Some("αλίκη".to_string()));
}

#[test]
fn session_and_removal_cookies_share_name_and_path() {
    assert_eq!(session_cookie("abc"), "token=abc; path=/; HttpOnly");
    assert_eq!(
        removal_cookie(),
        "token=; path=/; expires=Thu, 01 Jan 1970 00:00:00 GMT"
    );
}

#[test]
fn anonymous_settings_request_redirects_to_login() {
    assert!(route_decision("/settings", false) == RouteAction::RedirectLogin);
    assert!(route_decision("/editor/some-slug", false) == RouteAction::RedirectLogin);
}

#[test]
fn authenticated_login_request_redirects_home() {
    assert!(route_decision("/login", true) == RouteAction::RedirectHome);
    assert!(route_decision("/signup", true) == RouteAction::RedirectHome);
}

#[test]
fn open_routes_proceed() {
    assert!(route_decision("/", false) == RouteAction::Proceed);
    assert!(route_decision("/login", false) == RouteAction::Proceed);
    assert!(route_decision("/settings", true) == RouteAction::Proceed);
    assert!(route_decision("/article/x", true) == RouteAction::Proceed);
}

#[test]
fn login_token_accepts_matching_password() {
    let user = User::default()
        .set_password("hunter22".to_string())
        .expect("strong enough");
    let stored = user.hashed_password().expect("hash");
    let token =
        login_token(SECRET, "alice", &stored, "hunter22", 3600, 42).expect("login succeeds");
    let header = format!("token={token}");
    assert_eq!(resolve(SECRET, &header, 50), Some("alice".to_string()));
}

#[test]
fn login_token_refuses_wrong_password() {
    let user = User::default()
        .set_password("hunter22".to_string())
        .expect("strong enough");
    let stored = user.hashed_password().expect("hash");
    assert!(matches!(
        login_token(SECRET, "alice", &stored, "hunter23", 3600, 42),
        Err(LoginError::InvalidCredentials)
    ));
}

#[test]
fn login_token_refuses_malformed_stored_hash() {
    assert!(matches!(
        login_token(SECRET, "alice", "not-a-phc-hash", "hunter22", 3600, 42),
        Err(LoginError::InvalidCredentials)
    ));
}

#[test]
fn reset_password_requires_matching_passwords() {
    let token = issue(SECRET, "alice@example.com", 3600, 1_000);
    assert_eq!(
        reset_password_validate(SECRET, &token, "newpw123", "other", 1_500),
        Err("Passwords do not match, please retry!".to_string())
    );
}

#[test]
fn reset_password_names_the_subject_while_valid() {
    let token = issue(SECRET, "alice@example.com", 3600, 1_000);
    assert_eq!(
        reset_password_validate(SECRET, &token, "newpw123", "newpw123", 1_500),
        Ok("alice@example.com".to_string())
    );
}

#[test]
fn reset_password_refuses_bad_or_expired_tokens() {
    let token = issue(SECRET, "alice@example.com", 3600, 1_000);
    assert_eq!(
        reset_password_validate(SECRET, "not.a.token", "newpw123", "newpw123", 1_500),
        Err("Invalid token provided!".to_string())
    );
    assert_eq!(
        reset_password_validate(SECRET, &token, "newpw123", "newpw123", 4_600),
        Err("Invalid token provided!".to_string())
    );
}

#[test]
fn token_claims_hold_subject_and_expiry() {
    let c = TokenClaims {
        sub: "carol".to_string(),
        exp: 99,
    };
    assert_eq!(c.sub, "carol");
    assert_eq!(c.exp, 99);
}

#[test]
fn decode_claims_returns_what_was_issued() {
    let token = issue(SECRET, "carol", 120, 7_000);
    let claims = decode_claims(SECRET, &token).expect("claims");
    assert_eq!(claims.sub, "carol");
    assert_eq!(claims.exp, 7_120);
    assert!(decode_claims("wrong-secret", &token).is_none());
}
