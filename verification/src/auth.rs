//! The session/identity resolver: issuing a signed bearer token for a
//! subject, locating it in a cookie header, and resolving it back to the
//! subject while it has not expired. Tokens are stateless: there is no
//! server-side session store and no revocation list, so a token stays
//! decodable until its expiry even if the user row changes underneath it
//! (a documented limitation, preserved deliberately).

use vstd::prelude::*;
use vstd::string::{StrSliceExecFns, StringExecFns};
use crate::text::{
    find_sub, lemma_find_sub_bounds, matches_at, rfind_char, split_seq, starts_with,
};

verus! {

/// The claims carried by a session token: the subject (username) and the
/// absolute Unix timestamp, in seconds, after which the token is rejected.
#[derive(Debug, Clone)]
pub struct TokenClaims {
    pub sub: String,
    pub exp: u64,
}

/// The token string produced by signing `{sub, exp}` with `secret`:
/// a pure function of the three, named but not written out. Purity rests
/// on the build pinning jsonwebtoken's built-in rust_crypto provider; a
/// process that installed a custom crypto provider could break it.
pub uninterp spec fn token_of(secret: Seq<char>, sub: Seq<char>, exp: u64) -> Seq<char>;

/// What verifying `token` against `secret` and reading its claims yields:
/// `None` when the token is malformed or its signature does not match,
/// the `(sub, exp)` claims otherwise. A pure function of the two.
pub uninterp spec fn claims_of(secret: Seq<char>, token: Seq<char>) -> Option<(Seq<char>, u64)>;

/// The alphabet of an encoded token: base64url characters and the two
/// dots between its three segments. In particular no ';', '=' or '&',
/// so a token never collides with cookie or query-string delimiters.
pub open spec fn is_token_char(c: char) -> bool {
    ('A' <= c && c <= 'Z') || ('a' <= c && c <= 'z') || ('0' <= c && c <= '9') || c == '-' || c
        == '_' || c == '.'
}

pub open spec fn token_wf(t: Seq<char>) -> bool {
    forall|i: int| 0 <= i < t.len() ==> is_token_char(#[trigger] t[i])
}

/// Relies on jsonwebtoken::encode with the default HS256 header: the token
/// is a pure function of secret and claims; decoding it with the same
/// secret returns the claims; and it is three base64url segments joined by
/// dots, so every character is in the token alphabet. For these claims the
/// encoder cannot fail — serializing an object of a string and an integer
/// is infallible, and the HMAC accepts a key of any length — so the token
/// is returned directly.
#[verifier::external_body]
fn encode_token_raw(secret: &str, sub: &str, exp: u64) -> (r: String)
    ensures
        r@ == token_of(secret@, sub@, exp),
        claims_of(secret@, r@) == Some((sub@, exp)),
        token_wf(r@),
{
    let mut m = serde_json::Map::new();
    m.insert("sub".to_string(), serde_json::Value::String(sub.to_string()));
    m.insert("exp".to_string(), serde_json::Value::from(exp));
    jsonwebtoken::encode(
        &jsonwebtoken::Header::default(),
        &serde_json::Value::Object(m),
        &jsonwebtoken::EncodingKey::from_secret(secret.as_bytes()),
    ).expect("HS256 encoding of string and integer claims cannot fail")
}

/// Relies on jsonwebtoken::decode with HS256: the signature check and the
/// claim extraction depend on the secret and the token alone. Expiry is
/// deliberately not checked here; callers compare `exp` against their own
/// clock, so this result is reproducible.
#[verifier::external_body]
fn decode_token_raw(secret: &str, token: &str) -> (r: Option<(String, u64)>)
    ensures
        match r {
            Some(c) => claims_of(secret@, token@) == Some((c.0@, c.1)),
            None => claims_of(secret@, token@) is None,
        },
{
    let mut validation = jsonwebtoken::Validation::default();
    validation.validate_exp = false;
    validation.required_spec_claims = std::collections::HashSet::new();
    let key = jsonwebtoken::DecodingKey::from_secret(secret.as_bytes());
    let data = jsonwebtoken::decode::<serde_json::Value>(token, &key, &validation).ok()?;
    let sub = data.claims.get("sub").and_then(|v| v.as_str())?.to_string();
    let exp = data.claims.get("exp").and_then(|v| v.as_u64())?;
    Some((sub, exp))
}

/// Whether a "; "-separated part is the cookie named exactly "token":
/// either "token=" followed by its value, or the bare name. A cookie
/// whose name merely begins with "token", such as "token2", is not it.
pub open spec fn is_token_cookie_part(p: Seq<char>) -> bool {
    p == "token"@ || "token="@.is_prefix_of(p)
}

/// The token cookie's value in a `Cookie:` header: among the "; "-separated
/// parts, the first named exactly "token", taken after its last '=';
/// `None` when no part is the token cookie.
pub open spec fn cookie_token_value(header: Seq<char>) -> Option<Seq<char>> {
    first_token_part(split_seq(header, "; "@))
}

pub open spec fn first_token_part(parts: Seq<Seq<char>>) -> Option<Seq<char>>
    decreases parts.len(),
{
    if parts.len() == 0 {
        None
    } else if is_token_cookie_part(parts[0]) {
        Some(after_last_eq(parts[0]))
    } else {
        first_token_part(parts.drop_first())
    }
}

pub open spec fn after_last_eq(p: Seq<char>) -> Seq<char> {
    let i = rfind_char(p, '=');
    if i < 0 {
        p
    } else {
        p.skip(i + 1)
    }
}

/// Identity resolution: what `resolve` returns for a given secret, cookie
/// header and clock reading. `None` on a missing cookie, a bad signature,
/// or an expired token — never an error.
pub open spec fn resolve_spec(secret: Seq<char>, header: Seq<char>, now: u64) -> Option<
    Seq<char>,
> {
    match cookie_token_value(header) {
        None => None,
        Some(tok) => match claims_of(secret, tok) {
            None => None,
            Some(c) => if now < c.1 {
                Some(c.0)
            } else {
                None
            },
        },
    }
}

fn after_last_eq_exec(p: &str) -> (r: String)
    ensures
        r@ == after_last_eq(p@),
{
    let n = p.unicode_len();
    match crate::text::rfind_char_exec(p, '=') {
        Some(i) => {
            let v = p.substring_char(i + 1, n);
            proof {
                assert(v@ =~= p@.skip(i as int + 1));
            }
            v.to_owned()
        },
        None => p.to_owned(),
    }
}

fn cookie_token_in(rest: &str) -> (r: Option<String>)
    ensures
        match r {
            Some(v) => first_token_part(split_seq(rest@, "; "@)) == Some(v@),
            None => first_token_part(split_seq(rest@, "; "@)) is None,
        },
    decreases rest@.len(),
{
    let n = rest.unicode_len();
    proof {
        reveal_strlit("; ");
    }
    match crate::text::find_sub_exec(rest, "; ") {
        None => {
            proof {
                reveal_with_fuel(first_token_part, 3);
                assert(split_seq(rest@, "; "@) == seq![rest@]);
                assert(split_seq(rest@, "; "@).drop_first() =~~= Seq::<Seq<char>>::empty());
            }
            if crate::text::str_eq(rest, "token") || starts_with(rest, "token=") {
                Some(after_last_eq_exec(rest))
            } else {
                None
            }
        },
        Some(i) => {
            proof {
                lemma_find_sub_bounds(rest@, "; "@);
                assert(matches_at(rest@, i as int, "; "@));
            }
            let part = rest.substring_char(0, i);
            let ghost parts = split_seq(rest@, "; "@);
            proof {
                assert(parts == seq![rest@.take(i as int)] + split_seq(
                    rest@.skip(i as int + 2),
                    "; "@,
                ));
                assert(part@ =~= rest@.take(i as int));
                assert(parts[0] == part@);
                assert(parts.drop_first() =~~= split_seq(rest@.skip(i as int + 2), "; "@));
            }
            if crate::text::str_eq(part, "token") || starts_with(part, "token=") {
                Some(after_last_eq_exec(part))
            } else {
                let tail = rest.substring_char(i + 2, n);
                proof {
                    assert(tail@ =~= rest@.skip(i as int + 2));
                }
                cookie_token_in(tail)
            }
        },
    }
}

/// Locate the token cookie's value in a cookie header, if any.
pub fn cookie_token_value_exec(header: &str) -> (r: Option<String>)
    ensures
        match r {
            Some(v) => cookie_token_value(header@) == Some(v@),
            None => cookie_token_value(header@) is None,
        },
{
    cookie_token_in(header)
}

/// Verify `token` against `secret` and hand back its claims. Expiry is
/// the caller's to judge; `resolve` applies it against a clock reading.
pub fn decode_claims(secret: &str, token: &str) -> (r: Option<TokenClaims>)
    ensures
        match r {
            Some(c) => claims_of(secret@, token@) == Some((c.sub@, c.exp)),
            None => claims_of(secret@, token@) is None,
        },
{
    match decode_token_raw(secret, token) {
        Some(c) => {
            let (sub, exp) = c;
            Some(TokenClaims { sub, exp })
        },
        None => None,
    }
}

/// Derive the current identity from a cookie header: find the token
/// cookie, verify its signature against `secret`, and accept its subject
/// only while `now` is strictly before its expiry. Absence of identity is
/// a normal `None`, never an error.
pub fn resolve(secret: &str, cookie_header: &str, now: u64) -> (r: Option<String>)
    ensures
        match r {
            Some(u) => resolve_spec(secret@, cookie_header@, now) == Some(u@),
            None => resolve_spec(secret@, cookie_header@, now) is None,
        },
{
    match cookie_token_value_exec(cookie_header) {
        None => None,
        Some(tok) => match decode_token_raw(secret, tok.as_str()) {
            None => None,
            Some(c) => {
                let (sub, exp) = c;
                if now < exp {
                    Some(sub)
                } else {
                    None
                }
            },
        },
    }
}

/// Issue a token for `subject` expiring `ttl` seconds after `now`, signed
/// with `secret`; it decodes to exactly these claims.
pub fn issue(secret: &str, subject: &str, ttl: u64, now: u64) -> (r: String)
    requires
        now + ttl <= u64::MAX,
    ensures
        r@ == token_of(secret@, subject@, (now + ttl) as u64),
        claims_of(secret@, r@) == Some((subject@, (now + ttl) as u64)),
        token_wf(r@),
{
    encode_token_raw(secret, subject, now + ttl)
}

/// The `Set-Cookie` value that installs `token` for the whole site.
pub fn session_cookie(token: &str) -> (r: String)
    ensures
        r@ == "token="@ + token@ + "; path=/; HttpOnly"@,
{
    let mut s = "token=".to_owned();
    s.append(token);
    s.append("; path=/; HttpOnly");
    s
}

/// The `Set-Cookie` value that logs out: same cookie name and path as
/// `session_cookie`, an empty value, and an expiry in the past, so
/// browsers overwrite the session cookie instead of keeping a duplicate.
pub fn removal_cookie() -> (r: &'static str)
    ensures
        r@ == "token=; path=/; expires=Thu, 01 Jan 1970 00:00:00 GMT"@,
{
    "token=; path=/; expires=Thu, 01 Jan 1970 00:00:00 GMT"
}

/// What the middleware does with a request, decided before any
/// page-specific logic runs.
#[derive(Debug, Clone, Copy, PartialEq, Eq, Structural)]
pub enum RouteAction {
    /// Let the request through to its handler.
    Proceed,
    /// An authenticated user asked for a page that requires anonymity:
    /// send them home.
    RedirectHome,
    /// An anonymous user asked for a protected page: send them to the
    /// login page and clear the token cookie.
    RedirectLogin,
}

/// The redirect policy, by route prefix: "/login" and "/signup" require
/// anonymity, "/settings" and "/editor" require authentication; everything
/// else is open. `logged_in` holds only when a token resolved *and* the
/// user it names still exists.
pub open spec fn route_decision_spec(path: Seq<char>, logged_in: bool) -> RouteAction {
    if logged_in && ("/login"@.is_prefix_of(path) || "/signup"@.is_prefix_of(path)) {
        RouteAction::RedirectHome
    } else if !logged_in && ("/settings"@.is_prefix_of(path) || "/editor"@.is_prefix_of(path)) {
        RouteAction::RedirectLogin
    } else {
        RouteAction::Proceed
    }
}

pub fn route_decision(path: &str, logged_in: bool) -> (r: RouteAction)
    ensures
        r == route_decision_spec(path@, logged_in),
{
    if logged_in {
        if starts_with(path, "/login") || starts_with(path, "/signup") {
            RouteAction::RedirectHome
        } else {
            RouteAction::Proceed
        }
    } else {
        if starts_with(path, "/settings") || starts_with(path, "/editor") {
            RouteAction::RedirectLogin
        } else {
            RouteAction::Proceed
        }
    }
}

/// Why a login attempt fails.
#[derive(Debug, Clone, Copy, PartialEq, Eq, Structural)]
pub enum LoginError {
    /// The password does not match the stored hash. Shown to the user as
    /// a generic credentials failure, the same for an unknown user.
    InvalidCredentials,
}

/// The login decision, once the stored password hash has been fetched:
/// a session token for the user, expiring `ttl` seconds after `now`, if
/// and only if the attempted password matches the stored hash.
pub fn login_token(
    secret: &str,
    username: &str,
    stored_hash: &str,
    password: &str,
    ttl: u64,
    now: u64,
) -> (r: Result<String, LoginError>)
    requires
        now + ttl <= u64::MAX,
    ensures
        crate::user::password_verifies(stored_hash@, password@) <==> r is Ok,
        r matches Ok(t) ==> {
            &&& t@ == token_of(secret@, username@, (now + ttl) as u64)
            &&& claims_of(secret@, t@) == Some((username@, (now + ttl) as u64))
            &&& token_wf(t@)
        },
        r matches Err(e) ==> e == LoginError::InvalidCredentials,
{
    if !crate::user::User::check_password(stored_hash, password) {
        return Err(LoginError::InvalidCredentials);
    }
    Ok(issue(secret, username, ttl, now))
}

/// The decision core of a password reset: the two typed passwords must
/// agree, and the reset token must verify against the signing secret and
/// be unexpired; the subject it names (the account's email address) is
/// handed back for the caller to look up and update.
pub fn reset_password_validate(
    secret: &str,
    token: &str,
    password: &str,
    confirm: &str,
    now: u64,
) -> (r: Result<String, String>)
    ensures
        r is Ok <==> password@ == confirm@ && (claims_of(secret@, token@) matches Some(c) && now
            < c.1),
        r matches Ok(email) ==> (claims_of(secret@, token@) matches Some(c) && c.0 == email@),
        password@ != confirm@ ==> (r matches Err(e) && e@
            == "Passwords do not match, please retry!"@),
        password@ == confirm@ && !(claims_of(secret@, token@) matches Some(c) && now < c.1) ==> (
        r matches Err(e) && e@ == "Invalid token provided!"@),
{
    if !crate::text::str_eq(password, confirm) {
        return Err("Passwords do not match, please retry!".to_owned());
    }
    match decode_token_raw(secret, token) {
        Some(c) => {
            let (email, exp) = c;
            if now < exp {
                Ok(email)
            } else {
                Err("Invalid token provided!".to_owned())
            }
        },
        None => Err("Invalid token provided!".to_owned()),
    }
}

/// Round trip: a token that decodes to `(sub, exp)`, presented in the
/// cookie header that `session_cookie` writes (as the browser sends it
/// back: `token=<tok>`), resolves to `sub` at every instant before `exp`.
pub proof fn lemma_issue_then_resolve(
    secret: Seq<char>,
    sub: Seq<char>,
    exp: u64,
    now: u64,
    tok: Seq<char>,
)
    requires
        claims_of(secret, tok) == Some((sub, exp)),
        token_wf(tok),
        now < exp,
    ensures
        resolve_spec(secret, "token="@ + tok, now) == Some(sub),
{
    reveal_strlit("token=");
    reveal_strlit("token");
    reveal_strlit("; ");
    let header = "token="@ + tok;
    assert(forall|k: int| 0 <= k < header.len() ==> header[k] != ';') by {
        assert(forall|k: int| 0 <= k < tok.len() ==> is_token_char(#[trigger] tok[k]));
    }
    assert forall|i: int| !matches_at(header, i, "; "@) by {
        if matches_at(header, i, "; "@) {
            assert(header[i + 0] == "; "@[0]);
        }
    }
    assert(find_sub(header, "; "@) == -1);
    assert(split_seq(header, "; "@) == seq![header]);
    assert("token="@.is_prefix_of(header)) by {
        assert("token="@ =~= header.subrange(0, 6));
    }
    assert(first_token_part(seq![header]) == Some(after_last_eq(header)));
    assert(header[5] == '=');
    assert(forall|k: int| 5 < k < header.len() ==> header[k] != '=') by {
        assert(forall|k: int| 0 <= k < tok.len() ==> is_token_char(#[trigger] tok[k]));
    }
    crate::text::lemma_rfind_char_is(header, '=', 5);
    assert(after_last_eq(header) =~= tok);
    assert(cookie_token_value(header) == Some(tok));
}

/// Expiry is absolute: the moment `now` reaches a token's `exp`, a header
/// carrying that token resolves to nothing.
pub proof fn lemma_expired_token_resolves_none(
    secret: Seq<char>,
    header: Seq<char>,
    sub: Seq<char>,
    exp: u64,
    now: u64,
    tok: Seq<char>,
)
    requires
        cookie_token_value(header) == Some(tok),
        claims_of(secret, tok) == Some((sub, exp)),
        now >= exp,
    ensures
        resolve_spec(secret, header, now) is None,
{
}

/// A token whose signature does not verify resolves to nothing, whatever
/// else the header holds.
pub proof fn lemma_unverified_token_resolves_none(
    secret: Seq<char>,
    header: Seq<char>,
    now: u64,
    tok: Seq<char>,
)
    requires
        cookie_token_value(header) == Some(tok),
        claims_of(secret, tok) is None,
    ensures
        resolve_spec(secret, header, now) is None,
{
}

/// A cookie header none of whose parts is the cookie named "token"
/// resolves to nothing.
pub proof fn lemma_no_token_cookie_resolves_none(secret: Seq<char>, header: Seq<char>, now: u64)
    requires
        forall|i: int|
            0 <= i < split_seq(header, "; "@).len() ==> !is_token_cookie_part(
                #[trigger] split_seq(header, "; "@)[i],
            ),
    ensures
        resolve_spec(secret, header, now) is None,
{
    lemma_first_token_none(split_seq(header, "; "@));
}

proof fn lemma_first_token_none(parts: Seq<Seq<char>>)
    requires
        forall|i: int| 0 <= i < parts.len() ==> !is_token_cookie_part(#[trigger] parts[i]),
    ensures
        first_token_part(parts) is None,
    decreases parts.len(),
{
    if parts.len() > 0 {
        assert(forall|i: int|
            0 <= i < parts.drop_first().len() ==> parts.drop_first()[i] == parts[i + 1]);
        lemma_first_token_none(parts.drop_first());
    }
}

} // verus!
