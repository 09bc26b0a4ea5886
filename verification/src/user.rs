//! User accounts: the profile value, the field validators every signup
//! and settings update runs through, and password hashing/verification.

use vstd::prelude::*;
use vstd::string::{StrSliceExecFns, StringExecFns};
use crate::text::{contains_sub, contains_sub_exec, starts_with};

verus! {

/// Mathematical view of a user row.
pub struct UserView {
    pub username: Seq<char>,
    pub password: Option<Seq<char>>,
    pub email: Seq<char>,
    pub bio: Option<Seq<char>>,
    pub image: Option<Seq<char>>,
}

/// A user profile. The password field holds a pending plaintext change
/// (hashed just before storage) and is never serialized back out.
#[derive(Debug, Clone)]
pub struct User {
    pub username: String,
    password: Option<String>,
    email: String,
    bio: Option<String>,
    image: Option<String>,
}

/// A reduced profile as it appears beside an article or comment.
#[derive(Debug, Clone, PartialEq)]
pub struct UserPreview {
    pub username: String,
    pub image: Option<String>,
    pub following: bool,
}

impl View for User {
    type V = UserView;

    closed spec fn view(&self) -> UserView {
        UserView {
            username: self.username@,
            password: match self.password {
                Some(ref p) => Some(p@),
                None => None,
            },
            email: self.email@,
            bio: match self.bio {
                Some(ref b) => Some(b@),
                None => None,
            },
            image: match self.image {
                Some(ref i) => Some(i@),
                None => None,
            },
        }
    }
}

pub open spec fn empty_user_view() -> UserView {
    UserView {
        username: Seq::empty(),
        password: None,
        email: Seq::empty(),
        bio: None,
        image: None,
    }
}

impl Default for User {
    fn default() -> (r: Self)
        ensures
            r@ == empty_user_view(),
    {
        let r = User {
            username: String::new(),
            password: None,
            email: String::new(),
            bio: None,
            image: None,
        };
        proof {
            assert(r@.username =~= empty_user_view().username);
            assert(r@.email =~= empty_user_view().email);
        }
        r
    }
}

/// Whether the fixed address pattern `^[\w\-\.]+@([\w-]+\.)+\w{2,4}$`
/// matches `s`: a pure function of the characters, named but not written
/// out; `email_pattern_match` is the one place it is computed.
pub uninterp spec fn is_email(s: Seq<char>) -> bool;

/// Relies on regex::Regex::is_match with the address pattern above: the
/// verdict depends on the input characters alone.
#[verifier::external_body]
fn email_pattern_match(email: &str) -> (r: bool)
    ensures
        r == is_email(email@),
{
    match regex::Regex::new(r"^[\w\-\.]+@([\w-]+\.)+\w{2,4}$") {
        Ok(re) => re.is_match(email),
        Err(_) => false,
    }
}

/// Whether `password` is the password that `stored_hash` was derived
/// from, as argon2 decides it: a pure function of the two strings
/// (the hash string carries its own salt and parameters).
pub uninterp spec fn password_verifies(stored_hash: Seq<char>, password: Seq<char>) -> bool;

/// Relies on argon2's verify_password: parses the stored PHC hash string,
/// recomputes with its salt and parameters, and compares. A malformed
/// stored hash simply fails to verify.
#[verifier::external_body]
fn argon2_verify(stored_hash: &str, password: &str) -> (r: bool)
    ensures
        r == password_verifies(stored_hash@, password@),
{
    argon2::PasswordVerifier::<str>::verify_password(
        &argon2::Argon2::default(),
        password.as_bytes(),
        stored_hash,
    ).is_ok()
}

/// Relies on argon2's hash_password with a freshly drawn random salt:
/// the string differs from call to call, so nothing is promised of its
/// shape — only that whatever comes back verifies against the password
/// it was made from.
#[verifier::external_body]
fn argon2_hash(password: &str) -> (r: Option<String>)
    ensures
        r matches Some(h) ==> password_verifies(h@, password@),
{
    argon2::PasswordHasher::hash_password(&argon2::Argon2::default(), password.as_bytes())
        .map(|h| h.to_string())
        .ok()
}

impl User {
    pub fn username(&self) -> (r: String)
        ensures
            r@ == self@.username,
    {
        self.username.clone()
    }

    pub fn email(&self) -> (r: String)
        ensures
            r@ == self@.email,
    {
        self.email.clone()
    }

    pub fn bio(&self) -> (r: Option<String>)
        ensures
            match r {
                Some(b) => self@.bio == Some(b@),
                None => self@.bio is None,
            },
    {
        match &self.bio {
            Some(b) => Some(b.clone()),
            None => None,
        }
    }

    pub fn image(&self) -> (r: Option<String>)
        ensures
            match r {
                Some(i) => self@.image == Some(i@),
                None => self@.image is None,
            },
    {
        match &self.image {
            Some(i) => Some(i.clone()),
            None => None,
        }
    }

    /// A password shorter than 4 characters is rejected; otherwise it is
    /// recorded as the pending password change.
    pub fn set_password(self, password: String) -> (r: Result<Self, String>)
        ensures
            password@.len() >= 4 <==> r is Ok,
            r matches Ok(u) ==> u@ == (UserView { password: Some(password@), ..self@ }),
            r matches Err(e) ==> e@ == "You need to provide a stronger password"@,
    {
        if password.as_str().unicode_len() < 4 {
            return Err("You need to provide a stronger password".to_owned());
        }
        Ok(Self { password: Some(password), ..self })
    }

    /// A username shorter than 4 characters is rejected.
    pub fn set_username(self, username: String) -> (r: Result<Self, String>)
        ensures
            username@.len() >= 4 <==> r is Ok,
            r matches Ok(u) ==> u@ == (UserView { username: username@, ..self@ }),
            r matches Err(e) ==> e@ == "Username "@ + username@
                + " is too short, at least 4 characters"@,
    {
        if username.as_str().unicode_len() < 4 {
            let mut e = "Username ".to_owned();
            e.append(username.as_str());
            e.append(" is too short, at least 4 characters");
            return Err(e);
        }
        Ok(Self { username, ..self })
    }

    /// Whether the address matches the fixed email pattern.
    pub fn validate_email(email: &str) -> (r: bool)
        ensures
            r == is_email(email@),
    {
        email_pattern_match(email)
    }

    /// An address failing the pattern is rejected; otherwise it replaces
    /// the stored one.
    pub fn set_email(self, email: String) -> (r: Result<Self, String>)
        ensures
            is_email(email@) <==> r is Ok,
            r matches Ok(u) ==> u@ == (UserView { email: email@, ..self@ }),
            r matches Err(e) ==> e@ == "The email "@ + email@
                + " is invalid, provide a correct one"@,
    {
        if !Self::validate_email(email.as_str()) {
            let mut e = "The email ".to_owned();
            e.append(email.as_str());
            e.append(" is invalid, provide a correct one");
            return Err(e);
        }
        Ok(Self { email, ..self })
    }

    /// An empty bio clears the field; a non-empty one must be at least
    /// 10 characters.
    pub fn set_bio(self, bio: String) -> (r: Result<Self, String>)
        ensures
            (bio@.len() == 0 || bio@.len() >= 10) <==> r is Ok,
            r matches Ok(u) ==> u@ == (if bio@.len() == 0 {
                UserView { bio: None, ..self@ }
            } else {
                UserView { bio: Some(bio@), ..self@ }
            }),
            r matches Err(e) ==> e@ == "bio too short, at least 10 characters"@,
    {
        if bio.as_str().is_empty() {
            Ok(Self { bio: None, ..self })
        } else if bio.as_str().unicode_len() < 10 {
            Err("bio too short, at least 10 characters".to_owned())
        } else {
            Ok(Self { bio: Some(bio), ..self })
        }
    }

    /// An empty URL clears the image; a non-empty one must start with
    /// "http".
    pub fn set_image(self, image: String) -> (r: Result<Self, String>)
        ensures
            (image@.len() == 0 || "http"@.is_prefix_of(image@)) <==> r is Ok,
            r matches Ok(u) ==> u@ == (if image@.len() == 0 {
                UserView { image: None, ..self@ }
            } else {
                UserView { image: Some(image@), ..self@ }
            }),
            r matches Err(e) ==> e@ == "Invalid image url!"@,
    {
        if image.as_str().is_empty() {
            Ok(Self { image: None, ..self })
        } else if !starts_with(image.as_str(), "http") {
            Err("Invalid image url!".to_owned())
        } else {
            Ok(Self { image: Some(image), ..self })
        }
    }

    /// The argon2 hash to store for the pending password change. Only
    /// meaningful when a change is pending; `None` only if the hasher
    /// itself fails.
    pub fn hashed_password(&self) -> (r: Option<String>)
        requires
            self@.password is Some,
        ensures
            r matches Some(h) ==> password_verifies(h@, self@.password->0),
    {
        match &self.password {
            Some(p) => argon2_hash(p.as_str()),
            None => None,
        }
    }

    /// Whether a stored hash matches an attempted password.
    pub fn check_password(stored_hash: &str, password: &str) -> (r: bool)
        ensures
            r == password_verifies(stored_hash@, password@),
    {
        argon2_verify(stored_hash, password)
    }
}

/// How a settings update ends: the passwords disagreed, a field failed
/// validation, or everything went through.
#[derive(Debug, Clone)]
pub enum SettingsUpdateError {
    PasswordsNotMatch,
    Successful,
    ValidationError(String),
}

/// What a signup attempt reports back.
#[derive(Debug, Clone)]
pub enum SignupResponse {
    ValidationError(String),
    CreateUserError(String),
    Success,
}

/// Whether every field of a settings update passes validation.
pub open spec fn settings_update_ok(
    image: Seq<char>,
    bio: Seq<char>,
    email: Seq<char>,
    password: Seq<char>,
    confirm: Seq<char>,
) -> bool {
    &&& (password.len() > 0 ==> (password == confirm && password.len() >= 4))
    &&& is_email(email)
    &&& (bio.len() == 0 || bio.len() >= 10)
    &&& (image.len() == 0 || "http"@.is_prefix_of(image))
}

/// The profile a settings update produces when every field passes: the
/// password changes only when one was typed, an empty bio or image
/// clears its field, and the username is never touched here.
pub open spec fn settings_result_view(
    u: UserView,
    image: Seq<char>,
    bio: Seq<char>,
    email: Seq<char>,
    password: Seq<char>,
) -> UserView {
    UserView {
        username: u.username,
        password: if password.len() > 0 {
            Some(password)
        } else {
            u.password
        },
        email: email,
        bio: if bio.len() == 0 {
            None
        } else {
            Some(bio)
        },
        image: if image.len() == 0 {
            None
        } else {
            Some(image)
        },
    }
}

/// Validate a settings form against the current profile: a typed password
/// must match its confirmation and be strong enough, then email, bio and
/// image are checked in that order, and the first failure wins.
pub fn update_user_validation(
    user: User,
    image: String,
    bio: String,
    email: String,
    password: String,
    confirm_password: &str,
) -> (r: Result<User, SettingsUpdateError>)
    ensures
        settings_update_ok(image@, bio@, email@, password@, confirm_password@) <==> r is Ok,
        r matches Ok(u) ==> u@ == settings_result_view(user@, image@, bio@, email@, password@),
        password@.len() > 0 && password@ != confirm_password@ ==> (r matches Err(
            SettingsUpdateError::PasswordsNotMatch,
        )),
        password@.len() > 0 && password@ == confirm_password@ && password@.len() < 4 ==> (r
            matches Err(SettingsUpdateError::ValidationError(m)) && m@
            == "You need to provide a stronger password"@),
        (password@.len() == 0 || (password@ == confirm_password@ && password@.len() >= 4))
            && !is_email(email@) ==> (r matches Err(SettingsUpdateError::ValidationError(m)) && m@
            == "The email "@ + email@ + " is invalid, provide a correct one"@),
        (password@.len() == 0 || (password@ == confirm_password@ && password@.len() >= 4))
            && is_email(email@) && !(bio@.len() == 0 || bio@.len() >= 10) ==> (r matches Err(
            SettingsUpdateError::ValidationError(m),
        ) && m@ == "bio too short, at least 10 characters"@),
        (password@.len() == 0 || (password@ == confirm_password@ && password@.len() >= 4))
            && is_email(email@) && (bio@.len() == 0 || bio@.len() >= 10) && !(image@.len() == 0
            || "http"@.is_prefix_of(image@)) ==> (r matches Err(
            SettingsUpdateError::ValidationError(m),
        ) && m@ == "Invalid image url!"@),
{
    let mut user = user;
    if !password.as_str().is_empty() {
        if !crate::text::str_eq(password.as_str(), confirm_password) {
            return Err(SettingsUpdateError::PasswordsNotMatch);
        }
        user = match user.set_password(password) {
            Ok(u) => u,
            Err(m) => {
                return Err(SettingsUpdateError::ValidationError(m));
            },
        };
    }
    let user = match user.set_email(email) {
        Ok(u) => u,
        Err(m) => {
            return Err(SettingsUpdateError::ValidationError(m));
        },
    };
    let user = match user.set_bio(bio) {
        Ok(u) => u,
        Err(m) => {
            return Err(SettingsUpdateError::ValidationError(m));
        },
    };
    match user.set_image(image) {
        Ok(u) => Ok(u),
        Err(m) => Err(SettingsUpdateError::ValidationError(m)),
    }
}

/// Validate a signup form: username, then password, then email, the
/// first failure winning; success yields the fresh profile with the
/// password still pending its hash.
pub fn validate_signup(username: String, email: String, password: String) -> (r: Result<
    User,
    String,
>)
    ensures
        (username@.len() >= 4 && password@.len() >= 4 && is_email(email@)) <==> r is Ok,
        r matches Ok(u) ==> u@ == (UserView {
            username: username@,
            password: Some(password@),
            email: email@,
            bio: None,
            image: None,
        }),
        username@.len() < 4 ==> (r matches Err(e) && e@ == "Username "@ + username@
            + " is too short, at least 4 characters"@),
        username@.len() >= 4 && password@.len() < 4 ==> (r matches Err(e) && e@
            == "You need to provide a stronger password"@),
        username@.len() >= 4 && password@.len() >= 4 && !is_email(email@) ==> (r matches Err(e)
            && e@ == "The email "@ + email@ + " is invalid, provide a correct one"@),
{
    let u = User::default();
    let u = match u.set_username(username) {
        Ok(u) => u,
        Err(e) => {
            return Err(e);
        },
    };
    let u = match u.set_password(password) {
        Ok(u) => u,
        Err(e) => {
            return Err(e);
        },
    };
    match u.set_email(email) {
        Ok(u) => Ok(u),
        Err(e) => Err(e),
    }
}

/// Map the database's error message from a user insert to the response a
/// signup shows, by which unique constraint the message names.
pub fn classify_insert_error(msg: &str) -> (r: SignupResponse)
    ensures
        contains_sub(msg@, "UNIQUE constraint failed: Users.email"@) ==> (r matches
            SignupResponse::CreateUserError(m) && m@ == "Duplicated email"@),
        !contains_sub(msg@, "UNIQUE constraint failed: Users.email"@) && contains_sub(
            msg@,
            "UNIQUE constraint failed: Users.username"@,
        ) ==> (r matches SignupResponse::CreateUserError(m) && m@ == "Duplicated user"@),
        !contains_sub(msg@, "UNIQUE constraint failed: Users.email"@) && !contains_sub(
            msg@,
            "UNIQUE constraint failed: Users.username"@,
        ) ==> (r matches SignupResponse::CreateUserError(m) && m@
            == "There is some problem in user creation, check log"@),
{
    if contains_sub_exec(msg, "UNIQUE constraint failed: Users.email") {
        SignupResponse::CreateUserError("Duplicated email".to_owned())
    } else if contains_sub_exec(msg, "UNIQUE constraint failed: Users.username") {
        SignupResponse::CreateUserError("Duplicated user".to_owned())
    } else {
        SignupResponse::CreateUserError("There is some problem in user creation, check log".to_owned())
    }
}

} // verus!
