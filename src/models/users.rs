use vstd::prelude::*;
use vstd::string::StrSliceExecFns;
use vstd::string::StringExecFns;
use crate::crypto::{hex_of, sha256, sha256_of, to_hex};
use crate::ids::UserId;
use crate::text::{byte_len, owned, trim_str, trimmed};

verus! {

/// Largest accepted username, in bytes once trimmed.
pub const USERNAME_MAX_BYTES: usize = 30;

/// Smallest accepted username, in bytes once trimmed.
pub const USERNAME_MIN_BYTES: usize = 3;

/// Smallest accepted password, in bytes once trimmed.
pub const PASSWORD_MIN_BYTES: usize = 6;

pub open spec fn msg_empty_username() -> Seq<char> {
    "Empty username"@
}

pub open spec fn msg_username_too_long() -> Seq<char> {
    "Username must be less than 30 characters"@
}

pub open spec fn msg_username_too_short() -> Seq<char> {
    "Username must be more than 3 characters"@
}

pub open spec fn msg_username_bad_chars() -> Seq<char> {
    "Username must contain only latin letters or digits, underscores, dashes and dots"@
}

pub open spec fn msg_empty_password() -> Seq<char> {
    "Empty password"@
}

pub open spec fn msg_password_too_short() -> Seq<char> {
    "Password must be more than 6 characters"@
}

/// Characters allowed in a username: ASCII letters and digits, `_`, `-`, `.`.
pub open spec fn is_username_char(c: char) -> bool {
    ('a' <= c && c <= 'z') || ('A' <= c && c <= 'Z') || ('0' <= c && c <= '9') || c == '_' || c
        == '-' || c == '.'
}

pub open spec fn if_then(b: bool, m: Seq<char>) -> Seq<Seq<char>> {
    if b {
        seq![m]
    } else {
        Seq::empty()
    }
}

/// The validation messages for a username, in the order they are reported.
pub open spec fn username_issues(s: Seq<char>) -> Seq<Seq<char>> {
    let t = trimmed(s);
    if t.len() == 0 {
        seq![msg_empty_username()]
    } else {
        if_then(byte_len(t) > USERNAME_MAX_BYTES, msg_username_too_long()) + if_then(
            byte_len(t) < USERNAME_MIN_BYTES,
            msg_username_too_short(),
        ) + if_then(!(forall|i: int| 0 <= i < t.len() ==> is_username_char(t[i])), msg_username_bad_chars())
    }
}

/// The validation messages for a password, in the order they are reported.
pub open spec fn password_issues(s: Seq<char>) -> Seq<Seq<char>> {
    let t = trimmed(s);
    if t.len() == 0 {
        seq![msg_empty_password()]
    } else {
        if_then(byte_len(t) < PASSWORD_MIN_BYTES, msg_password_too_short())
    }
}

/// The messages held in a vector of strings.
pub open spec fn texts(v: Seq<String>) -> Seq<Seq<char>> {
    v.map_values(|m: String| m@)
}

fn username_char(c: char) -> (r: bool)
    ensures
        r == is_username_char(c),
{
    ('a' <= c && c <= 'z') || ('A' <= c && c <= 'Z') || ('0' <= c && c <= '9') || c == '_' || c
        == '-' || c == '.'
}

fn all_username_chars(t: &str) -> (r: bool)
    ensures
        r == (forall|i: int| 0 <= i < t@.len() ==> is_username_char(t@[i])),
{
    let n = t.unicode_len();
    let mut i: usize = 0;
    while i < n
        invariant
            n == t@.len(),
            i <= n,
            forall|j: int| 0 <= j < i ==> is_username_char(t@[j]),
        decreases n - i,
    {
        if !username_char(t.get_char(i)) {
            return false;
        }
        i += 1;
    }
    true
}

/// A requested username, as submitted.
pub struct Username(pub String);

impl Username {
    pub fn new(username: String) -> (r: Self)
        ensures
            r.0@ == username@,
    {
        Username(username)
    }

    pub fn as_str(&self) -> (r: &str)
        ensures
            r@ == self.0@,
    {
        self.0.as_str()
    }

    /// Checks the trimmed username; an empty list means it is acceptable.
    pub fn validate(&self) -> (r: Vec<String>)
        ensures
            texts(r@) == username_issues(self.0@),
    {
        let mut errors: Vec<String> = Vec::new();
        let t = trim_str(self.0.as_str());
        if t.is_empty() {
            errors.push(owned("Empty username"));
            proof {
                assert(texts(errors@) =~= username_issues(self.0@));
            }
            return errors;
        }
        if t.as_bytes().len() > USERNAME_MAX_BYTES {
            errors.push(owned("Username must be less than 30 characters"));
        }
        if t.as_bytes().len() < USERNAME_MIN_BYTES {
            errors.push(owned("Username must be more than 3 characters"));
        }
        if !all_username_chars(t) {
            errors.push(
                owned(
                    "Username must contain only latin letters or digits, underscores, dashes and dots",
                ),
            );
        }
        proof {
            assert(texts(errors@) =~= username_issues(self.0@));
        }
        errors
    }
}

/// A submitted password.
pub struct Password(pub String);

impl Password {
    pub fn new(password: String) -> (r: Self)
        ensures
            r.0@ == password@,
    {
        Password(password)
    }

    pub fn as_str(&self) -> (r: &str)
        ensures
            r@ == self.0@,
    {
        self.0.as_str()
    }

    /// Checks the trimmed password; an empty list means it is acceptable.
    pub fn validate(&self) -> (r: Vec<String>)
        ensures
            texts(r@) == password_issues(self.0@),
    {
        let mut errors: Vec<String> = Vec::new();
        let t = trim_str(self.0.as_str());
        if t.is_empty() {
            errors.push(owned("Empty password"));
            proof {
                assert(texts(errors@) =~= password_issues(self.0@));
            }
            return errors;
        }
        if t.as_bytes().len() < PASSWORD_MIN_BYTES {
            errors.push(owned("Password must be more than 6 characters"));
            assert(texts(errors@) =~= seq![msg_password_too_short()]);
        }
        proof {
            assert(texts(errors@) =~= password_issues(self.0@));
        }
        errors
    }
}

/// Lifetime of a session, in seconds (seven days).
pub const SESSION_LIFETIME: i64 = 604800;

/// A stored user account; `created_at` is in seconds since the Unix epoch.
#[derive(Clone, Debug)]
pub struct User {
    pub id: UserId,
    pub username: String,
    pub password: String,
    pub created_at: i64,
}

/// What clients may see of a user.
#[derive(Clone, Debug)]
pub struct PublicUser {
    pub id: UserId,
    pub username: String,
    pub created_at: i64,
}

impl PublicUser {
    pub fn from_user(user: User) -> (r: PublicUser)
        ensures
            r.id == user.id,
            r.username@ == user.username@,
            r.created_at == user.created_at,
    {
        PublicUser { id: user.id, username: user.username, created_at: user.created_at }
    }
}

/// Credentials submitted to register or sign in.
pub struct LoginUserRequest {
    pub username: Username,
    pub password: Password,
}

/// Answer to a successful registration or sign-in.
#[derive(Clone, Debug)]
pub struct LoginUserResponse {
    pub user_id: UserId,
    pub session: String,
}

impl LoginUserResponse {
    pub fn new(user_id: UserId, session: String) -> (r: Self)
        ensures
            r.user_id == user_id,
            r.session@ == session@,
    {
        LoginUserResponse { user_id, session }
    }

    /// The `Set-Cookie` value that hands the session to the client.
    pub fn session_cookie(&self) -> (r: String)
        ensures
            r@ == "session="@ + self.session@ + "; Max-Age=604800"@,
    {
        String::from_str("session=").concat(self.session.as_str()).concat("; Max-Age=604800")
    }
}

/// Answer to a sign-out.
pub struct LogoutUserResponse;

impl LogoutUserResponse {
    /// The `Set-Cookie` value that makes the client drop its session.
    pub fn session_cookie(&self) -> (r: String)
        ensures
            r@ == crate::error::CLEAR_SESSION_COOKIE@,
    {
        String::from_str(crate::error::CLEAR_SESSION_COOKIE)
    }
}

/// The stored hash of a password: hex of SHA-256 over the password followed by its salt.
pub open spec fn password_hash_of(password: Seq<char>, salt: Seq<char>) -> Seq<char> {
    hex_of(sha256_of(vstd::utf8::encode_utf8(password + salt)))
}

/// A salted password hash, with the salt it was made with.
#[derive(Clone, Debug)]
pub struct PasswordHash(pub String, pub String);

impl PasswordHash {
    pub fn new(password: &str, salt: &str) -> (r: Self)
        ensures
            r.0@ == password_hash_of(password@, salt@),
            r.1@ == salt@,
    {
        let salted = String::from_str(password).concat(salt);
        let digest = sha256(salted.as_str().as_bytes());
        PasswordHash(to_hex(digest.as_slice()), String::from_str(salt))
    }

    pub fn get_salt(&self) -> (r: &str)
        ensures
            r@ == self.1@,
    {
        self.1.as_str()
    }

    pub fn as_str(&self) -> (r: &str)
        ensures
            r@ == self.0@,
    {
        self.0.as_str()
    }
}

} // verus!
