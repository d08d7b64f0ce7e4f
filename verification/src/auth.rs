//! The account service's rules: which credentials are acceptable, how a
//! password is checked, how sessions are named, and what a refused request is
//! answered.

use crate::accounts::AccountCredentials;
use argon2::password_hash::{PasswordHasher, PasswordVerifier};
use crate::text::join2;
use vstd::prelude::*;
use vstd::utf8::encode_utf8;

verus! {

/// How long a session lives, in seconds.
pub const SESSION_TTL_SECONDS: u64 = 86_400;

/// HTTP status of a malformed request.
pub const STATUS_BAD_REQUEST: u16 = 400;

/// HTTP status of a request without valid credentials.
pub const STATUS_UNAUTHORIZED: u16 = 401;

/// HTTP status of a request that clashes with existing data.
pub const STATUS_CONFLICT: u16 = 409;

/// HTTP status of a failure on the server's side.
pub const STATUS_INTERNAL_SERVER_ERROR: u16 = 500;

/// HTTP status of a created account.
pub const STATUS_CREATED: u16 = 201;

/// A sign-up or login request.
#[derive(Debug, Clone)]
pub struct Credentials {
    pub username: String,
    pub password: String,
}

/// The answer to a successful sign-up or login.
#[derive(Debug, Clone)]
pub struct AuthResponse {
    pub token: String,
    pub account_id: i64,
    pub character_id: i64,
}

/// The body of a refused request.
#[derive(Debug, Clone, Copy, PartialEq, Eq)]
pub struct ErrorResponse {
    pub error: &'static str,
}

/// A refusal: the HTTP status and the body.
pub type ApiError = (u16, ErrorResponse);

#[verifier::external_type_specification]
#[verifier::external_body]
pub struct ExPasswordHashError(argon2::password_hash::Error);

/// Whether Argon2 accepts `password` against the PHC string `hash`.
pub uninterp spec fn argon2_verifies(password: Seq<char>, hash: Seq<char>) -> bool;

#[verifier::external_type_specification]
#[verifier::external_body]
pub struct ExSaltString(argon2::password_hash::SaltString);

/// A fresh salt from `SaltString::generate`, drawn from the operating
/// system's random source `rand_core::OsRng`. It is random, so nothing is
/// stated of it.
#[verifier::external_body]
fn generate_salt() -> (r: argon2::password_hash::SaltString) {
    argon2::password_hash::SaltString::generate(&mut rand_core::OsRng)
}

/// Hashes a password with Argon2 under its default parameters and the given
/// salt, as `PasswordHasher::hash_password` does, and renders the PHC string.
/// The string depends on the salt, so it is not stated; the contract claims
/// only that the password verifies against it.
#[verifier::external_body]
fn hash_with_salt(password: &str, salt: &argon2::password_hash::SaltString) -> (r: Result<
    String,
    argon2::password_hash::Error,
>)
    ensures
        r matches Ok(hash) ==> argon2_verifies(password@, hash@),
{
    Ok(argon2::Argon2::default().hash_password(password.as_bytes(), salt)?.to_string())
}

/// Hashes a password under a fresh salt.
fn hash_password(password: &str) -> (r: Result<String, argon2::password_hash::Error>)
    ensures
        r matches Ok(hash) ==> argon2_verifies(password@, hash@),
{
    let salt = generate_salt();
    hash_with_salt(password, &salt)
}

/// Parses a PHC string and checks a password against it with Argon2, as
/// `PasswordHash::new` and `PasswordVerifier::verify_password` do. The
/// contract claims that the outcome is the named function of the two texts.
#[verifier::external_body]
fn verify_password(password: &str, hash: &str) -> (r: Result<(), argon2::password_hash::Error>)
    ensures
        r is Ok <==> argon2_verifies(password@, hash@),
{
    let parsed = argon2::password_hash::PasswordHash::new(hash)?;
    argon2::Argon2::default().verify_password(password.as_bytes(), &parsed)
}

/// A lowercase hexadecimal digit.
pub open spec fn is_lower_hex_digit(c: char) -> bool {
    ('0' <= c && c <= '9') || ('a' <= c && c <= 'f')
}

/// A random (version 4) UUID as `uuid` writes it: 36 characters, lowercase
/// hexadecimal digits in groups of 8, 4, 4, 4 and 12 joined by hyphens, the
/// version digit `4`, and a variant digit among `8`, `9`, `a` and `b`.
pub open spec fn is_uuid_v4_text(s: Seq<char>) -> bool {
    &&& s.len() == 36
    &&& forall|i: int|
        0 <= i < 36 ==> if i == 8 || i == 13 || i == 18 || i == 23 {
            #[trigger] s[i] == '-'
        } else {
            is_lower_hex_digit(s[i])
        }
    &&& s[14] == '4'
    &&& (s[19] == '8' || s[19] == '9' || s[19] == 'a' || s[19] == 'b')
}

/// A random UUID from `uuid::Uuid::new_v4`, written with `to_string`. The
/// digits are random; the contract claims the form that `new_v4` (which sets
/// the version and variant bits) and the hyphenated lowercase `Display` of
/// `Uuid` give every such text.
#[verifier::external_body]
fn random_token() -> (r: String)
    ensures
        is_uuid_v4_text(r@),
{
    uuid::Uuid::new_v4().to_string()
}

pub open spec fn spec_refusal(status: u16, message: &'static str) -> (u16, Seq<char>) {
    (status, message@)
}

pub open spec fn spec_error_view(e: ApiError) -> (u16, Seq<char>) {
    (e.0, e.1.error@)
}

pub fn bad_request(message: &'static str) -> (r: ApiError)
    ensures
        r.0 == STATUS_BAD_REQUEST,
        r.1.error == message,
{
    (STATUS_BAD_REQUEST, ErrorResponse { error: message })
}

pub fn unauthorized(message: &'static str) -> (r: ApiError)
    ensures
        r.0 == STATUS_UNAUTHORIZED,
        r.1.error == message,
{
    (STATUS_UNAUTHORIZED, ErrorResponse { error: message })
}

pub fn conflict(message: &'static str) -> (r: ApiError)
    ensures
        r.0 == STATUS_CONFLICT,
        r.1.error == message,
{
    (STATUS_CONFLICT, ErrorResponse { error: message })
}

/// Whatever went wrong inside, the client learns only that something did.
pub fn internal_error<E>(_error: E) -> (r: ApiError)
    ensures
        r.0 == STATUS_INTERNAL_SERVER_ERROR,
        r.1.error@ == "internal server error"@,
{
    (STATUS_INTERNAL_SERVER_ERROR, ErrorResponse { error: "internal server error" })
}

/// The Redis key under which a session token is stored.
pub open spec fn spec_session_key(token: Seq<char>) -> Seq<char> {
    "frontier:session:"@ + token
}

pub fn session_key(token: &str) -> (r: String)
    ensures
        r@ == spec_session_key(token@),
{
    join2("frontier:session:", token)
}

/// A fresh session token, a random UUID, and the key that it is stored
/// under.
pub fn new_session() -> (r: (String, String))
    ensures
        is_uuid_v4_text(r.0@),
        r.1@ == spec_session_key(r.0@),
{
    let token = random_token();
    let key = session_key(token.as_str());
    (token, key)
}

/// The token of an `Authorization` header value of the form `Bearer <token>`.
pub open spec fn spec_bearer_token(header: Seq<char>) -> Option<Seq<char>> {
    if header.len() >= 7 && header.subrange(0, 7) == "Bearer "@ {
        Some(header.subrange(7, header.len() as int))
    } else {
        None
    }
}

pub fn bearer_token(header: &str) -> (r: Option<&str>)
    ensures
        match spec_bearer_token(header@) {
            Some(token) => r matches Some(t) && t@ == token,
            None => r is None,
        },
{
    proof {
        reveal_strlit("Bearer ");
    }
    let n = header.unicode_len();
    if n < 7 {
        return None;
    }
    let prefix = header.substring_char(0, 7);
    if !crate::text::str_eq(prefix, "Bearer ") {
        return None;
    }
    Some(header.substring_char(7, n))
}

/// The length in bytes of a text, which is what the limits count.
pub open spec fn byte_len(s: Seq<char>) -> nat {
    encode_utf8(s).len()
}

/// A username takes 3 to 32 bytes, a password at least 8.
pub open spec fn spec_validate_credentials(username: Seq<char>, password: Seq<char>) -> Result<
    (),
    (u16, Seq<char>),
> {
    if !(3 <= byte_len(username) <= 32) {
        Err((STATUS_BAD_REQUEST, "username must be 3-32 characters"@))
    } else if byte_len(password) < 8 {
        Err((STATUS_BAD_REQUEST, "password must be at least 8 characters"@))
    } else {
        Ok(())
    }
}

pub fn validate_credentials(credentials: &Credentials) -> (r: Result<(), ApiError>)
    ensures
        match spec_validate_credentials(credentials.username@, credentials.password@) {
            Ok(()) => r is Ok,
            Err(e) => r matches Err(a) && spec_error_view(a) == e,
        },
{
    let username_len = credentials.username.as_str().as_bytes().len();
    if !(3 <= username_len && username_len <= 32) {
        return Err(bad_request("username must be 3-32 characters"));
    }
    if credentials.password.as_str().as_bytes().len() < 8 {
        return Err(bad_request("password must be at least 8 characters"));
    }
    Ok(())
}

/// The sign-up steps before the account is stored: the credentials are
/// checked, then the password is hashed. A hash that comes back verifies the
/// password; a failure to hash is an internal error.
pub fn prepare_signup(credentials: &Credentials) -> (r: Result<String, ApiError>)
    ensures
        match spec_validate_credentials(credentials.username@, credentials.password@) {
            Err(e) => r matches Err(a) && spec_error_view(a) == e,
            Ok(()) => match r {
                Ok(hash) => argon2_verifies(credentials.password@, hash@),
                Err(a) => spec_error_view(a) == (
                    STATUS_INTERNAL_SERVER_ERROR,
                    "internal server error"@,
                ),
            },
        },
{
    match validate_credentials(credentials) {
        Ok(()) => {},
        Err(e) => {
            return Err(e);
        },
    }
    match hash_password(credentials.password.as_str()) {
        Ok(hash) => Ok(hash),
        Err(e) => Err(internal_error(e)),
    }
}

/// The login decision once the account has been looked up: an unknown user
/// and a wrong password are refused alike.
pub open spec fn spec_authorize_login(password: Seq<char>, account: Option<AccountCredentials>) -> Result<
    i64,
    (u16, Seq<char>),
> {
    match account {
        None => Err((STATUS_UNAUTHORIZED, "invalid username or password"@)),
        Some(a) => if argon2_verifies(password, a.password_hash@) {
            Ok(a.account_id)
        } else {
            Err((STATUS_UNAUTHORIZED, "invalid username or password"@))
        },
    }
}

pub fn authorize_login(password: &str, account: Option<AccountCredentials>) -> (r: Result<
    i64,
    ApiError,
>)
    ensures
        match spec_authorize_login(password@, account) {
            Ok(id) => r == Ok::<i64, ApiError>(id),
            Err(e) => r matches Err(a) && spec_error_view(a) == e,
        },
{
    let account = match account {
        Some(account) => account,
        None => {
            return Err(unauthorized("invalid username or password"));
        },
    };
    match verify_password(password, account.password_hash.as_str()) {
        Ok(()) => Ok(account.account_id),
        Err(_) => Err(unauthorized("invalid username or password")),
    }
}

/// A password that sign-up accepted and hashed is accepted at login against
/// the stored account.
pub proof fn lemma_signup_then_login(
    credentials: Credentials,
    hash: String,
    account_id: i64,
)
    ensures
        argon2_verifies(credentials.password@, hash@) ==> spec_authorize_login(
            credentials.password@,
            Some(AccountCredentials { account_id, password_hash: hash }),
        ) == Ok::<i64, (u16, Seq<char>)>(account_id),
{
}

} // verus!
