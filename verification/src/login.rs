//! The rules of the login service: which requests it accepts, how it
//! answers each outcome, and how it hashes passwords and issues tokens.
use vstd::prelude::*;
use vstd::string::{StringExecFns, StringSliceAdditionalSpecFns};
use crate::text::{all_ascii, chars_of, contains, contains_chars};

verus! {

// ---------------------------------------------------------------------------
// Answers
// ---------------------------------------------------------------------------
/// A refusal of a login service request.
#[derive(Debug, Clone, Copy, PartialEq, Eq, Structural)]
pub enum ApiError {
    /// A required field of the request is empty.
    MissingFields,
    /// The password is shorter than six bytes.
    WeakPassword,
    /// The user name or e-mail address is taken.
    UserExists,
    /// The service failed.
    InternalError,
    /// No user has this name and password.
    InvalidCredentials,
    /// The request carries no token.
    MissingToken,
    /// The token is unknown or expired.
    InvalidToken,
    /// The token to revoke is unknown.
    TokenNotFound,
}

/// The shortest password, in UTF-8 bytes, that registration accepts.
pub open spec fn min_password_bytes() -> nat {
    6
}

/// Whether a registration request may go on to create the user.
pub open spec fn registration_check(username: Seq<char>, email: Seq<char>, password: &str) -> Result<
    (),
    ApiError,
> {
    if username.len() == 0 || email.len() == 0 || password@.len() == 0 {
        Err(ApiError::MissingFields)
    } else if password.spec_bytes().len() < min_password_bytes() {
        Err(ApiError::WeakPassword)
    } else {
        Ok(())
    }
}

/// A registration goes on exactly when the user name, the email and the
/// password are all given and the password has at least six bytes; a given
/// password of fewer bytes is refused as weak, and a missing field is
/// refused before the password is weighed.
pub proof fn lemma_registration_rules(username: Seq<char>, email: Seq<char>, password: &str)
    ensures
        registration_check(username, email, password) is Ok <==> (username.len() > 0 && email.len()
            > 0 && password@.len() > 0 && password.spec_bytes().len() >= 6),
        registration_check(username, email, password) == Err::<(), ApiError>(ApiError::MissingFields)
            <==> (username.len() == 0 || email.len() == 0 || password@.len() == 0),
        registration_check(username, email, password) == Err::<(), ApiError>(
            ApiError::WeakPassword,
        ) <==> (username.len() > 0 && email.len() > 0 && password@.len() > 0
            && password.spec_bytes().len() < 6),
{
}

/// Checks a registration request before the user is created: every field
/// must be given, and the password must be at least six bytes long.
pub fn validate_registration(username: &str, email: &str, password: &str) -> (r: Result<
    (),
    ApiError,
>)
    ensures
        r == registration_check(username@, email@, password),
{
    if username.is_empty() || email.is_empty() || password.is_empty() {
        return Err(ApiError::MissingFields);
    }
    if password.as_bytes().len() < 6 {
        return Err(ApiError::WeakPassword);
    }
    Ok(())
}

/// The phrase of a database error that reports a duplicate user.
pub open spec fn duplicate_marker() -> Seq<char> {
    "UNIQUE constraint failed"@
}

/// The answer to a registration whose user could not be created, from the
/// text of the error: a broken uniqueness constraint means the user exists.
pub fn registration_failure(error_text: &str) -> (r: ApiError)
    ensures
        r == if contains(error_text@, duplicate_marker()) {
            ApiError::UserExists
        } else {
            ApiError::InternalError
        },
{
    let text = chars_of(error_text);
    let marker = chars_of("UNIQUE constraint failed");
    if contains_chars(text.as_slice(), marker.as_slice()) {
        ApiError::UserExists
    } else {
        ApiError::InternalError
    }
}

/// Checks a login request: both the user name and the password must be
/// given.
pub fn validate_login(username: &str, password: &str) -> (r: Result<(), ApiError>)
    ensures
        r == if username@.len() == 0 || password@.len() == 0 {
            Err::<(), ApiError>(ApiError::MissingFields)
        } else {
            Ok(())
        },
{
    if username.is_empty() || password.is_empty() {
        Err(ApiError::MissingFields)
    } else {
        Ok(())
    }
}

/// The answer to a login, from the outcome of the credential check: the
/// session when the credentials match, a refusal when they do not, and an
/// internal error when the check failed.
pub fn login_answer<T, E>(outcome: Result<Option<T>, E>) -> (r: Result<T, ApiError>)
    ensures
        match outcome {
            Ok(Some(session)) => r == Ok::<T, ApiError>(session),
            Ok(None) => r == Err::<T, ApiError>(ApiError::InvalidCredentials),
            Err(_) => r == Err::<T, ApiError>(ApiError::InternalError),
        },
{
    match outcome {
        Ok(Some(session)) => Ok(session),
        Ok(None) => Err(ApiError::InvalidCredentials),
        Err(_) => Err(ApiError::InternalError),
    }
}

/// Checks a request that carries a token: the token must be given.
pub fn validate_token_request(token: &str) -> (r: Result<(), ApiError>)
    ensures
        r == if token@.len() == 0 {
            Err::<(), ApiError>(ApiError::MissingToken)
        } else {
            Ok(())
        },
{
    if token.is_empty() {
        Err(ApiError::MissingToken)
    } else {
        Ok(())
    }
}

/// The answer to a token validation, from the outcome of the token lookup.
pub fn token_answer<T, E>(outcome: Result<Option<T>, E>) -> (r: Result<T, ApiError>)
    ensures
        match outcome {
            Ok(Some(session)) => r == Ok::<T, ApiError>(session),
            Ok(None) => r == Err::<T, ApiError>(ApiError::InvalidToken),
            Err(_) => r == Err::<T, ApiError>(ApiError::InternalError),
        },
{
    match outcome {
        Ok(Some(session)) => Ok(session),
        Ok(None) => Err(ApiError::InvalidToken),
        Err(_) => Err(ApiError::InternalError),
    }
}

/// The message a successful logout answers with.
pub open spec fn logged_out_message() -> Seq<char> {
    "Logged out"@
}

/// The answer to a logout, from whether the token was found and revoked.
pub fn logout_answer<E>(outcome: Result<bool, E>) -> (r: Result<String, ApiError>)
    ensures
        match outcome {
            Ok(true) => r matches Ok(m) && m@ == logged_out_message(),
            Ok(false) => r == Err::<String, ApiError>(ApiError::TokenNotFound),
            Err(_) => r == Err::<String, ApiError>(ApiError::InternalError),
        },
{
    match outcome {
        Ok(true) => Ok(String::from_str("Logged out")),
        Ok(false) => Err(ApiError::TokenNotFound),
        Err(_) => Err(ApiError::InternalError),
    }
}

/// A revocation removed the token when it deleted at least one row.
pub fn token_revoked(rows_affected: u64) -> (r: bool)
    ensures
        r == (rows_affected > 0),
{
    rows_affected > 0
}

// ---------------------------------------------------------------------------
// Tokens
// ---------------------------------------------------------------------------
/// How long a token stays valid, in seconds: one day.
pub open spec fn token_lifetime_secs() -> int {
    86400int
}

/// The moment, in seconds since the Unix epoch, at which a token issued at
/// `issued_at` expires: one day later.
pub fn token_expiry(issued_at: i64) -> (r: i64)
    requires
        issued_at + token_lifetime_secs() <= i64::MAX,
    ensures
        r == issued_at + token_lifetime_secs(),
{
    issued_at + 86400
}

/// A lowercase hexadecimal digit.
pub open spec fn is_lower_hex(c: char) -> bool {
    ('0' <= c && c <= '9') || ('a' <= c && c <= 'f')
}

/// `s` is the hyphenated lowercase text of a random (version 4, RFC 4122
/// variant) UUID.
pub open spec fn is_uuid_v4_text(s: Seq<char>) -> bool {
    &&& s.len() == 36
    &&& forall|i: int|
        0 <= i < 36 ==> if i == 8 || i == 13 || i == 18 || i == 23 {
            #[trigger] s[i] == '-'
        } else {
            is_lower_hex(s[i])
        }
    &&& s[14] == '4'
    &&& (s[19] == '8' || s[19] == '9' || s[19] == 'a' || s[19] == 'b')
}

/// `uuid::Uuid::new_v4` followed by its `Display`: a random UUID of version
/// 4 and the RFC 4122 variant, in hyphenated lowercase hexadecimal. Claimed
/// here: the shape of that text; its digits come from the random source
/// and are not stated.
#[verifier::external_body]
fn random_uuid_text() -> (r: String)
    ensures
        is_uuid_v4_text(r@),
{
    uuid::Uuid::new_v4().to_string()
}

/// A fresh session token: the text of a random UUID.
pub fn generate_token() -> (r: String)
    ensures
        is_uuid_v4_text(r@),
{
    random_uuid_text()
}

// ---------------------------------------------------------------------------
// Passwords
// ---------------------------------------------------------------------------
#[verifier::external_type_specification]
#[verifier::external_body]
pub struct ExBcryptError(bcrypt::BcryptError);

/// What `bcrypt::verify` answers for `password` and the stored `hash`:
/// `Some(matches)`, or `None` when it fails.
pub uninterp spec fn bcrypt_verdict(password: Seq<char>, hash: Seq<char>) -> Option<bool>;

/// The prefix of a hash made with version 2b at the default cost 12.
pub open spec fn default_hash_prefix() -> Seq<char> {
    "$2b$12$"@
}

/// `bcrypt::hash` at `DEFAULT_COST`. Claimed here, from the crate's source:
/// the hash is 60 ASCII characters that begin with `$2b$12$`, and verifying
/// the same password against it succeeds with a match (verification rereads
/// cost and salt from the hash and recomputes it). It fails only when the
/// random salt cannot be drawn, which is not stated.
#[verifier::external_body]
fn bcrypt_hash(password: &str) -> (r: Result<String, bcrypt::BcryptError>)
    ensures
        r matches Ok(h) ==> {
            &&& h@.len() == 60
            &&& all_ascii(h@)
            &&& h@.subrange(0, 7) == default_hash_prefix()
            &&& bcrypt_verdict(password@, h@) == Some(true)
        },
{
    bcrypt::hash(password, bcrypt::DEFAULT_COST)
}

/// `bcrypt::verify`. Claimed here: its answer is the verdict named above,
/// and a hash that is not 60 ASCII characters is refused with an error.
#[verifier::external_body]
fn bcrypt_verify(password: &str, hash: &str) -> (r: Result<bool, bcrypt::BcryptError>)
    ensures
        match r {
            Ok(b) => bcrypt_verdict(password@, hash@) == Some(b),
            Err(_) => bcrypt_verdict(password@, hash@) is None,
        },
        !(hash@.len() == 60 && all_ascii(hash@)) ==> r is Err,
{
    bcrypt::verify(password, hash)
}

/// Why a password could not be hashed or checked.
#[derive(Debug, Clone, Copy, PartialEq, Eq, Structural)]
pub enum PasswordError {
    /// The password hashing library failed.
    Hashing,
}

/// The stored form of `password`: a bcrypt hash at the default cost, with a
/// random salt. Checking the same password against it matches.
pub fn hash_password(password: &str) -> (r: Result<String, PasswordError>)
    ensures
        r matches Ok(h) ==> {
            &&& h@.len() == 60
            &&& all_ascii(h@)
            &&& h@.subrange(0, 7) == default_hash_prefix()
            &&& bcrypt_verdict(password@, h@) == Some(true)
        },
{
    match bcrypt_hash(password) {
        Ok(h) => Ok(h),
        Err(_) => Err(PasswordError::Hashing),
    }
}

/// Whether `password` matches the stored `hash`.
pub fn verify_password(password: &str, hash: &str) -> (r: Result<bool, PasswordError>)
    ensures
        match bcrypt_verdict(password@, hash@) {
            Some(b) => r == Ok::<bool, PasswordError>(b),
            None => r == Err::<bool, PasswordError>(PasswordError::Hashing),
        },
        !(hash@.len() == 60 && all_ascii(hash@)) ==> r is Err,
{
    match bcrypt_verify(password, hash) {
        Ok(b) => Ok(b),
        Err(_) => Err(PasswordError::Hashing),
    }
}

/// Whether a login's password matches the user found under its name: no
/// user means no match; otherwise the password is checked against the
/// stored hash, and a failure of that check is an error.
pub fn credentials_match(password: &str, stored_hash: Option<&str>) -> (r: Result<bool, PasswordError>)
    ensures
        match stored_hash {
            None => r == Ok::<bool, PasswordError>(false),
            Some(h) => match bcrypt_verdict(password@, h@) {
                Some(b) => r == Ok::<bool, PasswordError>(b),
                None => r == Err::<bool, PasswordError>(PasswordError::Hashing),
            },
        },
{
    match stored_hash {
        None => Ok(false),
        Some(h) => verify_password(password, h),
    }
}

/// A token handed to a user who logged in.
pub struct TokenGrant {
    /// The token text.
    pub token: String,
    /// When it expires, in seconds since the Unix epoch.
    pub expires_at: i64,
}

/// A new token for a login at `issued_at`: a fresh random token that
/// expires one day later.
pub fn issue_token(issued_at: i64) -> (r: TokenGrant)
    requires
        issued_at + token_lifetime_secs() <= i64::MAX,
    ensures
        is_uuid_v4_text(r.token@),
        r.expires_at == issued_at + token_lifetime_secs(),
{
    TokenGrant { token: generate_token(), expires_at: token_expiry(issued_at) }
}

} // verus!
