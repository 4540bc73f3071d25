//! Decisions of the authentication flow: checking presented credentials,
//! issuing and checking signed bearer tokens, and classifying credential
//! store failures.
use vstd::prelude::*;
use hmac::{Hmac, Mac};
use jwt::{SignWithKey, VerifyWithKey};
use sha2::Sha256;

verus! {

/// The claims carried by a bearer token: the authenticated user's id.
#[derive(Clone, Copy, Debug, PartialEq, Eq, Structural)]
pub struct TokenClaims {
    pub id: i32,
}

/// A user row as the credential store returns it for authentication.
pub struct AuthUser {
    pub id: i32,
    pub username: String,
    pub password: String,
}

/// A user row without its password hash, as registration returns it.
pub struct UserNoPassword {
    pub id: i32,
    pub username: String,
}

/// The body of a registration request.
pub struct CreateUserBody {
    pub username: String,
    pub password: String,
}

/// Why a request of the authentication flow failed.
#[derive(Debug, PartialEq, Eq)]
pub enum AuthError {
    /// Basic credentials came without a password.
    MissingPassword,
    /// The password does not match the stored hash.
    InvalidCredentials,
    /// The bearer token is absent, malformed or wrongly signed.
    InvalidToken,
    /// The username is taken.
    Conflict,
    /// No user has this username.
    NotFound,
    /// Any other failure of the credential store, with its detail.
    DatabaseFailure(String),
    /// The password could not be hashed.
    HashingFailure,
    /// The stored hash could not be checked against the password.
    VerificationFailure,
    /// The token could not be signed.
    SigningFailure,
}

/// The token that signing claims with this user id under this secret gives.
pub uninterp spec fn signed_token(user_id: i32, secret: Seq<u8>) -> Seq<char>;

/// The user id that checking this token under this secret yields, or `None`
/// when the token is malformed, wrongly signed or carries no id.
pub uninterp spec fn token_user_id(token: Seq<char>, secret: Seq<u8>) -> Option<i32>;

/// Relies on `Hmac::<Sha256>::new_from_slice` (accepts a key of any length)
/// and on jwt's `SignWithKey::sign_with_key`, which serializes the claims
/// `{"id": ..}` under an HS256 header and signs them. Neither can fail here:
/// the key takes any length, a map of `&str` to `i32` always serializes, and
/// HMAC signing always returns a signature. HMAC-SHA256 is deterministic, so
/// the token depends on the id and the secret alone.
#[verifier::external_body]
fn sign_claims(claims: TokenClaims, secret: &[u8]) -> (r: Option<String>)
    ensures
        r is Some,
        r->Some_0@ == signed_token(claims.id, secret@),
{
    let key = Hmac::<Sha256>::new_from_slice(secret).ok()?;
    let mut fields = std::collections::BTreeMap::new();
    fields.insert("id", claims.id);
    fields.sign_with_key(&key).ok()
}

/// Relies on `Hmac::<Sha256>::new_from_slice` and on jwt's
/// `VerifyWithKey::verify_with_key` for `&str`, which checks the signature
/// and decodes the claims; the outcome depends on the token and the secret
/// alone. A token that `sign_claims` made under the same secret carries an
/// HS256 header, a matching MAC and the claims `{"id": ..}`, so it verifies
/// to that id.
#[verifier::external_body]
fn verify_claims(token: &str, secret: &[u8]) -> (r: Option<i32>)
    ensures
        r == token_user_id(token@, secret@),
        forall|id: i32| token@ == signed_token(id, secret@) ==> r == Some(id),
{
    let key = Hmac::<Sha256>::new_from_slice(secret).ok()?;
    let fields: std::collections::BTreeMap<String, i32> = token.verify_with_key(&key).ok()?;
    fields.get("id").copied()
}

/// The HTTP status that answers a failed request.
pub open spec fn status_of(e: AuthError) -> u16 {
    match e {
        AuthError::MissingPassword => 401,
        AuthError::InvalidCredentials => 401,
        AuthError::InvalidToken => 401,
        _ => 500,
    }
}

impl AuthError {
    /// 401 for missing or wrong credentials and for a bad token, 500 for
    /// every failure of the store, the hasher or the signer.
    pub fn status_code(&self) -> (r: u16)
        ensures
            r == status_of(*self),
    {
        match self {
            AuthError::MissingPassword => 401,
            AuthError::InvalidCredentials => 401,
            AuthError::InvalidToken => 401,
            _ => 500,
        }
    }
}

/// Signs claims that carry this user id.
pub fn issue_token(user_id: i32, jwt_secret: &[u8]) -> (r: Result<String, AuthError>)
    ensures
        r is Ok,
        r->Ok_0@ == signed_token(user_id, jwt_secret@),
{
    match sign_claims(TokenClaims { id: user_id }, jwt_secret) {
        Some(t) => Ok(t),
        None => Err(AuthError::SigningFailure),
    }
}

/// The basic credentials must carry a password.
pub fn require_password(password: Option<String>) -> (r: Result<String, AuthError>)
    ensures
        password is Some ==> r == Ok::<String, AuthError>(password->Some_0),
        password is None ==> r == Err::<String, AuthError>(AuthError::MissingPassword),
{
    match password {
        Some(p) => Ok(p),
        None => Err(AuthError::MissingPassword),
    }
}

/// Decides an authentication attempt for a stored user from the outcome of
/// checking the presented password against the stored hash: a match issues
/// a token for the user's id, a mismatch is refused with no token, and a
/// failed check is a verification failure. The token issued on a match
/// verifies under the same secret to the user's id (see `validate_bearer`).
pub fn authenticate(user: &AuthUser, password_matches: Result<bool, String>, jwt_secret: &[u8]) -> (r: Result<String, AuthError>)
    ensures
        password_matches == Ok::<bool, String>(false) ==> r == Err::<String, AuthError>(AuthError::InvalidCredentials),
        password_matches is Err ==> r == Err::<String, AuthError>(AuthError::VerificationFailure),
        password_matches == Ok::<bool, String>(true) ==> r is Ok && r->Ok_0@ == signed_token(user.id, jwt_secret@),
        r is Ok ==> password_matches == Ok::<bool, String>(true),
        r is Err ==> (status_of(r->Err_0) == 401 <==> password_matches == Ok::<bool, String>(false)),
{
    match password_matches {
        Ok(true) => issue_token(user.id, jwt_secret),
        Ok(false) => Err(AuthError::InvalidCredentials),
        Err(_) => Err(AuthError::VerificationFailure),
    }
}

/// The claims of a checked token, from the user id the check yielded.
pub fn claims_from(user_id: Option<i32>) -> (r: Result<TokenClaims, AuthError>)
    ensures
        user_id is Some ==> r == Ok::<TokenClaims, AuthError>(TokenClaims { id: user_id->Some_0 }),
        user_id is None ==> r == Err::<TokenClaims, AuthError>(AuthError::InvalidToken),
{
    match user_id {
        Some(id) => Ok(TokenClaims { id }),
        None => Err(AuthError::InvalidToken),
    }
}

/// Checks the bearer token of a request. A request without a token, or with
/// one that does not verify under the secret, is refused with `InvalidToken`
/// and no detail; otherwise its claims are returned.
pub fn validate_bearer(token: Option<&str>, jwt_secret: &[u8]) -> (r: Result<TokenClaims, AuthError>)
    ensures
        token is None ==> r == Err::<TokenClaims, AuthError>(AuthError::InvalidToken),
        token is Some ==> match token_user_id(token->Some_0@, jwt_secret@) {
            Some(id) => r == Ok::<TokenClaims, AuthError>(TokenClaims { id }),
            None => r == Err::<TokenClaims, AuthError>(AuthError::InvalidToken),
        },
        forall|id: i32| token is Some && token->Some_0@ == signed_token(id, jwt_secret@)
            ==> r == Ok::<TokenClaims, AuthError>(TokenClaims { id }),
{
    match token {
        None => Err(AuthError::InvalidToken),
        Some(t) => claims_from(verify_claims(t, jwt_secret)),
    }
}

#[verifier::external_type_specification]
#[verifier::external_body]
pub struct ExSqlxError(sqlx::Error);

/// Relies on the variants of `sqlx::Error`: `RowNotFound` is what a query
/// that expected a row reports when there was none.
#[verifier::external_body]
fn is_row_not_found(e: &sqlx::Error) -> (r: bool) {
    matches!(e, sqlx::Error::RowNotFound)
}

/// Relies on `sqlx::Error::as_database_error` and
/// `DatabaseError::is_unique_violation`: the backend reported a breach of a
/// uniqueness constraint.
#[verifier::external_body]
fn is_unique_violation(e: &sqlx::Error) -> (r: bool) {
    e.as_database_error().map_or(false, |d| d.is_unique_violation())
}

/// Relies on the `Debug` impl of `sqlx::Error` for a readable detail.
#[verifier::external_body]
fn db_error_detail(e: &sqlx::Error) -> (r: String) {
    format!("{:?}", e)
}

/// Classifies a credential store failure: a breached uniqueness constraint
/// is a conflict, a missing row is not found, anything else is a database
/// failure that carries its detail.
pub fn classify_db_failure(not_found: bool, unique_violation: bool, detail: String) -> (r: AuthError)
    ensures
        unique_violation ==> r == AuthError::Conflict,
        !unique_violation && not_found ==> r == AuthError::NotFound,
        !unique_violation && !not_found ==> r == AuthError::DatabaseFailure(detail),
{
    if unique_violation {
        AuthError::Conflict
    } else if not_found {
        AuthError::NotFound
    } else {
        AuthError::DatabaseFailure(detail)
    }
}

/// The error that answers a failure of the credential store.
pub fn db_failure(e: &sqlx::Error) -> (r: AuthError)
    ensures
        r == AuthError::Conflict || r == AuthError::NotFound || r is DatabaseFailure,
{
    let unique = is_unique_violation(e);
    let missing = is_row_not_found(e);
    classify_db_failure(missing, unique, db_error_detail(e))
}

/// The outcome of a credential store query: a row is passed on, a failure
/// is classified.
pub fn store_result<T>(r: Result<T, sqlx::Error>) -> (out: Result<T, AuthError>)
    ensures
        r is Ok ==> out == Ok::<T, AuthError>(r->Ok_0),
        r is Err ==> out is Err && (out->Err_0 == AuthError::Conflict || out->Err_0 == AuthError::NotFound
            || out->Err_0 is DatabaseFailure),
{
    match r {
        Ok(v) => Ok(v),
        Err(e) => Err(db_failure(&e)),
    }
}

} // verus!
