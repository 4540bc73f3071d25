use todolist_api::auth::{
    authenticate, claims_from, classify_db_failure, db_failure, issue_token, require_password,
    store_result, validate_bearer, AuthError, AuthUser, TokenClaims, UserNoPassword,
};

const SECRET: &[u8] = b"a-shared-signing-secret";

fn user(id: i32) -> AuthUser {
    AuthUser { id, username: "alice".to_string(), password: "stored-hash".to_string() }
}

#[test]
fn correct_password_token_decodes_to_user_id() {
    let token = authenticate(&user(42), Ok(true), SECRET).unwrap();
    assert_eq!(validate_bearer(Some(&token), SECRET), Ok(TokenClaims { id: 42 }));
}

#[test]
fn token_is_three_dot_separated_parts() {
    let token = issue_token(7, SECRET).unwrap();
    assert_eq!(token.split('.').count(), 3);
    assert_eq!(issue_token(7, SECRET).unwrap(), token);
    assert_ne!(issue_token(8, SECRET).unwrap(), token);
}

#[test]
fn token_under_other_secret_is_refused() {
    let token = issue_token(7, SECRET).unwrap();
    let r = validate_bearer(Some(&token), b"another-secret");
    assert_eq!(r, Err(AuthError::InvalidToken));
    assert_eq!(AuthError::InvalidToken.status_code(), 401);
}

#[test]
fn tampered_or_malformed_token_is_refused() {
    let token = issue_token(7, SECRET).unwrap();
    let mut tampered = token.clone();
    tampered.push('x');
    assert_eq!(validate_bearer(Some(&tampered), SECRET), Err(AuthError::InvalidToken));
    assert_eq!(validate_bearer(Some("not a token"), SECRET), Err(AuthError::InvalidToken));
}

#[test]
fn missing_bearer_token_is_refused() {
    assert_eq!(validate_bearer(None, SECRET), Err(AuthError::InvalidToken));
}

#[test]
fn wrong_password_gives_401_and_no_token() {
    let r = authenticate(&user(42), Ok(false), SECRET);
    assert_eq!(r, Err(AuthError::InvalidCredentials));
    assert_eq!(r.unwrap_err().status_code(), 401);
}

#[test]
fn failed_hash_check_is_500() {
    let r = authenticate(&user(42), Err("bad hash".to_string()), SECRET);
    assert_eq!(r, Err(AuthError::VerificationFailure));
    assert_eq!(r.unwrap_err().status_code(), 500);
}

#[test]
fn missing_password_is_401() {
    assert_eq!(require_password(None), Err(AuthError::MissingPassword));
    assert_eq!(AuthError::MissingPassword.status_code(), 401);
    assert_eq!(require_password(Some("pw".to_string())), Ok("pw".to_string()));
}

#[test]
fn second_registration_of_username_is_conflict() {
    let first: Result<UserNoPassword, sqlx::Error> =
        Ok(UserNoPassword { id: 1, username: "bob".to_string() });
    let r = store_result(first).unwrap();
    assert_eq!((r.id, r.username.as_str()), (1, "bob"));
    let second = classify_db_failure(false, true, "duplicate key".to_string());
    assert_eq!(second, AuthError::Conflict);
    assert_eq!(second.status_code(), 500);
}

#[test]
fn unknown_username_is_not_found() {
    assert_eq!(db_failure(&sqlx::Error::RowNotFound), AuthError::NotFound);
    let r: Result<AuthUser, AuthError> = store_result(Err(sqlx::Error::RowNotFound));
    assert!(matches!(r, Err(AuthError::NotFound)));
    assert_eq!(AuthError::NotFound.status_code(), 500);
}

#[test]
fn other_store_failure_carries_detail() {
    let e = db_failure(&sqlx::Error::PoolTimedOut);
    match e {
        AuthError::DatabaseFailure(d) => assert!(d.contains("PoolTimedOut")),
        other => panic!("unexpected {:?}", other),
    }
    assert_eq!(
        classify_db_failure(false, false, "boom".to_string()),
        AuthError::DatabaseFailure("boom".to_string())
    );
}

#[test]
fn claims_from_decoded_id() {
    assert_eq!(claims_from(Some(5)), Ok(TokenClaims { id: 5 }));
    assert_eq!(claims_from(None), Err(AuthError::InvalidToken));
}

#[test]
fn failure_statuses() {
    assert_eq!(AuthError::Conflict.status_code(), 500);
    assert_eq!(AuthError::HashingFailure.status_code(), 500);
    assert_eq!(AuthError::SigningFailure.status_code(), 500);
    assert_eq!(AuthError::InvalidCredentials.status_code(), 401);
}

#[test]
fn issued_tokens_verify_to_their_ids() {
    for id in [0, 1, -5, i32::MAX, i32::MIN] {
        let token = issue_token(id, SECRET).unwrap();
        assert_eq!(validate_bearer(Some(&token), SECRET), Ok(TokenClaims { id }));
    }
    let token = issue_token(3, b"").unwrap();
    assert_eq!(validate_bearer(Some(&token), b""), Ok(TokenClaims { id: 3 }));
}
