use token_auth::authentication::DbError;
use token_auth::login::{LoginError, LoginSession, LoginStep, StoredUser};
use token_auth::salted_hashes::generate_hash_and_salt_for_text;
use token_auth::tokens::{AccessToken, AccessTokenResponse, TokenConfig, UserInfo, NANOS_PER_SECOND};

const SECRET_SALT_B64: &str = "c2VjcmV0LXNhbHQtZm9yLXRva2Vucw==";

fn config() -> TokenConfig {
    TokenConfig::new(SECRET_SALT_B64, 60, 60).expect("valid config")
}

fn stored_user(password: &str, access_token: &str) -> StoredUser {
    let (password_sha512, password_salt) = generate_hash_and_salt_for_text(password);
    StoredUser {
        user_id: 42,
        first_name: Some("A".to_owned()),
        last_name: None,
        password_salt,
        password_sha512,
        access_token: access_token.to_owned(),
    }
}

#[test]
fn login_with_the_right_password_swaps_in_a_new_token() {
    let config = config();
    let user = stored_user("secret", "old token");
    let now = 5 * NANOS_PER_SECOND;
    let (session, step) = LoginSession::start("secret", &user, now, &config);
    let new_token = match step {
        LoginStep::UpdateToken { user_id, new_token, expected_token } => {
            assert_eq!(user_id, 42);
            assert_eq!(expected_token, "old token");
            new_token
        }
        _ => panic!("a swap is expected"),
    };
    let (_, step) = session.on_update(Ok(1));
    match step {
        LoginStep::Finished(Ok(response)) => {
            assert_eq!(response.token, new_token);
            assert_eq!(response.expires_at, now + 60 * NANOS_PER_SECOND);
            let parsed = AccessToken::from_token(&response.token, &config).expect("valid token");
            assert_eq!(parsed.get_user(), &UserInfo { user_id: 42, first_name: Some("A".to_owned()), last_name: None });
        }
        _ => panic!("the issued token is expected"),
    }
}

#[test]
fn login_with_a_wrong_password_fails() {
    let config = config();
    let user = stored_user("secret", "old token");
    let (_, step) = LoginSession::start("guess", &user, 0, &config);
    assert!(matches!(step, LoginStep::Finished(Err(LoginError::WrongPassword))));
}

#[test]
fn login_with_a_broken_salt_fails() {
    let config = config();
    let mut user = stored_user("secret", "old token");
    user.password_salt = "***".to_owned();
    let (_, step) = LoginSession::start("secret", &user, 0, &config);
    assert!(matches!(step, LoginStep::Finished(Err(LoginError::InvalidPasswordSalt))));
}

#[test]
fn login_that_loses_the_swap_gets_the_winner_token() {
    let config = config();
    let user = stored_user("secret", "old token");
    let winner = AccessTokenResponse::new_at(
        UserInfo { user_id: 42, first_name: None, last_name: None },
        7,
        &config,
    )
    .expect("valid token");
    let (session, _) = LoginSession::start("secret", &user, 0, &config);
    let (session, step) = session.on_update(Ok(0));
    assert!(matches!(step, LoginStep::FetchAccessToken { user_id: 42 }));
    let (_, step) = session.on_access_token(Ok(winner.token.clone()), &config);
    match step {
        LoginStep::Finished(Ok(response)) => {
            assert_eq!(response.token, winner.token);
            assert_eq!(response.expires_at, winner.expires_at);
            assert_eq!(response.refresh_at, winner.refresh_at);
        }
        _ => panic!("the winner token is expected"),
    }
}

#[test]
fn login_store_failures() {
    let config = config();
    let user = stored_user("secret", "old token");
    let (session, _) = LoginSession::start("secret", &user, 0, &config);
    let (_, step) = session.on_update(Err(DbError::UnavailableTryAgain));
    assert!(matches!(step, LoginStep::Finished(Err(LoginError::DbError(DbError::UnavailableTryAgain)))));

    let (session, _) = LoginSession::start("secret", &user, 0, &config);
    let (session, _) = session.on_update(Ok(0));
    let (_, step) = session.on_access_token(Ok("garbage".to_owned()), &config);
    assert!(matches!(step, LoginStep::Finished(Err(LoginError::InvalidTokenFormatInDb))));
}
