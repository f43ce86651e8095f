use base64::Engine;
use token_auth::salted_hashes::salted_digest_of;
use token_auth::tokens::DigestAccessToken;
use token_auth::wire::{write_optional_text, write_timestamp};
use token_auth::authentication::{
    AuthResult, AuthSession, AuthStep, AuthenticationError, DbError, UserRecord,
};
use token_auth::tokens::{AccessToken, AccessTokenResponse, TokenConfig, UserInfo, NANOS_PER_SECOND};

const SECRET_SALT_B64: &str = "c2VjcmV0LXNhbHQtZm9yLXRva2Vucw==";
const SECOND: i128 = NANOS_PER_SECOND;

struct MemoryStore {
    user_id: u128,
    access_token: String,
    previous_access_token: Option<String>,
    swaps_won: u32,
    swaps_lost: u32,
    calls: u32,
}

impl MemoryStore {
    fn new(user_id: u128, access_token: &str) -> Self {
        MemoryStore {
            user_id,
            access_token: access_token.to_owned(),
            previous_access_token: None,
            swaps_won: 0,
            swaps_lost: 0,
            calls: 0,
        }
    }

    fn get_user(&mut self, user_id: u128) -> Result<UserRecord, DbError> {
        self.calls += 1;
        if user_id != self.user_id {
            return Err(DbError::NotFoundError);
        }
        Ok(UserRecord {
            user_id,
            access_token: self.access_token.clone(),
            previous_access_token: self.previous_access_token.clone(),
        })
    }

    fn update_user_token(&mut self, new_token: &str, expected_token: &str) -> Result<u64, DbError> {
        self.calls += 1;
        if self.access_token == expected_token {
            self.previous_access_token = Some(self.access_token.clone());
            self.access_token = new_token.to_owned();
            self.swaps_won += 1;
            Ok(1)
        } else {
            self.swaps_lost += 1;
            Ok(0)
        }
    }

    fn get_access_token(&mut self) -> Result<String, DbError> {
        self.calls += 1;
        Ok(self.access_token.clone())
    }

    /// Answers one step; `None` when the step is final.
    fn answer(&mut self, session: AuthSession, step: AuthStep, config: &TokenConfig) -> Result<(AuthSession, AuthStep), AuthResult> {
        match step {
            AuthStep::Finished(r) => Err(r),
            AuthStep::FetchUser { user_id } => {
                let record = self.get_user(user_id);
                Ok(session.on_user(record, config))
            }
            AuthStep::UpdateToken { new_token, expected_token, .. } => {
                let updated = self.update_user_token(&new_token, &expected_token);
                Ok(session.on_update(updated))
            }
            AuthStep::FetchAccessToken { .. } => {
                let current = self.get_access_token();
                Ok(session.on_access_token(current, config))
            }
        }
    }
}

fn authenticate(store: &mut MemoryStore, token: &str, now: i128, config: &TokenConfig) -> AuthResult {
    let (mut session, mut step) = AuthSession::start(token, now, config);
    loop {
        match store.answer(session, step, config) {
            Ok((s, t)) => {
                session = s;
                step = t;
            }
            Err(r) => return r,
        }
    }
}

fn config(duration_secs: i64, grace_secs: i64) -> TokenConfig {
    TokenConfig::new(SECRET_SALT_B64, duration_secs, grace_secs).expect("valid config")
}

fn identity() -> UserInfo {
    UserInfo { user_id: 0xABCD, first_name: Some("A".to_owned()), last_name: Some("B".to_owned()) }
}

fn issue(now: i128, config: &TokenConfig) -> AccessTokenResponse {
    AccessTokenResponse::new_at(identity(), now, config).expect("valid token")
}

#[test]
fn fresh_token_is_accepted_without_the_store() {
    let config = config(60, 60);
    let t = 1_000 * SECOND;
    let issued = issue(t, &config);
    let (session, step) = AuthSession::start(&issued.token, t + 59 * SECOND, &config);
    assert!(matches!(session, AuthSession::Finished));
    match step {
        AuthStep::Finished(Ok((response, user))) => {
            assert_eq!(response.token, issued.token);
            assert_eq!(response.expires_at, issued.expires_at);
            assert_eq!(response.refresh_at, issued.refresh_at);
            assert_eq!(user, identity());
        }
        _ => panic!("a fresh token needs no store"),
    }
}

#[test]
fn malformed_token_is_refused() {
    let config = config(60, 60);
    let (_, step) = AuthSession::start("garbage", 0, &config);
    assert!(matches!(step, AuthStep::Finished(Err(AuthenticationError::InvalidInputTokenFormat))));
}

#[test]
fn expired_token_past_hard_boundary_is_unauthorised() {
    let config = config(60, 60);
    let t = 1_000 * SECOND;
    let issued = issue(t, &config);
    let mut store = MemoryStore::new(0xABCD, &issued.token);
    let r = authenticate(&mut store, &issued.token, t + 120 * SECOND, &config);
    assert!(matches!(r, Err(AuthenticationError::Unauthorised)));
    assert_eq!(store.swaps_won, 0);
    let r = authenticate(&mut store, &issued.token, t + 500 * SECOND, &config);
    assert!(matches!(r, Err(AuthenticationError::Unauthorised)));
}

#[test]
fn expired_token_is_refreshed_once() {
    let config = config(60, 60);
    let t = 1_000 * SECOND;
    let issued = issue(t, &config);
    let mut store = MemoryStore::new(0xABCD, &issued.token);
    let now = t + 90 * SECOND;
    let (response, user) = authenticate(&mut store, &issued.token, now, &config).expect("refreshed");
    assert_ne!(response.token, issued.token);
    assert_eq!(response.token, store.access_token);
    assert_eq!(store.previous_access_token, Some(issued.token.clone()));
    assert_eq!(response.expires_at, now + 60 * SECOND);
    assert_eq!(response.refresh_at, now + 120 * SECOND);
    assert_eq!(user, identity());
    assert_eq!(store.swaps_won, 1);
}

#[test]
fn unknown_token_is_unauthorised() {
    let config = config(60, 60);
    let t = 1_000 * SECOND;
    let issued = issue(t, &config);
    let other = issue(t + SECOND, &config);
    let mut store = MemoryStore::new(0xABCD, &other.token);
    let r = authenticate(&mut store, &issued.token, t + 70 * SECOND, &config);
    assert!(matches!(r, Err(AuthenticationError::Unauthorised)));
}

#[test]
fn store_failures_are_passed_on() {
    let config = config(60, 60);
    let t = 1_000 * SECOND;
    let issued = issue(t, &config);
    let (session, step) = AuthSession::start(&issued.token, t + 70 * SECOND, &config);
    assert!(matches!(step, AuthStep::FetchUser { user_id: 0xABCD }));
    let (_, step) = session.on_user(Err(DbError::UnavailableTryAgain), &config);
    assert!(matches!(step, AuthStep::Finished(Err(AuthenticationError::DbError(DbError::UnavailableTryAgain)))));

    let mut store = MemoryStore::new(0xABCD, &issued.token);
    let (session, step) = AuthSession::start(&issued.token, t + 70 * SECOND, &config);
    let (session, step) = store.answer(session, step, &config).ok().expect("a swap");
    assert!(matches!(step, AuthStep::UpdateToken { user_id: 0xABCD, .. }));
    let (_, step) = session.on_update(Err(DbError::UnexpectedError("boom".to_owned())));
    assert!(matches!(step, AuthStep::Finished(Err(AuthenticationError::DbError(DbError::UnexpectedError(_))))));
}

#[test]
fn malformed_stored_token_is_an_internal_fault() {
    let config = config(60, 60);
    let t = 1_000 * SECOND;
    let issued = issue(t, &config);
    let (session, step) = AuthSession::start(&issued.token, t + 70 * SECOND, &config);
    assert!(matches!(step, AuthStep::FetchUser { .. }));
    let (session, step) = session.on_user(
        Ok(UserRecord { user_id: 0xABCD, access_token: issued.token.clone(), previous_access_token: None }),
        &config,
    );
    assert!(matches!(step, AuthStep::UpdateToken { .. }));
    let (session, step) = session.on_update(Ok(0));
    assert!(matches!(step, AuthStep::FetchAccessToken { user_id: 0xABCD }));
    let (_, step) = session.on_access_token(Ok("garbage".to_owned()), &config);
    assert!(matches!(step, AuthStep::Finished(Err(AuthenticationError::InvalidTokenFormatInDb))));
}

#[test]
fn previous_token_within_grace_gets_the_current_one() {
    let config = config(60, 30);
    let t = 1_000 * SECOND;
    let old = issue(t, &config);
    let mut store = MemoryStore::new(0xABCD, &old.token);
    let (refreshed, _) = authenticate(&mut store, &old.token, t + 61 * SECOND, &config).expect("refreshed");

    let (response, user) = authenticate(&mut store, &old.token, t + 80 * SECOND, &config).expect("in grace");
    assert_eq!(response.token, refreshed.token);
    assert_eq!(response.expires_at, refreshed.expires_at);
    assert_eq!(response.refresh_at, refreshed.refresh_at);
    assert_eq!(user, identity());

    let r = authenticate(&mut store, &old.token, t + 90 * SECOND, &config);
    assert!(matches!(r, Err(AuthenticationError::Unauthorised)));
    assert_eq!(store.swaps_won, 1);
}

#[test]
fn two_parallel_requests_receives_the_same_refreshed_tokens() {
    let config = config(60, 60);
    let t = 1_000 * SECOND;
    let old = issue(t, &config);
    let mut store = MemoryStore::new(0xABCD, &old.token);

    // five sessions, each advanced one store step at a time in turn
    let mut pending: Vec<Option<(AuthSession, AuthStep)>> = (0..5)
        .map(|i| Some(AuthSession::start(&old.token, t + 60 * SECOND + i, &config)))
        .collect();
    let mut results: Vec<Option<AuthResult>> = (0..5).map(|_| None).collect();
    while pending.iter().any(|p| p.is_some()) {
        for i in 0..5 {
            if let Some((session, step)) = pending[i].take() {
                match store.answer(session, step, &config) {
                    Ok(next) => pending[i] = Some(next),
                    Err(r) => results[i] = Some(r),
                }
            }
        }
    }
    let tokens: Vec<String> = results
        .into_iter()
        .map(|r| r.expect("finished").expect("valid token").0.token)
        .collect();
    for token in &tokens {
        assert_ne!(token, &old.token);
        assert_eq!(token, &tokens[0]);
    }
    assert_eq!(store.swaps_won, 1);
    assert_eq!(store.swaps_lost, 4);
}

#[test]
fn late_sessions_converge_through_the_grace_window() {
    let config = config(60, 60);
    let t = 1_000 * SECOND;
    let old = issue(t, &config);
    let mut store = MemoryStore::new(0xABCD, &old.token);
    let tokens: Vec<String> = (0..5)
        .map(|i| {
            authenticate(&mut store, &old.token, t + 60 * SECOND + i, &config)
                .expect("valid token")
                .0
                .token
        })
        .collect();
    for token in &tokens {
        assert_ne!(token, &old.token);
        assert_eq!(token, &tokens[0]);
    }
    assert_eq!(store.swaps_won, 1);
    assert_eq!(store.swaps_lost, 0);
}

#[test]
fn example_scenario_one_second_tokens() {
    let config = config(1, 0);
    let t = 1_700_000_000 * SECOND;
    let issued = issue(t, &config);
    assert_eq!(issued.expires_at, t + SECOND);
    assert_eq!(issued.refresh_at, t + 2 * SECOND);

    let mut store = MemoryStore::new(0xABCD, &issued.token);
    let now = t + SECOND + SECOND / 2;
    let (response, _) = authenticate(&mut store, &issued.token, now, &config).expect("refreshed");
    assert_eq!(store.access_token, response.token);
    let persisted = AccessToken::from_token(&store.access_token, &config).expect("valid token");
    assert_eq!(persisted.get_expires_at(), now + SECOND);

    let mut untouched = MemoryStore::new(0xABCD, &issued.token);
    let r = authenticate(&mut untouched, &issued.token, t + 2 * SECOND + SECOND / 2, &config);
    assert!(matches!(r, Err(AuthenticationError::Unauthorised)));
    assert_eq!(untouched.swaps_won, 0);
    assert_eq!(untouched.calls, 1);
}

#[test]
fn previous_token_past_its_hard_expiry_is_refused() {
    let config = config(1, 60);
    let t = 1_000 * SECOND;
    let old = issue(t, &config);
    let mut store = MemoryStore::new(0xABCD, &old.token);
    authenticate(&mut store, &old.token, t + SECOND + SECOND / 2, &config).expect("refreshed");
    assert_eq!(store.previous_access_token, Some(old.token.clone()));

    // inside the grace period of the soft expiry, but past the hard expiry
    let r = authenticate(&mut store, &old.token, t + 2 * SECOND, &config);
    assert!(matches!(r, Err(AuthenticationError::Unauthorised)));
    let r = authenticate(&mut store, &old.token, t + 2 * SECOND - 1, &config);
    assert!(r.is_ok());
}

#[test]
fn lost_swap_keeps_the_presented_identity() {
    let config = config(60, 60);
    let t = 1_000 * SECOND;
    let presented = issue(t, &config);
    let other = AccessTokenResponse::new_at(
        UserInfo { user_id: 0xEEEE, first_name: Some("C".to_owned()), last_name: None },
        t + SECOND,
        &config,
    )
    .expect("valid token");
    let (session, _) = AuthSession::start(&presented.token, t + 70 * SECOND, &config);
    let (session, _) = session.on_user(
        Ok(UserRecord { user_id: 0xABCD, access_token: presented.token.clone(), previous_access_token: None }),
        &config,
    );
    let (session, _) = session.on_update(Ok(0));
    let (_, step) = session.on_access_token(Ok(other.token.clone()), &config);
    match step {
        AuthStep::Finished(Ok((response, user))) => {
            assert_eq!(response.token, other.token);
            assert_eq!(response.expires_at, other.expires_at);
            assert_eq!(user, identity());
        }
        _ => panic!("the stored token is expected"),
    }
}

#[test]
fn digested_token_with_hard_before_soft_expiry_is_refused() {
    let config = config(60, 60);
    let mut payload = 0xABCDu128.to_le_bytes().to_vec();
    write_optional_text(&mut payload, &None);
    write_optional_text(&mut payload, &None);
    write_timestamp(&mut payload, 100);
    write_timestamp(&mut payload, 50);
    let salt = base64::engine::general_purpose::STANDARD.decode(SECRET_SALT_B64).expect("base64");
    let digest = salted_digest_of(&salt, &payload);
    let envelope = DigestAccessToken::from_parts(digest, payload, 100, 50);
    let token = AccessTokenResponse::from_digest_token(&envelope).expect("encodable").token;
    assert!(AccessToken::from_token(&token, &config).is_ok());

    let mut store = MemoryStore::new(0xABCD, &token);
    let r = authenticate(&mut store, &token, 60, &config);
    assert!(matches!(r, Err(AuthenticationError::Unauthorised)));
    assert_eq!(store.swaps_won, 0);
}
