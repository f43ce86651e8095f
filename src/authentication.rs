//! The refresh coordinator. Authenticating a presented token is a short
//! conversation with the user-record store: the session below decides each
//! step from the store's last reply, and the caller performs the store
//! operation that the step names and hands the reply back.
use vstd::prelude::*;
use crate::tokens::{
    AccessToken, AccessTokenModel, AccessTokenResponse, AccessTokenResponseModel, TokenConfig,
    TokenConfigModel, UserInfo, UserInfoModel, ParseAccessTokenError, decoded_token, issue_outcome,
    response_for,
};

verus! {

/// A failure reported by the user-record store.
#[derive(Clone, Debug, PartialEq, Eq)]
pub enum DbError {
    /// No record for the user.
    NotFoundError,
    /// The store is unavailable for now; the operation may be retried.
    UnavailableTryAgain,
    /// Any other failure, described.
    UnexpectedError(String),
}

pub enum DbErrorModel {
    NotFoundError,
    UnavailableTryAgain,
    UnexpectedError(Seq<char>),
}

impl View for DbError {
    type V = DbErrorModel;

    open spec fn view(&self) -> DbErrorModel {
        match self {
            DbError::NotFoundError => DbErrorModel::NotFoundError,
            DbError::UnavailableTryAgain => DbErrorModel::UnavailableTryAgain,
            DbError::UnexpectedError(s) => DbErrorModel::UnexpectedError(s@),
        }
    }
}

/// Why a presented token was not accepted.
#[derive(Debug)]
pub enum AuthenticationError {
    /// The presented token is malformed or its digest does not match.
    InvalidInputTokenFormat,
    /// The token that the store holds for the user is malformed.
    InvalidTokenFormatInDb,
    /// A refreshed token could not be made.
    DecodeTokenError,
    /// The store failed.
    DbError(DbError),
    /// The token is neither the user's current token nor a just-superseded
    /// one inside the grace period, or it is past its hard expiry.
    Unauthorised,
}

pub enum AuthenticationErrorModel {
    InvalidInputTokenFormat,
    InvalidTokenFormatInDb,
    DecodeTokenError,
    DbError(DbErrorModel),
    Unauthorised,
}

impl View for AuthenticationError {
    type V = AuthenticationErrorModel;

    open spec fn view(&self) -> AuthenticationErrorModel {
        match self {
            AuthenticationError::InvalidInputTokenFormat => AuthenticationErrorModel::InvalidInputTokenFormat,
            AuthenticationError::InvalidTokenFormatInDb => AuthenticationErrorModel::InvalidTokenFormatInDb,
            AuthenticationError::DecodeTokenError => AuthenticationErrorModel::DecodeTokenError,
            AuthenticationError::DbError(e) => AuthenticationErrorModel::DbError(e@),
            AuthenticationError::Unauthorised => AuthenticationErrorModel::Unauthorised,
        }
    }
}

/// The token fields of a user's record in the store.
pub struct UserRecord {
    pub user_id: u128,
    pub access_token: String,
    pub previous_access_token: Option<String>,
}

pub struct UserRecordModel {
    pub user_id: u128,
    pub access_token: Seq<char>,
    pub previous_access_token: Option<Seq<char>>,
}

impl View for UserRecord {
    type V = UserRecordModel;

    open spec fn view(&self) -> UserRecordModel {
        UserRecordModel {
            user_id: self.user_id,
            access_token: self.access_token@,
            previous_access_token: crate::wire::optional_text_view(self.previous_access_token),
        }
    }
}

/// The outcome of authentication: the token the caller is to use from now
/// on with the identity it carries, or why the presented one was refused.
pub type AuthResult = Result<(AccessTokenResponse, UserInfo), AuthenticationError>;

pub type AuthResultModel = Result<(AccessTokenResponseModel, UserInfoModel), AuthenticationErrorModel>;

pub open spec fn auth_result_view(r: AuthResult) -> AuthResultModel {
    match r {
        Ok((resp, user)) => Ok((resp@, user@)),
        Err(e) => Err(e@),
    }
}

/// What the caller is to do next.
pub enum AuthStep {
    /// Authentication is over.
    Finished(AuthResult),
    /// Fetch the user's record and pass the reply to `AuthSession::on_user`.
    FetchUser { user_id: u128 },
    /// Atomically set the user's current token to `new_token` and the
    /// previous one to `expected_token`, only if the current token is still
    /// `expected_token`; pass the number of records changed to
    /// `AuthSession::on_update`.
    UpdateToken { user_id: u128, new_token: String, expected_token: String },
    /// Fetch the user's current token and pass the reply to
    /// `AuthSession::on_access_token`.
    FetchAccessToken { user_id: u128 },
}

pub enum AuthStepModel {
    Finished(AuthResultModel),
    FetchUser { user_id: u128 },
    UpdateToken { user_id: u128, new_token: Seq<char>, expected_token: Seq<char> },
    FetchAccessToken { user_id: u128 },
}

impl View for AuthStep {
    type V = AuthStepModel;

    open spec fn view(&self) -> AuthStepModel {
        match self {
            AuthStep::Finished(r) => AuthStepModel::Finished(auth_result_view(*r)),
            AuthStep::FetchUser { user_id } => AuthStepModel::FetchUser { user_id: *user_id },
            AuthStep::UpdateToken { user_id, new_token, expected_token } => AuthStepModel::UpdateToken {
                user_id: *user_id,
                new_token: new_token@,
                expected_token: expected_token@,
            },
            AuthStep::FetchAccessToken { user_id } => AuthStepModel::FetchAccessToken { user_id: *user_id },
        }
    }
}

/// Where an authentication stands: the presented token text, its payload,
/// and the instant at which it was presented, for as long as the store is
/// still to be heard from.
pub enum AuthSession {
    AwaitingUser { token: String, presented: AccessToken, now: i128 },
    AwaitingUpdate { token: String, presented: AccessToken, now: i128, refreshed: AccessTokenResponse },
    AwaitingAccessToken { token: String, presented: AccessToken, now: i128 },
    Finished,
}

pub enum AuthSessionModel {
    AwaitingUser { token: Seq<char>, presented: AccessTokenModel, now: i128 },
    AwaitingUpdate {
        token: Seq<char>,
        presented: AccessTokenModel,
        now: i128,
        refreshed: AccessTokenResponseModel,
    },
    AwaitingAccessToken { token: Seq<char>, presented: AccessTokenModel, now: i128 },
    Finished,
}

impl View for AuthSession {
    type V = AuthSessionModel;

    open spec fn view(&self) -> AuthSessionModel {
        match self {
            AuthSession::AwaitingUser { token, presented, now } => AuthSessionModel::AwaitingUser {
                token: token@,
                presented: presented@,
                now: *now,
            },
            AuthSession::AwaitingUpdate { token, presented, now, refreshed } => AuthSessionModel::AwaitingUpdate {
                token: token@,
                presented: presented@,
                now: *now,
                refreshed: refreshed@,
            },
            AuthSession::AwaitingAccessToken { token, presented, now } => AuthSessionModel::AwaitingAccessToken {
                token: token@,
                presented: presented@,
                now: *now,
            },
            AuthSession::Finished => AuthSessionModel::Finished,
        }
    }
}

/* The decisions, over models. */

/// The response that carries a token text with the expiries of its payload.
pub open spec fn response_with(token: Seq<char>, t: AccessTokenModel) -> AccessTokenResponseModel {
    AccessTokenResponseModel { token, expires_at: t.expires_at, refresh_at: t.refresh_at }
}

/// Accepting a token that the store holds: its own text with its payload's
/// expiries and identity, or a failure when it does not decode.
pub open spec fn accept_stored(token: Seq<char>, config: TokenConfigModel) -> AuthResultModel {
    match decoded_token(token, config.secret_salt) {
        Ok(c) => Ok((response_with(token, c), c.user)),
        Err(_) => Err(AuthenticationErrorModel::InvalidTokenFormatInDb),
    }
}

/// Whether `now` falls before the end of the grace period that follows the
/// soft expiry of a payload; the period ends at the latest at its hard
/// expiry.
pub open spec fn within_grace(presented: AccessTokenModel, now: int, config: TokenConfigModel) -> bool {
    now < presented.expires_at + config.grace_period && now < presented.refresh_at
}

/// The first decision: refuse a token that does not decode, accept one that
/// is before its soft (and its hard) expiry without asking the store, and
/// otherwise fetch the user's record.
pub open spec fn start_spec(token: Seq<char>, now: i128, config: TokenConfigModel) -> (
    AuthSessionModel,
    AuthStepModel,
) {
    match decoded_token(token, config.secret_salt) {
        Err(_) => (
            AuthSessionModel::Finished,
            AuthStepModel::Finished(Err(AuthenticationErrorModel::InvalidInputTokenFormat)),
        ),
        Ok(p) => if now < p.expires_at && now < p.refresh_at {
            (AuthSessionModel::Finished, AuthStepModel::Finished(Ok((response_with(token, p), p.user))))
        } else {
            (
                AuthSessionModel::AwaitingUser { token, presented: p, now },
                AuthStepModel::FetchUser { user_id: p.user.user_id },
            )
        },
    }
}

/// The decision on the user's record (taken in the stage that awaits it). A
/// token that is not the current one is honoured only as the previous one
/// within the grace period, and the current one is then handed out instead; the
/// current token past its hard expiry is refused; otherwise a successor is
/// issued and swapped in.
pub open spec fn on_user_spec(
    session: AuthSessionModel,
    record: Result<UserRecordModel, DbErrorModel>,
    config: TokenConfigModel,
) -> (AuthSessionModel, AuthStepModel) {
    match session {
        AuthSessionModel::AwaitingUser { token, presented, now } => match record {
            Err(e) => (
                AuthSessionModel::Finished,
                AuthStepModel::Finished(Err(AuthenticationErrorModel::DbError(e))),
            ),
            Ok(rec) => if rec.access_token != token {
                if rec.previous_access_token == Some(token) && within_grace(presented, now as int, config) {
                    (AuthSessionModel::Finished, AuthStepModel::Finished(accept_stored(rec.access_token, config)))
                } else {
                    (
                        AuthSessionModel::Finished,
                        AuthStepModel::Finished(Err(AuthenticationErrorModel::Unauthorised)),
                    )
                }
            } else if now >= presented.refresh_at {
                (AuthSessionModel::Finished, AuthStepModel::Finished(Err(AuthenticationErrorModel::Unauthorised)))
            } else {
                match issue_outcome(presented.user, now as int, config) {
                    Err(_) => (
                        AuthSessionModel::Finished,
                        AuthStepModel::Finished(Err(AuthenticationErrorModel::DecodeTokenError)),
                    ),
                    Ok(n) => (
                        AuthSessionModel::AwaitingUpdate {
                            token,
                            presented,
                            now,
                            refreshed: response_for(n, config.secret_salt),
                        },
                        AuthStepModel::UpdateToken {
                            user_id: presented.user.user_id,
                            new_token: response_for(n, config.secret_salt).token,
                            expected_token: token,
                        },
                    ),
                }
            },
        },
        _ => (session, AuthStepModel::Finished(Err(AuthenticationErrorModel::Unauthorised))),
    }
}

/// The decision on the swap (taken in the stage that awaits it): the swap that
/// changed the record hands out the successor; one that changed nothing lost to
/// a concurrent refresh, and the current token is fetched instead.
pub open spec fn on_update_spec(session: AuthSessionModel, updated: Result<u64, DbErrorModel>) -> (
    AuthSessionModel,
    AuthStepModel,
) {
    match session {
        AuthSessionModel::AwaitingUpdate { token, presented, now, refreshed } => match updated {
            Err(e) => (
                AuthSessionModel::Finished,
                AuthStepModel::Finished(Err(AuthenticationErrorModel::DbError(e))),
            ),
            Ok(n) => if n == 0 {
                (
                    AuthSessionModel::AwaitingAccessToken { token, presented, now },
                    AuthStepModel::FetchAccessToken { user_id: presented.user.user_id },
                )
            } else {
                (AuthSessionModel::Finished, AuthStepModel::Finished(Ok((refreshed, presented.user))))
            },
        },
        _ => (session, AuthStepModel::Finished(Err(AuthenticationErrorModel::Unauthorised))),
    }
}

/// The decision on the current token fetched after a lost swap (taken in the
/// stage that awaits it): it is handed out with its payload's expiries and
/// the presented token's identity.
pub open spec fn on_access_token_spec(
    session: AuthSessionModel,
    current: Result<Seq<char>, DbErrorModel>,
    config: TokenConfigModel,
) -> (AuthSessionModel, AuthStepModel) {
    match session {
        AuthSessionModel::AwaitingAccessToken { presented, .. } => match current {
            Err(e) => (
                AuthSessionModel::Finished,
                AuthStepModel::Finished(Err(AuthenticationErrorModel::DbError(e))),
            ),
            Ok(s) => match decoded_token(s, config.secret_salt) {
                Ok(c) => (
                    AuthSessionModel::Finished,
                    AuthStepModel::Finished(Ok((response_with(s, c), presented.user))),
                ),
                Err(_) => (
                    AuthSessionModel::Finished,
                    AuthStepModel::Finished(Err(AuthenticationErrorModel::InvalidTokenFormatInDb)),
                ),
            },
        },
        _ => (session, AuthStepModel::Finished(Err(AuthenticationErrorModel::Unauthorised))),
    }
}

/// Whether a session's minted successor, if it holds one, decodes to the
/// payload issued for it.
pub open spec fn refreshed_decodes(session: AuthSessionModel, config: TokenConfigModel) -> bool {
    match session {
        AuthSessionModel::AwaitingUpdate { presented, now, refreshed, .. } => match issue_outcome(
            presented.user,
            now as int,
            config,
        ) {
            Ok(n) => decoded_token(refreshed.token, config.secret_salt) == Ok::<
                AccessTokenModel,
                ParseAccessTokenError,
            >(n),
            Err(_) => false,
        },
        _ => true,
    }
}

pub open spec fn record_view(record: Result<UserRecord, DbError>) -> Result<UserRecordModel, DbErrorModel> {
    match record {
        Ok(r) => Ok(r@),
        Err(e) => Err(e@),
    }
}

pub open spec fn updated_view(updated: Result<u64, DbError>) -> Result<u64, DbErrorModel> {
    match updated {
        Ok(n) => Ok(n),
        Err(e) => Err(e@),
    }
}

pub open spec fn current_view(current: Result<String, DbError>) -> Result<Seq<char>, DbErrorModel> {
    match current {
        Ok(s) => Ok(s@),
        Err(e) => Err(e@),
    }
}

/// Whether `now` is before `expires_at + grace`.
fn before_grace_end(expires_at: i128, now: i128, grace: i128) -> (r: bool)
    requires
        grace >= 0,
    ensures
        r == (now < expires_at + grace),
{
    if expires_at > i128::MAX - grace {
        true
    } else {
        now < expires_at + grace
    }
}

/// Accepts a token that the store holds.
fn accept_stored_token(token: String, config: &TokenConfig) -> (r: AuthResult)
    ensures
        auth_result_view(r) == accept_stored(token@, config@),
{
    match AccessToken::from_token(token.as_str(), config) {
        Ok(c) => {
            let user = c.get_user().duplicate();
            let response = AccessTokenResponse {
                token,
                expires_at: c.get_expires_at(),
                refresh_at: c.get_refresh_at(),
            };
            Ok((response, user))
        },
        Err(_) => Err(AuthenticationError::InvalidTokenFormatInDb),
    }
}

impl AuthSession {
    /// Begins authenticating `token` presented at `now`.
    pub fn start(token: &str, now: i128, config: &TokenConfig) -> (r: (AuthSession, AuthStep))
        ensures
            (r.0@, r.1@) == start_spec(token@, now, config@),
    {
        match AccessToken::from_token(token, config) {
            Err(_) => (
                AuthSession::Finished,
                AuthStep::Finished(Err(AuthenticationError::InvalidInputTokenFormat)),
            ),
            Ok(p) => {
                if now < p.get_expires_at() && now < p.get_refresh_at() {
                    let response = AccessTokenResponse {
                        token: token.to_owned(),
                        expires_at: p.get_expires_at(),
                        refresh_at: p.get_refresh_at(),
                    };
                    let user = p.get_user().duplicate();
                    (AuthSession::Finished, AuthStep::Finished(Ok((response, user))))
                } else {
                    let user_id = p.get_user().user_id;
                    (
                        AuthSession::AwaitingUser { token: token.to_owned(), presented: p, now },
                        AuthStep::FetchUser { user_id },
                    )
                }
            },
        }
    }

    /// Goes on with the store's reply to `AuthStep::FetchUser`.
    pub fn on_user(self, record: Result<UserRecord, DbError>, config: &TokenConfig) -> (r: (AuthSession, AuthStep))
        requires
            self@ is AwaitingUser,
        ensures
            (r.0@, r.1@) == on_user_spec(self@, record_view(record), config@),
            refreshed_decodes(r.0@, config@),
    {
        let grace = config.grace_period();
        match self {
            AuthSession::AwaitingUser { token, presented, now } => match record {
                Err(e) => (AuthSession::Finished, AuthStep::Finished(Err(AuthenticationError::DbError(e)))),
                Ok(rec) => {
                    if !(rec.access_token == token) {
                        let is_previous = match &rec.previous_access_token {
                            Some(previous) => *previous == token,
                            None => false,
                        };
                        if is_previous && now < presented.get_refresh_at() && before_grace_end(
                            presented.get_expires_at(),
                            now,
                            grace,
                        ) {
                            (AuthSession::Finished, AuthStep::Finished(accept_stored_token(rec.access_token, config)))
                        } else {
                            (AuthSession::Finished, AuthStep::Finished(Err(AuthenticationError::Unauthorised)))
                        }
                    } else if now >= presented.get_refresh_at() {
                        (AuthSession::Finished, AuthStep::Finished(Err(AuthenticationError::Unauthorised)))
                    } else {
                        let user = presented.get_user().duplicate();
                        let issued = AccessTokenResponse::new_at(user, now, config);
                        match issued {
                            Err(_) => (
                                AuthSession::Finished,
                                AuthStep::Finished(Err(AuthenticationError::DecodeTokenError)),
                            ),
                            Ok(refreshed) => {
                                let new_token = refreshed.token.clone();
                                let user_id = presented.get_user().user_id;
                                let expected_token = token.clone();
                                (
                                    AuthSession::AwaitingUpdate { token, presented, now, refreshed },
                                    AuthStep::UpdateToken { user_id, new_token, expected_token },
                                )
                            },
                        }
                    }
                },
            },
            _ => (self, AuthStep::Finished(Err(AuthenticationError::Unauthorised))),
        }
    }

    /// Goes on with the store's reply to `AuthStep::UpdateToken`: the number
    /// of records that the swap changed.
    pub fn on_update(self, updated: Result<u64, DbError>) -> (r: (AuthSession, AuthStep))
        requires
            self@ is AwaitingUpdate,
        ensures
            (r.0@, r.1@) == on_update_spec(self@, updated_view(updated)),
    {
        match self {
            AuthSession::AwaitingUpdate { token, presented, now, refreshed } => match updated {
                Err(e) => (AuthSession::Finished, AuthStep::Finished(Err(AuthenticationError::DbError(e)))),
                Ok(n) => {
                    if n == 0 {
                        let user_id = presented.get_user().user_id;
                        (
                            AuthSession::AwaitingAccessToken { token, presented, now },
                            AuthStep::FetchAccessToken { user_id },
                        )
                    } else {
                        let user = presented.get_user().duplicate();
                        (AuthSession::Finished, AuthStep::Finished(Ok((refreshed, user))))
                    }
                },
            },
            _ => (self, AuthStep::Finished(Err(AuthenticationError::Unauthorised))),
        }
    }

    /// Goes on with the store's reply to `AuthStep::FetchAccessToken`.
    pub fn on_access_token(self, current: Result<String, DbError>, config: &TokenConfig) -> (r: (
        AuthSession,
        AuthStep,
    ))
        requires
            self@ is AwaitingAccessToken,
        ensures
            (r.0@, r.1@) == on_access_token_spec(self@, current_view(current), config@),
    {
        match self {
            AuthSession::AwaitingAccessToken { presented, .. } => match current {
                Err(e) => (AuthSession::Finished, AuthStep::Finished(Err(AuthenticationError::DbError(e)))),
                Ok(s) => match AccessToken::from_token(s.as_str(), config) {
                    Ok(c) => {
                        let response = AccessTokenResponse {
                            token: s,
                            expires_at: c.get_expires_at(),
                            refresh_at: c.get_refresh_at(),
                        };
                        let user = presented.get_user().duplicate();
                        (AuthSession::Finished, AuthStep::Finished(Ok((response, user))))
                    },
                    Err(_) => (
                        AuthSession::Finished,
                        AuthStep::Finished(Err(AuthenticationError::InvalidTokenFormatInDb)),
                    ),
                },
            },
            _ => (self, AuthStep::Finished(Err(AuthenticationError::Unauthorised))),
        }
    }
}

/* Laws of the coordinator. */

/// A token presented before its soft expiry (and before its hard expiry,
/// which an issued token always has later) is accepted as it is, with its
/// own expiries and identity, and the store is never asked.
pub proof fn lemma_fresh_token_needs_no_store(
    token: Seq<char>,
    now: i128,
    config: TokenConfigModel,
    presented: AccessTokenModel,
)
    requires
        decoded_token(token, config.secret_salt) == Ok::<AccessTokenModel, ParseAccessTokenError>(presented),
        now < presented.expires_at,
        now < presented.refresh_at,
    ensures
        start_spec(token, now, config) == (
            AuthSessionModel::Finished,
            AuthStepModel::Finished(Ok((response_with(token, presented), presented.user))),
        ),
{
}

/// A token presented at or after its hard expiry is refused as unauthorised
/// once the store has answered with the user's record, whatever the record
/// holds: also when it is the record's current token or its previous one.
pub proof fn lemma_hard_expiry_refused(
    token: Seq<char>,
    now: i128,
    config: TokenConfigModel,
    presented: AccessTokenModel,
    record: UserRecordModel,
)
    requires
        decoded_token(token, config.secret_salt) == Ok::<AccessTokenModel, ParseAccessTokenError>(presented),
        now >= presented.refresh_at,
    ensures
        start_spec(token, now, config) == (
            AuthSessionModel::AwaitingUser { token, presented, now },
            AuthStepModel::FetchUser { user_id: presented.user.user_id },
        ),
        on_user_spec(start_spec(token, now, config).0, Ok(record), config) == (
            AuthSessionModel::Finished,
            AuthStepModel::Finished(Err(AuthenticationErrorModel::Unauthorised)),
        ),
{
}

/// The record's previous token, presented within the grace period after its
/// soft expiry (and before its hard expiry), is honoured: the caller gets the
/// record's current token with that token's expiries and identity. Presented
/// after the grace period, it is refused as unauthorised.
pub proof fn lemma_grace_window(
    token: Seq<char>,
    now: i128,
    config: TokenConfigModel,
    presented: AccessTokenModel,
    record: UserRecordModel,
)
    requires
        record.access_token != token,
        record.previous_access_token == Some(token),
    ensures
        within_grace(presented, now as int, config) ==> match decoded_token(record.access_token, config.secret_salt) {
            Ok(current) => on_user_spec(AuthSessionModel::AwaitingUser { token, presented, now }, Ok(record), config)
                == (
                AuthSessionModel::Finished,
                AuthStepModel::Finished(Ok((response_with(record.access_token, current), current.user))),
            ),
            Err(_) => on_user_spec(AuthSessionModel::AwaitingUser { token, presented, now }, Ok(record), config)
                == (
                AuthSessionModel::Finished,
                AuthStepModel::Finished(Err(AuthenticationErrorModel::InvalidTokenFormatInDb)),
            ),
        },
        !within_grace(presented, now as int, config) ==> on_user_spec(
            AuthSessionModel::AwaitingUser { token, presented, now },
            Ok(record),
            config,
        ) == (AuthSessionModel::Finished, AuthStepModel::Finished(Err(AuthenticationErrorModel::Unauthorised))),
{
}

} // verus!
