//! Logging in with a password: the password is checked against the stored
//! salted hash, a token is issued and swapped in for the user's current one,
//! and when a concurrent login or refresh won the swap, the token it
//! installed is handed out instead.
use vstd::prelude::*;
use crate::crypto::b64_decoded;
use crate::salted_hashes::{salted_text_hash, verify_text_hash};
use crate::tokens::{
    AccessTokenModel, ParseAccessTokenError, AccessToken, AccessTokenResponse, AccessTokenResponseModel, CreateAccessTokenError, TokenConfig,
    TokenConfigModel, UserInfo, UserInfoModel, decoded_token, issue_outcome, response_for,
};
use crate::authentication::{DbError, DbErrorModel, response_with, updated_view, current_view};
use crate::wire::optional_text_view;

verus! {

/// The fields of a user's record that a login reads.
pub struct StoredUser {
    pub user_id: u128,
    pub first_name: Option<String>,
    pub last_name: Option<String>,
    pub password_salt: String,
    pub password_sha512: String,
    pub access_token: String,
}

pub struct StoredUserModel {
    pub user_id: u128,
    pub first_name: Option<Seq<char>>,
    pub last_name: Option<Seq<char>>,
    pub password_salt: Seq<char>,
    pub password_sha512: Seq<char>,
    pub access_token: Seq<char>,
}

impl View for StoredUser {
    type V = StoredUserModel;

    open spec fn view(&self) -> StoredUserModel {
        StoredUserModel {
            user_id: self.user_id,
            first_name: optional_text_view(self.first_name),
            last_name: optional_text_view(self.last_name),
            password_salt: self.password_salt@,
            password_sha512: self.password_sha512@,
            access_token: self.access_token@,
        }
    }
}

/// The identity that a login issues its token to.
pub open spec fn stored_identity(user: StoredUserModel) -> UserInfoModel {
    UserInfoModel { first_name: user.first_name, last_name: user.last_name, user_id: user.user_id }
}

/// Why a login failed.
#[derive(Debug)]
pub enum LoginError {
    /// The password does not hash to the stored hash.
    WrongPassword,
    /// The stored salt is not base64.
    InvalidPasswordSalt,
    /// No token could be made.
    CreateAccessTokenError(CreateAccessTokenError),
    /// The store failed.
    DbError(DbError),
    /// The token that the store holds for the user is malformed.
    InvalidTokenFormatInDb,
}

pub enum LoginErrorModel {
    WrongPassword,
    InvalidPasswordSalt,
    CreateAccessTokenError(CreateAccessTokenError),
    DbError(DbErrorModel),
    InvalidTokenFormatInDb,
}

impl View for LoginError {
    type V = LoginErrorModel;

    open spec fn view(&self) -> LoginErrorModel {
        match self {
            LoginError::WrongPassword => LoginErrorModel::WrongPassword,
            LoginError::InvalidPasswordSalt => LoginErrorModel::InvalidPasswordSalt,
            LoginError::CreateAccessTokenError(e) => LoginErrorModel::CreateAccessTokenError(*e),
            LoginError::DbError(e) => LoginErrorModel::DbError(e@),
            LoginError::InvalidTokenFormatInDb => LoginErrorModel::InvalidTokenFormatInDb,
        }
    }
}

pub type LoginResult = Result<AccessTokenResponse, LoginError>;

pub type LoginResultModel = Result<AccessTokenResponseModel, LoginErrorModel>;

pub open spec fn login_result_view(r: LoginResult) -> LoginResultModel {
    match r {
        Ok(resp) => Ok(resp@),
        Err(e) => Err(e@),
    }
}

/// What the caller of a login is to do next.
pub enum LoginStep {
    /// The login is over.
    Finished(LoginResult),
    /// Atomically set the user's current token to `new_token` and the
    /// previous one to `expected_token`, only if the current token is still
    /// `expected_token`; pass the number of records changed to
    /// `LoginSession::on_update`.
    UpdateToken { user_id: u128, new_token: String, expected_token: String },
    /// Fetch the user's current token and pass the reply to
    /// `LoginSession::on_access_token`.
    FetchAccessToken { user_id: u128 },
}

pub enum LoginStepModel {
    Finished(LoginResultModel),
    UpdateToken { user_id: u128, new_token: Seq<char>, expected_token: Seq<char> },
    FetchAccessToken { user_id: u128 },
}

impl View for LoginStep {
    type V = LoginStepModel;

    open spec fn view(&self) -> LoginStepModel {
        match self {
            LoginStep::Finished(r) => LoginStepModel::Finished(login_result_view(*r)),
            LoginStep::UpdateToken { user_id, new_token, expected_token } => LoginStepModel::UpdateToken {
                user_id: *user_id,
                new_token: new_token@,
                expected_token: expected_token@,
            },
            LoginStep::FetchAccessToken { user_id } => LoginStepModel::FetchAccessToken { user_id: *user_id },
        }
    }
}

/// Where a login stands.
pub enum LoginSession {
    AwaitingUpdate { user_id: u128, issued: AccessTokenResponse },
    AwaitingAccessToken { user_id: u128 },
    Finished,
}

pub enum LoginSessionModel {
    AwaitingUpdate { user_id: u128, issued: AccessTokenResponseModel },
    AwaitingAccessToken { user_id: u128 },
    Finished,
}

impl View for LoginSession {
    type V = LoginSessionModel;

    open spec fn view(&self) -> LoginSessionModel {
        match self {
            LoginSession::AwaitingUpdate { user_id, issued } => LoginSessionModel::AwaitingUpdate {
                user_id: *user_id,
                issued: issued@,
            },
            LoginSession::AwaitingAccessToken { user_id } => LoginSessionModel::AwaitingAccessToken {
                user_id: *user_id,
            },
            LoginSession::Finished => LoginSessionModel::Finished,
        }
    }
}

/// The first decision: refuse a wrong password, otherwise issue a token at
/// `now` and swap it in for the user's current one.
pub open spec fn login_start_spec(password: Seq<char>, user: StoredUserModel, now: i128, config: TokenConfigModel) -> (
    LoginSessionModel,
    LoginStepModel,
) {
    match b64_decoded(user.password_salt) {
        None => (LoginSessionModel::Finished, LoginStepModel::Finished(Err(LoginErrorModel::InvalidPasswordSalt))),
        Some(salt) => if salted_text_hash(password, salt) != user.password_sha512 {
            (LoginSessionModel::Finished, LoginStepModel::Finished(Err(LoginErrorModel::WrongPassword)))
        } else {
            match issue_outcome(stored_identity(user), now as int, config) {
                Err(e) => (
                    LoginSessionModel::Finished,
                    LoginStepModel::Finished(Err(LoginErrorModel::CreateAccessTokenError(e))),
                ),
                Ok(n) => (
                    LoginSessionModel::AwaitingUpdate {
                        user_id: user.user_id,
                        issued: response_for(n, config.secret_salt),
                    },
                    LoginStepModel::UpdateToken {
                        user_id: user.user_id,
                        new_token: response_for(n, config.secret_salt).token,
                        expected_token: user.access_token,
                    },
                ),
            }
        },
    }
}

/// The decision on the swap (taken in the stage that awaits it): the issued
/// token if it went in, otherwise the user's current token is fetched.
pub open spec fn login_on_update_spec(session: LoginSessionModel, updated: Result<u64, DbErrorModel>) -> (
    LoginSessionModel,
    LoginStepModel,
) {
    match session {
        LoginSessionModel::AwaitingUpdate { user_id, issued } => match updated {
            Err(e) => (LoginSessionModel::Finished, LoginStepModel::Finished(Err(LoginErrorModel::DbError(e)))),
            Ok(n) => if n == 0 {
                (
                    LoginSessionModel::AwaitingAccessToken { user_id },
                    LoginStepModel::FetchAccessToken { user_id },
                )
            } else {
                (LoginSessionModel::Finished, LoginStepModel::Finished(Ok(issued)))
            },
        },
        _ => (session, LoginStepModel::Finished(Err(LoginErrorModel::WrongPassword))),
    }
}

/// The decision on the current token fetched after a lost swap (taken in the
/// stage that awaits it): it is handed out with its payload's expiries.
pub open spec fn login_on_access_token_spec(
    session: LoginSessionModel,
    current: Result<Seq<char>, DbErrorModel>,
    config: TokenConfigModel,
) -> (LoginSessionModel, LoginStepModel) {
    match session {
        LoginSessionModel::AwaitingAccessToken { .. } => match current {
            Err(e) => (LoginSessionModel::Finished, LoginStepModel::Finished(Err(LoginErrorModel::DbError(e)))),
            Ok(s) => match decoded_token(s, config.secret_salt) {
                Ok(c) => (LoginSessionModel::Finished, LoginStepModel::Finished(Ok(response_with(s, c)))),
                Err(_) => (
                    LoginSessionModel::Finished,
                    LoginStepModel::Finished(Err(LoginErrorModel::InvalidTokenFormatInDb)),
                ),
            },
        },
        _ => (session, LoginStepModel::Finished(Err(LoginErrorModel::WrongPassword))),
    }
}

impl LoginSession {
    /// Begins a login of `user` with `password` at `now`.
    pub fn start(password: &str, user: &StoredUser, now: i128, config: &TokenConfig) -> (r: (LoginSession, LoginStep))
        ensures
            (r.0@, r.1@) == login_start_spec(password@, user@, now, config@),
            r.1@ matches LoginStepModel::UpdateToken { new_token, .. } ==> issue_outcome(
                stored_identity(user@),
                now as int,
                config@,
            ) matches Ok(n) && decoded_token(new_token, config@.secret_salt) == Ok::<
                AccessTokenModel,
                ParseAccessTokenError,
            >(n),
    {
        match verify_text_hash(password, user.password_salt.as_str(), user.password_sha512.as_str()) {
            None => (LoginSession::Finished, LoginStep::Finished(Err(LoginError::InvalidPasswordSalt))),
            Some(false) => (LoginSession::Finished, LoginStep::Finished(Err(LoginError::WrongPassword))),
            Some(true) => {
                let identity = UserInfo {
                    first_name: crate::wire::copy_optional_text(&user.first_name),
                    last_name: crate::wire::copy_optional_text(&user.last_name),
                    user_id: user.user_id,
                };
                match AccessTokenResponse::new_at(identity, now, config) {
                    Err(e) => (
                        LoginSession::Finished,
                        LoginStep::Finished(Err(LoginError::CreateAccessTokenError(e))),
                    ),
                    Ok(issued) => {
                        let new_token = issued.token.clone();
                        let expected_token = user.access_token.clone();
                        (
                            LoginSession::AwaitingUpdate { user_id: user.user_id, issued },
                            LoginStep::UpdateToken { user_id: user.user_id, new_token, expected_token },
                        )
                    },
                }
            },
        }
    }

    /// Goes on with the store's reply to `LoginStep::UpdateToken`.
    pub fn on_update(self, updated: Result<u64, DbError>) -> (r: (LoginSession, LoginStep))
        requires
            self@ is AwaitingUpdate,
        ensures
            (r.0@, r.1@) == login_on_update_spec(self@, updated_view(updated)),
    {
        match self {
            LoginSession::AwaitingUpdate { user_id, issued } => match updated {
                Err(e) => (LoginSession::Finished, LoginStep::Finished(Err(LoginError::DbError(e)))),
                Ok(n) => {
                    if n == 0 {
                        (LoginSession::AwaitingAccessToken { user_id }, LoginStep::FetchAccessToken { user_id })
                    } else {
                        (LoginSession::Finished, LoginStep::Finished(Ok(issued)))
                    }
                },
            },
            _ => (self, LoginStep::Finished(Err(LoginError::WrongPassword))),
        }
    }

    /// Goes on with the store's reply to `LoginStep::FetchAccessToken`.
    pub fn on_access_token(self, current: Result<String, DbError>, config: &TokenConfig) -> (r: (
        LoginSession,
        LoginStep,
    ))
        requires
            self@ is AwaitingAccessToken,
        ensures
            (r.0@, r.1@) == login_on_access_token_spec(self@, current_view(current), config@),
    {
        match self {
            LoginSession::AwaitingAccessToken { .. } => match current {
                Err(e) => (LoginSession::Finished, LoginStep::Finished(Err(LoginError::DbError(e)))),
                Ok(s) => match AccessToken::from_token(s.as_str(), config) {
                    Ok(c) => {
                        let expires_at = c.get_expires_at();
                        let refresh_at = c.get_refresh_at();
                        (
                            LoginSession::Finished,
                            LoginStep::Finished(Ok(AccessTokenResponse { token: s, expires_at, refresh_at })),
                        )
                    },
                    Err(_) => (LoginSession::Finished, LoginStep::Finished(Err(LoginError::InvalidTokenFormatInDb))),
                },
            },
            _ => (self, LoginStep::Finished(Err(LoginError::WrongPassword))),
        }
    }
}

} // verus!
