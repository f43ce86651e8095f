//! What the HTTP layer shows of the library: request bodies, the error body,
//! and the status and body that each failure is answered with. A failed
//! authentication is answered either as unauthorised or as unavailable (or,
//! for a fault of the service itself, as an internal error), never with a
//! message that tells which check failed.
use vstd::prelude::*;
use crate::authentication::{AuthenticationError, AuthenticationErrorModel, DbError, DbErrorModel};

verus! {

pub const STATUS_ALREADY_REPORTED: u16 = 208;
pub const STATUS_UNAUTHORIZED: u16 = 401;
pub const STATUS_NOT_FOUND: u16 = 404;
pub const STATUS_TRY_AGAIN: u16 = 430;
pub const STATUS_INTERNAL_SERVER_ERROR: u16 = 500;
pub const STATUS_SERVICE_UNAVAILABLE: u16 = 503;

pub const NOT_FOUND_ERROR_MSG: &'static str = "Not found";
pub const INTERNAL_SERVER_ERROR_MSG: &'static str = "Internal server error";
pub const SERVICE_UNAVAILABLE_MSG: &'static str = "Service unavailable";
pub const UNAUTHORIZED_ERROR_MSG: &'static str = "Unauthorized, please try to login again";
pub const ALREADY_REGISTERED_MSG: &'static str = "user for given email already exists";
pub const EMAIL_NOT_REGISTERED_MSG: &'static str = "user for a given email is not registered";
pub const WRONG_PASSWORD_MSG: &'static str = "Entered password is wrong, please try again";

/// A machine-readable reason in an error body.
#[derive(Clone, Copy, Debug, PartialEq, Eq, Structural)]
pub enum ErrorCode {
    AlreadyRegistered,
    InvalidInput,
}

/// The body of an error response.
#[derive(Clone, Debug)]
pub struct ErrorResponseBody {
    pub code: Option<ErrorCode>,
    pub error: String,
}

/// What a registration request carries.
#[derive(Clone, Debug)]
pub struct RegisterUserData {
    pub email: String,
    pub password: String,
    pub first_name: Option<String>,
    pub last_name: Option<String>,
    pub language_code: String,
}

/// The body of a registration request.
#[derive(Clone, Debug)]
pub struct RegisterUserRequestBody {
    pub data: RegisterUserData,
}

/// What a login request carries.
#[derive(Clone, Debug)]
pub struct LoginUserData {
    pub email: String,
    pub password: String,
}

/// The body of a login request.
#[derive(Clone, Debug)]
pub struct LoginUserDataBody {
    pub data: LoginUserData,
}

/// Why a registration failed.
#[derive(Debug)]
pub enum RegisterUserErrorResponse {
    DbError(DbError),
    AlreadyRegistered,
}

/// Why a login failed.
#[derive(Debug)]
pub enum LoginUserErrorResponse {
    DbError(DbError),
    NotFound,
    InvalidPassword,
}

/// The stores that the service works with.
#[derive(Clone)]
pub struct WebService<UDB, PDB> {
    pub user_db: UDB,
    pub project_db: PDB,
}

impl<UDB, PDB> WebService<UDB, PDB> {
    pub fn new(user_db: UDB, project_db: PDB) -> (r: Self)
        ensures
            r.user_db == user_db,
            r.project_db == project_db,
    {
        WebService { user_db, project_db }
    }
}

/// An error response: its status, its code and its message.
pub struct ErrorReply {
    pub status: u16,
    pub body: ErrorResponseBody,
}

/// The status, code and message of an error response.
pub open spec fn reply_is(r: ErrorReply, status: u16, code: Option<ErrorCode>, message: Seq<char>) -> bool {
    r.status == status && r.body.code == code && r.body.error@ == message
}

fn reply(status: u16, code: Option<ErrorCode>, message: &str) -> (r: ErrorReply)
    ensures
        reply_is(r, status, code, message@),
{
    ErrorReply { status, body: ErrorResponseBody { code, error: message.to_owned() } }
}

/// The response to a store failure.
pub open spec fn db_error_reply(r: ErrorReply, e: DbErrorModel) -> bool {
    match e {
        DbErrorModel::NotFoundError => reply_is(r, STATUS_NOT_FOUND, None, NOT_FOUND_ERROR_MSG@),
        DbErrorModel::UnavailableTryAgain => reply_is(r, STATUS_TRY_AGAIN, None, SERVICE_UNAVAILABLE_MSG@),
        DbErrorModel::UnexpectedError(_) => reply_is(
            r,
            STATUS_INTERNAL_SERVER_ERROR,
            None,
            INTERNAL_SERVER_ERROR_MSG@,
        ),
    }
}

/// The response to a failed authentication: a malformed or refused token is
/// unauthorised, as is a token whose user the store does not know; any other
/// store failure makes the service unavailable; a fault in making or reading
/// the service's own tokens is an internal error.
pub open spec fn authentication_error_reply(r: ErrorReply, e: AuthenticationErrorModel) -> bool {
    match e {
        AuthenticationErrorModel::InvalidInputTokenFormat | AuthenticationErrorModel::Unauthorised
        | AuthenticationErrorModel::DbError(DbErrorModel::NotFoundError) => reply_is(
            r,
            STATUS_UNAUTHORIZED,
            None,
            UNAUTHORIZED_ERROR_MSG@,
        ),
        AuthenticationErrorModel::DbError(_) => reply_is(
            r,
            STATUS_SERVICE_UNAVAILABLE,
            None,
            SERVICE_UNAVAILABLE_MSG@,
        ),
        AuthenticationErrorModel::DecodeTokenError | AuthenticationErrorModel::InvalidTokenFormatInDb => reply_is(
            r,
            STATUS_INTERNAL_SERVER_ERROR,
            None,
            INTERNAL_SERVER_ERROR_MSG@,
        ),
    }
}

impl DbError {
    /// The response to this store failure.
    pub fn error_reply(&self) -> (r: ErrorReply)
        ensures
            db_error_reply(r, self@),
    {
        match self {
            DbError::NotFoundError => reply(STATUS_NOT_FOUND, None, NOT_FOUND_ERROR_MSG),
            DbError::UnavailableTryAgain => reply(STATUS_TRY_AGAIN, None, SERVICE_UNAVAILABLE_MSG),
            DbError::UnexpectedError(_) => reply(STATUS_INTERNAL_SERVER_ERROR, None, INTERNAL_SERVER_ERROR_MSG),
        }
    }
}

impl AuthenticationError {
    /// The response to this failed authentication.
    pub fn error_reply(&self) -> (r: ErrorReply)
        ensures
            authentication_error_reply(r, self@),
    {
        match self {
            AuthenticationError::InvalidInputTokenFormat | AuthenticationError::Unauthorised => reply(
                STATUS_UNAUTHORIZED,
                None,
                UNAUTHORIZED_ERROR_MSG,
            ),
            AuthenticationError::DbError(DbError::NotFoundError) => reply(
                STATUS_UNAUTHORIZED,
                None,
                UNAUTHORIZED_ERROR_MSG,
            ),
            AuthenticationError::DbError(_) => reply(STATUS_SERVICE_UNAVAILABLE, None, SERVICE_UNAVAILABLE_MSG),
            AuthenticationError::DecodeTokenError | AuthenticationError::InvalidTokenFormatInDb => reply(
                STATUS_INTERNAL_SERVER_ERROR,
                None,
                INTERNAL_SERVER_ERROR_MSG,
            ),
        }
    }
}

impl RegisterUserErrorResponse {
    /// The response to this failed registration.
    pub fn error_reply(&self) -> (r: ErrorReply)
        ensures
            match self {
                RegisterUserErrorResponse::DbError(e) => db_error_reply(r, e@),
                RegisterUserErrorResponse::AlreadyRegistered => reply_is(
                    r,
                    STATUS_ALREADY_REPORTED,
                    Some(ErrorCode::AlreadyRegistered),
                    ALREADY_REGISTERED_MSG@,
                ),
            },
    {
        match self {
            RegisterUserErrorResponse::DbError(e) => e.error_reply(),
            RegisterUserErrorResponse::AlreadyRegistered => reply(
                STATUS_ALREADY_REPORTED,
                Some(ErrorCode::AlreadyRegistered),
                ALREADY_REGISTERED_MSG,
            ),
        }
    }
}

impl LoginUserErrorResponse {
    /// The response to this failed login.
    pub fn error_reply(&self) -> (r: ErrorReply)
        ensures
            match self {
                LoginUserErrorResponse::DbError(e) => db_error_reply(r, e@),
                LoginUserErrorResponse::NotFound => reply_is(r, STATUS_NOT_FOUND, None, EMAIL_NOT_REGISTERED_MSG@),
                LoginUserErrorResponse::InvalidPassword => reply_is(
                    r,
                    STATUS_UNAUTHORIZED,
                    None,
                    WRONG_PASSWORD_MSG@,
                ),
            },
    {
        match self {
            LoginUserErrorResponse::DbError(e) => e.error_reply(),
            LoginUserErrorResponse::NotFound => reply(STATUS_NOT_FOUND, None, EMAIL_NOT_REGISTERED_MSG),
            LoginUserErrorResponse::InvalidPassword => reply(STATUS_UNAUTHORIZED, None, WRONG_PASSWORD_MSG),
        }
    }
}

} // verus!
