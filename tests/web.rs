use token_auth::authentication::{AuthenticationError, DbError};
use token_auth::modify_builder::ModifyBuilder;
use token_auth::web::{
    ErrorCode, LoginUserData, LoginUserDataBody, LoginUserErrorResponse, RegisterUserData,
    RegisterUserErrorResponse, RegisterUserRequestBody, WebService,
};

#[test]
fn authentication_failures_collapse_to_two_outcomes() {
    let unauthorised = [
        AuthenticationError::InvalidInputTokenFormat,
        AuthenticationError::Unauthorised,
        AuthenticationError::DbError(DbError::NotFoundError),
    ];
    for e in unauthorised.iter() {
        let r = e.error_reply();
        assert_eq!(r.status, 401);
        assert_eq!(r.body.error, "Unauthorized, please try to login again");
        assert_eq!(r.body.code, None);
    }
    let unavailable = [
        AuthenticationError::DbError(DbError::UnavailableTryAgain),
        AuthenticationError::DbError(DbError::UnexpectedError("lost connection".to_owned())),
    ];
    for e in unavailable.iter() {
        let r = e.error_reply();
        assert_eq!(r.status, 503);
        assert_eq!(r.body.error, "Service unavailable");
    }
    for e in [AuthenticationError::DecodeTokenError, AuthenticationError::InvalidTokenFormatInDb].iter() {
        let r = e.error_reply();
        assert_eq!(r.status, 500);
        assert_eq!(r.body.error, "Internal server error");
    }
}

#[test]
fn store_failures_replies() {
    assert_eq!(DbError::NotFoundError.error_reply().status, 404);
    assert_eq!(DbError::NotFoundError.error_reply().body.error, "Not found");
    assert_eq!(DbError::UnavailableTryAgain.error_reply().status, 430);
    let r = DbError::UnexpectedError("x".to_owned()).error_reply();
    assert_eq!(r.status, 500);
    assert_eq!(r.body.error, "Internal server error");
}

#[test]
fn registration_and_login_failure_replies() {
    let r = RegisterUserErrorResponse::AlreadyRegistered.error_reply();
    assert_eq!(r.status, 208);
    assert_eq!(r.body.code, Some(ErrorCode::AlreadyRegistered));
    assert_eq!(r.body.error, "user for given email already exists");
    assert_eq!(RegisterUserErrorResponse::DbError(DbError::UnavailableTryAgain).error_reply().status, 430);

    let r = LoginUserErrorResponse::NotFound.error_reply();
    assert_eq!(r.status, 404);
    assert_eq!(r.body.error, "user for a given email is not registered");
    let r = LoginUserErrorResponse::InvalidPassword.error_reply();
    assert_eq!(r.status, 401);
    assert_eq!(r.body.error, "Entered password is wrong, please try again");
    assert_eq!(LoginUserErrorResponse::DbError(DbError::NotFoundError).error_reply().status, 404);
}

#[test]
fn web_service_holds_its_stores() {
    let service = WebService::new(1u8, "projects");
    assert_eq!(service.user_db, 1u8);
    assert_eq!(service.project_db, "projects");
}

#[test]
fn request_bodies_hold_their_data() {
    let register = RegisterUserRequestBody {
        data: RegisterUserData {
            email: "a@b.c".to_owned(),
            password: "pw".to_owned(),
            first_name: None,
            last_name: Some("B".to_owned()),
            language_code: "ru-ru".to_owned(),
        },
    };
    assert_eq!(register.data.language_code, "ru-ru");
    let login = LoginUserDataBody { data: LoginUserData { email: "a@b.c".to_owned(), password: "pw".to_owned() } };
    assert_eq!(login.data.email, register.data.email);
}

struct Request {
    headers: Vec<String>,
}

impl ModifyBuilder for Request {}

#[test]
fn modify_applies_only_with_data() {
    let add = |mut r: Request, token: &str| {
        r.headers.push(format!("Bearer {token}"));
        r
    };
    let r = Request { headers: Vec::new() }.modify(Some("t"), add).modify(None, add);
    assert_eq!(r.headers, vec!["Bearer t".to_owned()]);
}
