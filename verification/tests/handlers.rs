use authen::handlers::{callback_redirect, login_failure, signup_failure, validation_outcome};
use authen::{AuthError, TokenClaims, TokenPair, User};
use chrono::NaiveDate;

fn user(id: &str) -> User {
    let t = NaiveDate::from_ymd_opt(2024, 1, 1).unwrap().and_hms_opt(0, 0, 0).unwrap();
    User { id: id.to_string(), credentials: None, oauth_accounts: vec![], created_at: t, updated_at: t }
}

#[test]
fn signup_of_existing_user_is_a_conflict() {
    let e = signup_failure(AuthError::UserAlreadyExists);
    assert_eq!((e.status(), e.message()), (409, "User already exists"));
}

#[test]
fn signup_error_saying_already_exists_is_a_conflict() {
    let e = signup_failure(AuthError::SignupError("Identifier ALREADY Exists".to_string()));
    assert_eq!((e.status(), e.message()), (409, "Signup error: Identifier ALREADY Exists"));
}

#[test]
fn other_signup_errors_are_bad_requests() {
    let e = signup_failure(AuthError::SignupError("password too weak".to_string()));
    assert_eq!((e.status(), e.message()), (400, "Signup error: password too weak"));
    let e = signup_failure(AuthError::InvalidInput("empty username".to_string()));
    assert_eq!((e.status(), e.message()), (400, "Invalid input: empty username"));
    let e = signup_failure(AuthError::Internal("already exists".to_string()));
    assert_eq!(e.status(), 400);
}

#[test]
fn wrong_credentials_are_unauthorized() {
    let e = login_failure(AuthError::InvalidCredentials);
    assert_eq!((e.status(), e.message()), (401, "Invalid credentials"));
}

#[test]
fn other_login_errors_are_bad_requests() {
    let e = login_failure(AuthError::Internal("store offline".to_string()));
    assert_eq!((e.status(), e.message()), (400, "Internal error: store offline"));
    let e = login_failure(AuthError::UserAlreadyExists);
    assert_eq!(e.status(), 400);
}

#[test]
fn valid_token_reports_its_claims() {
    let r = validation_outcome(Ok(TokenClaims { subject: "u9".to_string(), expiration: 1700 }))
        .unwrap();
    assert!(r.valid);
    assert_eq!((r.subject.as_str(), r.expiration), ("u9", 1700));
}

#[test]
fn rejected_tokens_are_reported_invalid() {
    for error in [
        AuthError::TokenExpired,
        AuthError::InvalidToken("bad".to_string()),
        AuthError::TokenValidation("kid".to_string()),
    ] {
        let r = validation_outcome(Err(error)).unwrap();
        assert!(!r.valid);
        assert_eq!((r.subject.as_str(), r.expiration), ("", 0));
    }
}

#[test]
fn validation_service_failure_is_an_internal_error() {
    let e = validation_outcome(Err(AuthError::Internal("keys unavailable".to_string())))
        .unwrap_err();
    assert_eq!(e.status(), 500);
    assert_eq!(
        e.message(),
        "Configuration error: token validation service error: Internal error: keys unavailable"
    );
    let e = validation_outcome(Err(AuthError::InvalidCredentials)).unwrap_err();
    assert_eq!(e.status(), 500);
}

#[test]
fn callback_success_redirect_carries_encoded_tokens() {
    let tokens = TokenPair { access_token: "a.b c".to_string(), refresh_token: "r&1".to_string() };
    let url = callback_redirect("https://app.example/done", Ok((user("id=7"), tokens)));
    assert_eq!(
        url,
        "https://app.example/done#access_token=a.b%20c&refresh_token=r%261&user_id=id%3D7&token_type=Bearer&expires_in=3600"
    );
}

#[test]
fn callback_failure_redirect_carries_the_error() {
    let url = callback_redirect("https://app.example/", Err(AuthError::InvalidToken("state mismatch".to_string())));
    assert_eq!(
        url,
        "https://app.example/#error=authentication_failed&error_description=Invalid%20token%3A%20state%20mismatch"
    );
}

#[test]
fn callback_fragment_splits_into_its_parameters() {
    let tokens = TokenPair { access_token: "x&y=z".to_string(), refresh_token: "#".to_string() };
    let url = callback_redirect("https://f/", Ok((user("u&1"), tokens)));
    let fragment = url.split_once('#').unwrap().1;
    let params: Vec<&str> = fragment.split('&').collect();
    assert_eq!(
        params,
        vec![
            "access_token=x%26y%3Dz",
            "refresh_token=%23",
            "user_id=u%261",
            "token_type=Bearer",
            "expires_in=3600"
        ]
    );
}

#[test]
fn refresh_failures_are_unauthorized() {
    let e = authen::handlers::refresh_failure(AuthError::TokenExpired);
    assert_eq!((e.status(), e.message()), (401, "Token expired"));
}

#[test]
fn oauth_failures_are_bad_requests() {
    let e = authen::handlers::oauth_failure(AuthError::InvalidInput("bad code".to_string()));
    assert_eq!((e.status(), e.message()), (400, "Invalid input: bad code"));
}

#[test]
fn missing_frontend_uri_is_a_configuration_error() {
    let e = authen::handlers::frontend_uri_failure(AuthError::Internal("no uri".to_string()));
    assert_eq!((e.status(), e.message()), (500, "Configuration error: Internal error: no uri"));
}
