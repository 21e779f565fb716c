use authen::middleware::record_lookup;
use authen::{bearer_token, AuthContext, AuthError, AuthenticatedUser, OptionalAuthenticatedUser, User};
use chrono::NaiveDate;

fn user(id: &str) -> User {
    let t = NaiveDate::from_ymd_opt(2024, 1, 1).unwrap().and_hms_opt(0, 0, 0).unwrap();
    User { id: id.to_string(), credentials: None, oauth_accounts: vec![], created_at: t, updated_at: t }
}

#[test]
fn bearer_token_reads_the_token() {
    assert_eq!(bearer_token(Some(b"Bearer abc.def")), Some("abc.def".to_string()));
}

#[test]
fn bearer_token_trims_whitespace() {
    assert_eq!(bearer_token(Some(b"Bearer    abc  \t")), Some("abc".to_string()));
    assert_eq!(bearer_token(Some(b"Bearer a b")), Some("a b".to_string()));
}

#[test]
fn bearer_token_needs_the_exact_scheme() {
    assert_eq!(bearer_token(Some(b"bearer abc")), None);
    assert_eq!(bearer_token(Some(b"Basic abc")), None);
    assert_eq!(bearer_token(Some(b"Bearerabc")), None);
    assert_eq!(bearer_token(Some(b"Bearer")), None);
}

#[test]
fn bearer_token_refuses_empty_tokens() {
    assert_eq!(bearer_token(Some(b"Bearer ")), None);
    assert_eq!(bearer_token(Some(b"Bearer  \t ")), None);
}

#[test]
fn bearer_token_refuses_headers_that_are_not_visible_ascii() {
    assert_eq!(bearer_token(Some(b"Bearer caf\xc3\xa9")), None);
    assert_eq!(bearer_token(Some(b"Bearer a\x7fb")), None);
    assert_eq!(bearer_token(Some(b"Bearer a\nb")), None);
}

#[test]
fn bearer_token_without_header() {
    assert_eq!(bearer_token(None), None);
}

#[test]
fn bearer_token_round_trip() {
    for token in ["t", "eyJhbGciOi.J9.x-y_z", "a\tb"] {
        let header = format!("Bearer {token}");
        assert_eq!(bearer_token(Some(header.as_bytes())), Some(token.to_string()));
    }
}

#[test]
fn resolved_user_is_given_to_both_extractors() {
    let ctx = record_lookup(Ok(user("u1")));
    let required = AuthenticatedUser::from_context(ctx.clone()).unwrap();
    assert_eq!(required.id, "u1");
    assert_eq!(required.0.id, "u1");
    let optional = OptionalAuthenticatedUser::from_context(ctx);
    assert_eq!(optional.0.unwrap().id, "u1");
}

#[test]
fn failed_lookup_is_answered_with_its_message() {
    let ctx = record_lookup(Err(AuthError::TokenExpired));
    let error = AuthenticatedUser::from_context(ctx.clone()).unwrap_err();
    assert_eq!(error.status(), 401);
    assert_eq!(error.message(), "Token expired");
    assert!(OptionalAuthenticatedUser::from_context(ctx).0.is_none());
}

#[test]
fn missing_token_is_answered_with_authentication_required() {
    let error = AuthenticatedUser::from_context(AuthContext::Unauthenticated).unwrap_err();
    assert_eq!(error.status(), 401);
    assert_eq!(error.message(), "Authentication required");
    assert!(OptionalAuthenticatedUser::from_context(AuthContext::Unauthenticated).0.is_none());
}

#[test]
fn recorded_failure_keeps_the_error_text() {
    match record_lookup(Err(AuthError::InvalidToken("bad signature".to_string()))) {
        AuthContext::Failed(m) => assert_eq!(m, "Invalid token: bad signature"),
        other => panic!("unexpected {other:?}"),
    }
}

#[test]
fn optional_user_defaults_to_none() {
    assert!(OptionalAuthenticatedUser::default().0.is_none());
}
