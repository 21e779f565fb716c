use authen::ApiError;
use axum::extract::rejection::{JsonRejection, MissingJsonContentType, QueryRejection};
use axum::extract::Query;

#[test]
fn api_error_constructors_set_status_and_message() {
    let e = ApiError::new(418, "teapot".to_string());
    assert_eq!((e.status(), e.message()), (418, "teapot"));
    let e = ApiError::bad_request("bad".to_string());
    assert_eq!((e.status(), e.message()), (400, "bad"));
    let e = ApiError::unauthorized("who".to_string());
    assert_eq!((e.status(), e.message()), (401, "who"));
    let e = ApiError::conflict("twice".to_string());
    assert_eq!((e.status(), e.message()), (409, "twice"));
}

#[test]
fn internal_error_is_prefixed() {
    let e = ApiError::internal("no redirect uri".to_string());
    assert_eq!(e.status(), 500);
    assert_eq!(e.message(), "Configuration error: no redirect uri");
}

#[test]
fn rejection_texts_are_prefixed() {
    let e = ApiError::from_json_rejection_text("missing field");
    assert_eq!((e.status(), e.message()), (400, "Invalid request body: missing field"));
    let e = ApiError::from_query_rejection_text("missing state");
    assert_eq!((e.status(), e.message()), (400, "Invalid query parameters: missing state"));
}

#[test]
fn from_json_rejection_uses_the_rejection_text() {
    let rejection = JsonRejection::MissingJsonContentType(MissingJsonContentType::default());
    let expected = format!("Invalid request body: {}", rejection.body_text());
    let e = ApiError::from_json_rejection(rejection);
    assert_eq!(e.status(), 400);
    assert_eq!(e.message(), expected);
    assert_ne!(e.message(), "Invalid request body: ");
}

#[test]
fn from_query_rejection_uses_the_rejection_text() {
    let uri: axum::http::Uri = "http://example.com/auth?other=1".parse().unwrap();
    let rejection: QueryRejection = Query::<u32>::try_from_uri(&uri).unwrap_err();
    let expected = format!("Invalid query parameters: {}", rejection.body_text());
    let e = ApiError::from_query_rejection(rejection);
    assert_eq!(e.status(), 400);
    assert_eq!(e.message(), expected);
    assert!(e.message().len() > "Invalid query parameters: ".len());
}
