use authen::models::{
    split_scopes, LoginResponse, OAuthAccountResponse, OAuthAuthQuery, TokenPairResponse,
    UserProfileResponse, UserResponse,
};
use authen::{Credentials, OAuth2Provider, OAuth2UserInfo, TokenPair, User};
use chrono::{NaiveDate, NaiveDateTime};

fn at(day: u32) -> NaiveDateTime {
    NaiveDate::from_ymd_opt(2024, 3, day).unwrap().and_hms_opt(12, 30, 0).unwrap()
}

fn info(provider: OAuth2Provider, id: &str) -> OAuth2UserInfo {
    OAuth2UserInfo {
        provider,
        provider_user_id: id.to_string(),
        email: Some(format!("{id}@example.com")),
        name: None,
        avatar_url: None,
        verified_email: Some(true),
        locale: Some("en".to_string()),
    }
}

fn user(id: &str, identifier: Option<&str>, accounts: Vec<OAuth2UserInfo>) -> User {
    User {
        id: id.to_string(),
        credentials: identifier.map(|i| Credentials { identifier: i.to_string() }),
        oauth_accounts: accounts,
        created_at: at(1),
        updated_at: at(2),
    }
}

fn tokens() -> TokenPair {
    TokenPair { access_token: "acc".to_string(), refresh_token: "ref".to_string() }
}

fn query(scopes: Option<&str>) -> OAuthAuthQuery {
    OAuthAuthQuery { state: "xyz".to_string(), scopes: scopes.map(|s| s.to_string()) }
}

#[test]
fn scopes_are_split_trimmed_and_filtered() {
    assert_eq!(
        query(Some("openid, email,,  profile ")).scopes(),
        Some(vec!["openid".to_string(), "email".to_string(), "profile".to_string()])
    );
}

#[test]
fn scopes_absent_stay_absent() {
    assert_eq!(query(None).scopes(), None);
}

#[test]
fn scopes_of_blank_lists_are_empty() {
    assert_eq!(query(Some("")).scopes(), Some(vec![]));
    assert_eq!(query(Some(" , ,\t")).scopes(), Some(vec![]));
}

#[test]
fn scopes_keep_inner_spaces_and_order() {
    assert_eq!(
        split_scopes("b a,\u{3000}c\u{3000},a"),
        vec!["b a".to_string(), "c".to_string(), "a".to_string()]
    );
}

#[test]
fn scopes_are_clean() {
    for scope in split_scopes(" x , y y ,, ,z,") {
        assert!(!scope.is_empty());
        assert!(!scope.contains(','));
        assert_eq!(scope.trim(), scope);
    }
}

#[test]
fn login_response_from_user_and_tokens() {
    let r = LoginResponse::from_user_and_tokens(user("u1", Some("alice"), vec![]), tokens());
    assert_eq!(r.id, "u1");
    assert_eq!(r.identifier.as_deref(), Some("alice"));
    assert_eq!(r.access_token, "acc");
    assert_eq!(r.refresh_token, "ref");
    let r = LoginResponse::from_user_and_tokens(user("u2", None, vec![]), tokens());
    assert_eq!(r.identifier, None);
}

#[test]
fn token_pair_responses() {
    let r = TokenPairResponse::from(tokens());
    assert_eq!((r.access_token.as_str(), r.refresh_token.as_str()), ("acc", "ref"));
    assert_eq!(r.id, None);
    let r = TokenPairResponse::from_user_and_tokens(user("u3", None, vec![]), tokens());
    assert_eq!(r.id.as_deref(), Some("u3"));
    assert_eq!(r.access_token, "acc");
}

#[test]
fn user_response_from_user() {
    let r = UserResponse::from(user("u4", Some("bob"), vec![]));
    assert_eq!(r.id, "u4");
    assert_eq!(r.identifier.as_deref(), Some("bob"));
}

#[test]
fn account_response_copies_every_field() {
    let r = OAuthAccountResponse::from(info(OAuth2Provider::GitHub, "gh1"));
    assert_eq!(r.provider, OAuth2Provider::GitHub);
    assert_eq!(r.provider_user_id, "gh1");
    assert_eq!(r.email.as_deref(), Some("gh1@example.com"));
    assert_eq!(r.name, None);
    assert_eq!(r.verified_email, Some(true));
    assert_eq!(r.locale.as_deref(), Some("en"));
}

#[test]
fn profile_lists_accounts_by_display_name() {
    let u = user(
        "u5",
        Some("carol"),
        vec![
            info(OAuth2Provider::Microsoft, "ms"),
            info(OAuth2Provider::Google, "go"),
            info(OAuth2Provider::Discord, "di"),
            info(OAuth2Provider::GitHub, "gh"),
        ],
    );
    let p = UserProfileResponse::from(u);
    let order: Vec<&str> = p.oauth_accounts.iter().map(|a| a.provider_user_id.as_str()).collect();
    assert_eq!(order, vec!["di", "gh", "go", "ms"]);
    assert_eq!(p.id, "u5");
    assert_eq!(p.identifier.as_deref(), Some("carol"));
    assert_eq!(p.created_at, at(1));
    assert_eq!(p.updated_at, at(2));
}

#[test]
fn profile_sort_is_stable_and_keeps_every_account() {
    let u = user(
        "u6",
        None,
        vec![
            info(OAuth2Provider::Google, "g1"),
            info(OAuth2Provider::Discord, "d1"),
            info(OAuth2Provider::Google, "g2"),
            info(OAuth2Provider::Discord, "d2"),
        ],
    );
    let p = UserProfileResponse::from(u);
    let order: Vec<&str> = p.oauth_accounts.iter().map(|a| a.provider_user_id.as_str()).collect();
    assert_eq!(order, vec!["d1", "d2", "g1", "g2"]);
}

#[test]
fn profile_without_accounts() {
    let p = UserProfileResponse::from(user("u7", None, vec![]));
    assert!(p.oauth_accounts.is_empty());
    assert_eq!(p.identifier, None);
}
