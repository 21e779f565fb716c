use authen::provider::provider_from_slug;
use authen::{parse_oauth_provider, OAuth2Provider};

#[test]
fn parse_oauth_provider_accepts_each_lower_case_name() {
    assert_eq!(parse_oauth_provider("google").unwrap(), OAuth2Provider::Google);
    assert_eq!(parse_oauth_provider("github").unwrap(), OAuth2Provider::GitHub);
    assert_eq!(parse_oauth_provider("discord").unwrap(), OAuth2Provider::Discord);
    assert_eq!(parse_oauth_provider("microsoft").unwrap(), OAuth2Provider::Microsoft);
}

#[test]
fn parse_oauth_provider_ignores_letter_case() {
    assert_eq!(parse_oauth_provider("GitHub").unwrap(), OAuth2Provider::GitHub);
    assert_eq!(parse_oauth_provider("GOOGLE").unwrap(), OAuth2Provider::Google);
    assert_eq!(parse_oauth_provider("MicroSoft").unwrap(), OAuth2Provider::Microsoft);
}

#[test]
fn parse_oauth_provider_refuses_other_names() {
    let error = parse_oauth_provider("twitter").unwrap_err();
    assert_eq!(error.status(), 400);
    assert_eq!(error.message(), "Invalid input: Unsupported OAuth2 provider: twitter");
    let error = parse_oauth_provider(" google").unwrap_err();
    assert_eq!(error.message(), "Invalid input: Unsupported OAuth2 provider:  google");
    assert!(parse_oauth_provider("").is_err());
}

#[test]
fn provider_from_slug_matches_exactly() {
    assert_eq!(provider_from_slug("discord"), Some(OAuth2Provider::Discord));
    assert_eq!(provider_from_slug("Discord"), None);
    assert_eq!(provider_from_slug("googl"), None);
}

#[test]
fn display_names_and_their_order() {
    let all = [
        OAuth2Provider::Google,
        OAuth2Provider::GitHub,
        OAuth2Provider::Discord,
        OAuth2Provider::Microsoft,
    ];
    assert_eq!(OAuth2Provider::Google.display_name(), "Google");
    assert_eq!(OAuth2Provider::GitHub.display_name(), "GitHub");
    assert_eq!(OAuth2Provider::Discord.display_name(), "Discord");
    assert_eq!(OAuth2Provider::Microsoft.display_name(), "Microsoft");
    for p in all {
        for q in all {
            assert_eq!(p.rank() < q.rank(), p.display_name() < q.display_name());
        }
    }
}
