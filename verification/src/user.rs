//! The records the authentication service hands to the HTTP layer.

use vstd::prelude::*;
use chrono::NaiveDateTime;
use crate::provider::OAuth2Provider;

verus! {

#[verifier::external_type_specification]
#[verifier::external_body]
pub struct ExNaiveDateTime(NaiveDateTime);

/// `NaiveDateTime` is `Copy`; its `clone` gives back the same instant.
pub assume_specification[ <NaiveDateTime as Clone>::clone ](d: &NaiveDateTime) -> (r:
    NaiveDateTime)
    ensures
        r == *d,
;

/// The password login of a user.
#[derive(Clone, Debug)]
pub struct Credentials {
    /// The name the user logs in with.
    pub identifier: String,
}

/// What an OAuth2 provider reported about a linked account.
#[derive(Clone, Debug)]
pub struct OAuth2UserInfo {
    pub provider: OAuth2Provider,
    pub provider_user_id: String,
    pub email: Option<String>,
    pub name: Option<String>,
    pub avatar_url: Option<String>,
    pub verified_email: Option<bool>,
    pub locale: Option<String>,
}

/// A registered user.
#[derive(Clone, Debug)]
pub struct User {
    pub id: String,
    /// Present when the user can log in with a password.
    pub credentials: Option<Credentials>,
    /// The linked OAuth2 accounts, in no particular order; the service
    /// links at most one per provider (see [`User::has_distinct_providers`]).
    pub oauth_accounts: Vec<OAuth2UserInfo>,
    pub created_at: NaiveDateTime,
    pub updated_at: NaiveDateTime,
}

impl User {
    /// No provider is linked twice, as the service keeps linked accounts
    /// keyed by provider.
    pub open spec fn has_distinct_providers(self) -> bool {
        forall|i: int, j: int|
            0 <= i < j < self.oauth_accounts@.len() ==> (#[trigger] self.oauth_accounts@[i]).provider
                != (#[trigger] self.oauth_accounts@[j]).provider
    }
}

/// A freshly issued access token and the refresh token that renews it.
#[derive(Clone, Debug)]
pub struct TokenPair {
    pub access_token: String,
    pub refresh_token: String,
}

/// The claims of an access token that the validation endpoint reports.
#[derive(Clone, Debug)]
pub struct TokenClaims {
    /// The user the token was issued to.
    pub subject: String,
    /// When the token expires, in seconds since the Unix epoch.
    pub expiration: usize,
}

/// The identifier of a user's password login, if it has one.
pub open spec fn spec_identifier(user: User) -> Option<String> {
    match user.credentials {
        Some(c) => Some(c.identifier),
        None => None,
    }
}

/// Takes the identifier out of a user's password login, if it has one.
pub fn take_identifier(credentials: Option<Credentials>) -> (r: Option<String>)
    ensures
        r == (match credentials {
            Some(c) => Some(c.identifier),
            None => None::<String>,
        }),
{
    match credentials {
        Some(c) => Some(c.identifier),
        None => None,
    }
}

} // verus!
