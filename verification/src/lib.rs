//! Verified core of the Authen HTTP API: request parsing, response shaping
//! and the decisions that the endpoint handlers and the auth-context
//! middleware make about what the authentication service returns.

pub mod encoding;
pub mod error;
pub mod handlers;
pub mod middleware;
pub mod models;
pub mod provider;
pub mod response;
pub mod text;
pub mod user;

pub use encoding::url_encode;
pub use error::AuthError;
pub use middleware::{bearer_token, AuthContext, AuthenticatedUser, OptionalAuthenticatedUser};
pub use provider::{parse_oauth_provider, OAuth2Provider};
pub use response::ApiError;
pub use user::{Credentials, OAuth2UserInfo, TokenClaims, TokenPair, User};
