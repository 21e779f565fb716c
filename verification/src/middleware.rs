//! Bearer-token authentication: reading the `Authorization` header, what the
//! auth-context middleware records for a request, and what the extractors
//! answer from that record.

use vstd::prelude::*;
use crate::error::AuthError;
use crate::response::{ApiError, STATUS_UNAUTHORIZED};
use crate::text::{
    chars_equal, chars_of, lemma_trim_of_trimmed, lemma_trim_stretch, owned, slice_chars,
    spec_is_whitespace, string_from_chars, trim, trim_chars,
};
use crate::user::User;

verus! {

/// A byte that `HeaderValue::to_str` accepts: visible ASCII or a tab.
pub open spec fn is_visible_ascii(b: u8) -> bool {
    (32 <= b && b < 127) || b == 9
}

/// The characters of a header value whose bytes are all ASCII.
pub open spec fn ascii_chars(bytes: Seq<u8>) -> Seq<char> {
    bytes.map_values(|b: u8| b as char)
}

/// The token that an `Authorization` header value carries: the header must
/// be visible ASCII and start with `Bearer `; what follows, trimmed of
/// whitespace, is the token, unless it is empty.
pub open spec fn spec_bearer_token(header: Option<Seq<u8>>) -> Option<Seq<char>> {
    match header {
        None => None,
        Some(bytes) => {
            let s = ascii_chars(bytes);
            let scheme = "Bearer "@;
            if !(forall|i: int| 0 <= i < bytes.len() ==> is_visible_ascii(#[trigger] bytes[i])) {
                None
            } else if s.len() < scheme.len() || s.take(scheme.len() as int) != scheme {
                None
            } else if trim(s.skip(scheme.len() as int)).len() == 0 {
                None
            } else {
                Some(trim(s.skip(scheme.len() as int)))
            }
        },
    }
}

/// The bytes of a header value, if there is one.
pub open spec fn header_bytes(header: Option<&[u8]>) -> Option<Seq<u8>> {
    match header {
        Some(b) => Some(b@),
        None => None,
    }
}

/// The bearer token of the `Authorization` header value `header` (its raw
/// bytes, `None` when the request has no such header).
pub fn bearer_token(header: Option<&[u8]>) -> (r: Option<String>)
    ensures
        match r {
            Some(t) => spec_bearer_token(header_bytes(header)) == Some(t@),
            None => spec_bearer_token(header_bytes(header)) is None,
        },
{
    match header {
        Some(bytes) => token_of_header_value(bytes),
        None => None,
    }
}

fn token_of_header_value(bytes: &[u8]) -> (r: Option<String>)
    ensures
        match r {
            Some(t) => spec_bearer_token(Some(bytes@)) == Some(t@),
            None => spec_bearer_token(Some(bytes@)) is None,
        },
{
    let n = bytes.len();
    let mut chars: Vec<char> = Vec::new();
    let mut i: usize = 0;
    while i < n
        invariant
            i <= n == bytes@.len(),
            forall|k: int| 0 <= k < i ==> is_visible_ascii(#[trigger] bytes@[k]),
            chars@ == ascii_chars(bytes@.take(i as int)),
        decreases n - i,
    {
        let b = bytes[i];
        if !((32 <= b && b < 127) || b == 9) {
            assert(!is_visible_ascii(bytes@[i as int]));
            assert(!(forall|k: int| 0 <= k < bytes@.len() ==> is_visible_ascii(#[trigger] bytes@[k])));
            return None;
        }
        chars.push(b as char);
        proof {
            assert(chars@ =~= ascii_chars(bytes@.take(i + 1)));
        }
        i = i + 1;
    }
    proof {
        assert(bytes@.take(n as int) =~= bytes@);
    }
    let scheme = chars_of("Bearer ");
    if chars.len() < scheme.len() {
        return None;
    }
    let head = slice_chars(&chars, 0, scheme.len());
    if !chars_equal(&head, &scheme) {
        proof {
            assert(chars@.take(scheme@.len() as int) =~= head@);
        }
        return None;
    }
    let rest = slice_chars(&chars, scheme.len(), chars.len());
    let token = trim_chars(&rest);
    proof {
        assert(chars@.take(scheme@.len() as int) =~= head@);
        assert(chars@.skip(scheme@.len() as int) =~= rest@);
    }
    if token.len() == 0 {
        return None;
    }
    Some(string_from_chars(token))
}

/// The bytes of `Bearer `.
pub open spec fn bearer_scheme_bytes() -> Seq<u8> {
    seq![66u8, 101u8, 97u8, 114u8, 101u8, 114u8, 32u8]
}

/// Law: a header `Bearer <token>` yields the token, for every token of
/// visible ASCII that is not empty and has no whitespace at either end.
pub proof fn lemma_bearer_token_round_trip(token: Seq<u8>)
    requires
        token.len() > 0,
        forall|i: int| 0 <= i < token.len() ==> is_visible_ascii(#[trigger] token[i]),
        !spec_is_whitespace(token[0] as char),
        !spec_is_whitespace(token.last() as char),
    ensures
        spec_bearer_token(Some(bearer_scheme_bytes() + token)) == Some(ascii_chars(token)),
{
    reveal_strlit("Bearer ");
    let bytes = bearer_scheme_bytes() + token;
    let s = ascii_chars(bytes);
    assert forall|i: int| 0 <= i < bytes.len() implies is_visible_ascii(#[trigger] bytes[i]) by {
        if i >= 7 {
            assert(bytes[i] == token[i - 7]);
        }
    }
    assert(s.take(7) =~= "Bearer "@);
    assert(s.skip(7) =~= ascii_chars(token));
    let t = ascii_chars(token);
    assert(t[0] == token[0] as char);
    assert(t.last() == token.last() as char);
    lemma_trim_of_trimmed(t);
}

/// Law: a header yields a token only when all its bytes are visible ASCII
/// and it starts with exactly `Bearer ` (capital B, one space); the token is
/// the rest of the header with the surrounding whitespace removed.
pub proof fn lemma_bearer_token_shape(bytes: Seq<u8>)
    ensures
        spec_bearer_token(Some(bytes)) matches Some(t) ==> {
            &&& forall|i: int| 0 <= i < bytes.len() ==> is_visible_ascii(#[trigger] bytes[i])
            &&& bytes.len() >= 7
            &&& bytes[0] == 66 && bytes[1] == 101 && bytes[2] == 97 && bytes[3] == 114
            &&& bytes[4] == 101 && bytes[5] == 114 && bytes[6] == 32
            &&& t == trim(ascii_chars(bytes).skip(7))
        },
{
    reveal_strlit("Bearer ");
    if spec_bearer_token(Some(bytes)) is Some {
        let s = ascii_chars(bytes);
        assert(s.take(7) == "Bearer "@);
        assert(s.take(7)[0] == s[0]);
        assert(s.take(7)[1] == s[1]);
        assert(s.take(7)[2] == s[2]);
        assert(s.take(7)[3] == s[3]);
        assert(s.take(7)[4] == s[4]);
        assert(s.take(7)[5] == s[5]);
        assert(s.take(7)[6] == s[6]);
    }
}

/// Law: a token read from a header is never empty and has no whitespace at
/// either end.
pub proof fn lemma_bearer_token_is_trimmed(header: Option<Seq<u8>>)
    ensures
        spec_bearer_token(header) matches Some(t) ==> t.len() > 0 && !spec_is_whitespace(t[0])
            && !spec_is_whitespace(t.last()),
{
    if let Some(bytes) = header {
        lemma_trim_stretch(ascii_chars(bytes).skip(7));
        reveal_strlit("Bearer ");
    }
}

/// A user that a valid bearer token resolved to; handlers that take it are
/// only reached by authenticated requests.
#[derive(Clone, Debug)]
pub struct AuthenticatedUser(pub User);

impl core::ops::Deref for AuthenticatedUser {
    type Target = User;

    fn deref(&self) -> (u: &User)
        ensures
            *u == self.0,
    {
        &self.0
    }
}

/// The user that a valid bearer token resolved to, if the request carried
/// one.
#[derive(Clone, Debug)]
pub struct OptionalAuthenticatedUser(pub Option<User>);

impl Default for OptionalAuthenticatedUser {
    /// No user.
    fn default() -> (r: OptionalAuthenticatedUser)
        ensures
            r.0 is None,
    {
        OptionalAuthenticatedUser(None)
    }
}

/// What the auth-context middleware records for a request.
#[derive(Clone, Debug)]
pub enum AuthContext {
    /// The request carried no bearer token.
    Unauthenticated,
    /// The bearer token resolved to this user.
    Authenticated(AuthenticatedUser),
    /// Resolving the bearer token failed with this message.
    Failed(String),
}

/// The content of an [`AuthContext`].
pub enum AuthContextView {
    Unauthenticated,
    Authenticated(User),
    Failed(Seq<char>),
}

impl View for AuthContext {
    type V = AuthContextView;

    open spec fn view(&self) -> AuthContextView {
        match self {
            AuthContext::Unauthenticated => AuthContextView::Unauthenticated,
            AuthContext::Authenticated(u) => AuthContextView::Authenticated(u.0),
            AuthContext::Failed(m) => AuthContextView::Failed(m@),
        }
    }
}

/// What the middleware records once the service has resolved the bearer
/// token to `lookup`.
pub open spec fn recorded_context(lookup: Result<User, AuthError>) -> AuthContextView {
    match lookup {
        Ok(u) => AuthContextView::Authenticated(u),
        Err(e) => AuthContextView::Failed(e.spec_message()),
    }
}

/// An error as its status code and message.
pub open spec fn error_view(e: ApiError) -> (u16, Seq<char>) {
    (e.spec_status(), e.spec_message())
}

/// What a handler requiring authentication is given for a request with the
/// record `ctx`: the user, or the 401 error it answers with.
pub open spec fn required_outcome(ctx: AuthContextView) -> Result<User, (u16, Seq<char>)> {
    match ctx {
        AuthContextView::Authenticated(u) => Ok(u),
        AuthContextView::Failed(m) => Err((STATUS_UNAUTHORIZED, m)),
        AuthContextView::Unauthenticated => Err(
            (STATUS_UNAUTHORIZED, "Authentication required"@),
        ),
    }
}

/// What a handler taking an optional user is given for a request with the
/// record `ctx`.
pub open spec fn optional_outcome(ctx: AuthContextView) -> Option<User> {
    match ctx {
        AuthContextView::Authenticated(u) => Some(u),
        _ => None,
    }
}

/// The record for a request whose bearer token the service resolved to
/// `lookup`.
pub fn record_lookup(lookup: Result<User, AuthError>) -> (c: AuthContext)
    ensures
        c@ == recorded_context(lookup),
{
    match lookup {
        Ok(user) => AuthContext::Authenticated(AuthenticatedUser(user)),
        Err(error) => AuthContext::Failed(error.message()),
    }
}

impl AuthenticatedUser {
    /// The user of a request with the record `ctx`, or the 401 error that
    /// the request is answered with: the recorded failure's message, or
    /// `Authentication required` where no token was sent.
    pub fn from_context(ctx: AuthContext) -> (r: Result<AuthenticatedUser, ApiError>)
        ensures
            match r {
                Ok(u) => required_outcome(ctx@) == Ok::<User, (u16, Seq<char>)>(u.0),
                Err(e) => required_outcome(ctx@) == Err::<User, (u16, Seq<char>)>(error_view(e)),
            },
    {
        match ctx {
            AuthContext::Authenticated(user) => Ok(user),
            AuthContext::Failed(message) => Err(ApiError::new(STATUS_UNAUTHORIZED, message)),
            AuthContext::Unauthenticated => Err(
                ApiError::unauthorized(owned("Authentication required")),
            ),
        }
    }
}

impl OptionalAuthenticatedUser {
    /// The user of a request with the record `ctx`, if its token resolved.
    pub fn from_context(ctx: AuthContext) -> (r: OptionalAuthenticatedUser)
        ensures
            r.0 == optional_outcome(ctx@),
    {
        match ctx {
            AuthContext::Authenticated(user) => OptionalAuthenticatedUser(Some(user.0)),
            _ => OptionalAuthenticatedUser(None),
        }
    }
}

/// Law: a request that a required-user handler accepts is exactly one for
/// which the optional extractor finds a user, and it is the same user;
/// every refused request is answered with 401.
pub proof fn lemma_required_matches_optional(ctx: AuthContextView)
    ensures
        forall|u: User| required_outcome(ctx) == Ok::<User, (u16, Seq<char>)>(u)
            <==> optional_outcome(ctx) == Some(u),
        required_outcome(ctx) is Err ==> required_outcome(ctx)->Err_0.0 == STATUS_UNAUTHORIZED,
{
}

/// Law: when the service fails to resolve a bearer token, handlers that
/// require a user answer 401 with that failure's message, and the optional
/// extractor finds no user.
pub proof fn lemma_failed_lookup_is_refused(error: AuthError)
    ensures
        required_outcome(recorded_context(Err(error))) == Err::<User, (u16, Seq<char>)>(
            (STATUS_UNAUTHORIZED, error.spec_message()),
        ),
        optional_outcome(recorded_context(Err(error))) is None,
{
}

/// Law: a request without a usable bearer token reaches a required-user
/// handler as a 401 reading `Authentication required`.
pub proof fn lemma_no_token_is_refused()
    ensures
        required_outcome(AuthContextView::Unauthenticated) == Err::<User, (u16, Seq<char>)>(
            (STATUS_UNAUTHORIZED, "Authentication required"@),
        ),
{
}

} // verus!
