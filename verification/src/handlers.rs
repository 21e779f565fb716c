//! The decisions the endpoint handlers make about what the service returned.

use vstd::prelude::*;
use vstd::string::StringExecFns;
use crate::encoding::{is_encoded_char, lemma_percent_encode_chars, percent_encode, url_encode};
use crate::error::AuthError;
use crate::middleware::error_view;
use crate::models::{lemma_split_on_concat, lemma_split_on_single, split_on, ValidateTokenResponse};
use crate::response::{
    ApiError, STATUS_BAD_REQUEST, STATUS_CONFLICT, STATUS_INTERNAL_SERVER_ERROR,
    STATUS_UNAUTHORIZED,
};
use crate::text::{
    chars_of, contains_chars, contains_seq, occurs_at, join2, owned, to_lowercase, unicode_lowercase,
};
use crate::user::{TokenClaims, TokenPair, User};

verus! {

/// Whether a signup failure's own text says, in any letter case, that the
/// user already exists.
pub open spec fn says_already_exists(message: Seq<char>) -> bool {
    contains_seq(unicode_lowercase(message), "already exists"@)
}

/// The answer to a failed password signup: 409 when the user already
/// exists, 400 otherwise, with the error's text.
pub open spec fn signup_failure_view(error: AuthError) -> (u16, Seq<char>) {
    let conflict = match error {
        AuthError::UserAlreadyExists => true,
        AuthError::SignupError(m) => says_already_exists(m@),
        _ => false,
    };
    (if conflict { STATUS_CONFLICT } else { STATUS_BAD_REQUEST }, error.spec_message())
}

/// The error answering a failed password signup.
pub fn signup_failure(error: AuthError) -> (e: ApiError)
    ensures
        error_view(e) == signup_failure_view(error),
        e.spec_message() == error.spec_message(),
        error is UserAlreadyExists ==> e.spec_status() == STATUS_CONFLICT,
        error matches AuthError::SignupError(m) ==> (e.spec_status() == STATUS_CONFLICT <==> exists|
            i: int,
        |
            0 <= i && i + 14 <= unicode_lowercase(m@).len() && #[trigger] unicode_lowercase(
                m@,
            ).subrange(i, i + 14) == "already exists"@),
        !(error is UserAlreadyExists) && !(error is SignupError) ==> e.spec_status()
            == STATUS_BAD_REQUEST,
        e.spec_status() == STATUS_CONFLICT || e.spec_status() == STATUS_BAD_REQUEST,
{
    let conflict = match &error {
        AuthError::UserAlreadyExists => true,
        AuthError::SignupError(m) => {
            let lowered = to_lowercase(m.as_str());
            let hay = chars_of(lowered.as_str());
            let needle = chars_of("already exists");
            contains_chars(&hay, &needle)
        },
        _ => false,
    };
    proof {
        lemma_signup_failure_status(error);
    }
    if conflict {
        ApiError::conflict(error.message())
    } else {
        ApiError::bad_request(error.message())
    }
}

/// The answer to a failed password login: 401 for wrong credentials, 400
/// otherwise, with the error's text.
pub open spec fn login_failure_view(error: AuthError) -> (u16, Seq<char>) {
    match error {
        AuthError::InvalidCredentials => (STATUS_UNAUTHORIZED, error.spec_message()),
        _ => (STATUS_BAD_REQUEST, error.spec_message()),
    }
}

/// Law: a password signup is answered 409 exactly when the user already
/// exists or the failure's lower-cased text holds `already exists` at some
/// position; every other failure is 400; the message is always the error's
/// text.
pub proof fn lemma_signup_failure_status(error: AuthError)
    ensures
        signup_failure_view(error).1 == error.spec_message(),
        error is UserAlreadyExists ==> signup_failure_view(error).0 == STATUS_CONFLICT,
        error matches AuthError::SignupError(m) ==> (signup_failure_view(error).0
            == STATUS_CONFLICT <==> exists|i: int|
            0 <= i && i + 14 <= unicode_lowercase(m@).len() && #[trigger] unicode_lowercase(
                m@,
            ).subrange(i, i + 14) == "already exists"@),
        !(error is UserAlreadyExists) && !(error is SignupError) ==> signup_failure_view(error).0
            == STATUS_BAD_REQUEST,
        signup_failure_view(error).0 == STATUS_CONFLICT || signup_failure_view(error).0
            == STATUS_BAD_REQUEST,
{
    reveal_strlit("already exists");
    if let AuthError::SignupError(m) = error {
        let l = unicode_lowercase(m@);
        assert(("already exists"@).len() == 14);
        if signup_failure_view(error).0 == STATUS_CONFLICT {
            let i = choose|i: int| occurs_at(l, "already exists"@, i);
            assert(l.subrange(i, i + 14) == "already exists"@);
        }
        if exists|i: int|
            0 <= i && i + 14 <= l.len() && #[trigger] l.subrange(i, i + 14) == "already exists"@ {
            let i = choose|i: int|
                0 <= i && i + 14 <= l.len() && #[trigger] l.subrange(i, i + 14) == "already exists"@;
            assert(occurs_at(l, "already exists"@, i));
        }
    }
}

/// Law: a password login is answered 401 exactly for wrong credentials and
/// 400 for every other failure, with the error's text.
pub proof fn lemma_login_failure_status(error: AuthError)
    ensures
        login_failure_view(error).1 == error.spec_message(),
        error is InvalidCredentials ==> login_failure_view(error).0 == STATUS_UNAUTHORIZED,
        !(error is InvalidCredentials) ==> login_failure_view(error).0 == STATUS_BAD_REQUEST,
{
}

/// The error answering a failed password login.
pub fn login_failure(error: AuthError) -> (e: ApiError)
    ensures
        error_view(e) == login_failure_view(error),
        e.spec_message() == error.spec_message(),
        error is InvalidCredentials ==> e.spec_status() == STATUS_UNAUTHORIZED,
        !(error is InvalidCredentials) ==> e.spec_status() == STATUS_BAD_REQUEST,
{
    proof {
        lemma_login_failure_status(error);
    }
    match error {
        AuthError::InvalidCredentials => ApiError::unauthorized(error.message()),
        _ => ApiError::bad_request(error.message()),
    }
}

/// The error answering a failed token refresh: 401 with the error's text.
pub fn refresh_failure(error: AuthError) -> (e: ApiError)
    ensures
        error_view(e) == (STATUS_UNAUTHORIZED, error.spec_message()),
{
    ApiError::unauthorized(error.message())
}

/// The error answering a failed OAuth2 signup, login or authorization-URL
/// request: 400 with the error's text.
pub fn oauth_failure(error: AuthError) -> (e: ApiError)
    ensures
        error_view(e) == (STATUS_BAD_REQUEST, error.spec_message()),
{
    ApiError::bad_request(error.message())
}

/// The error answering an OAuth2 callback whose provider has no frontend
/// URI configured: 500 reading `Configuration error: <error>`.
pub fn frontend_uri_failure(error: AuthError) -> (e: ApiError)
    ensures
        error_view(e) == (STATUS_INTERNAL_SERVER_ERROR, "Configuration error: "@
            + error.spec_message()),
{
    ApiError::internal(error.message())
}

/// A validation failure that only says the token is not valid (rather than
/// that the service could not check it).
pub open spec fn is_token_rejection(error: AuthError) -> bool {
    match error {
        AuthError::InvalidToken(_) | AuthError::TokenExpired | AuthError::TokenValidation(_) => true,
        _ => false,
    }
}

/// The answer to `POST /token/validate` once the service has checked the
/// token: its claims when valid; `valid: false` with an empty subject and
/// expiration 0 when the token is rejected; a 500 error reading
/// `Configuration error: token validation service error: <error>` when the
/// service failed.
pub fn validation_outcome(checked: Result<TokenClaims, AuthError>) -> (r: Result<
    ValidateTokenResponse,
    ApiError,
>)
    ensures
        (checked matches Err(error) && (error is InvalidToken || error is TokenExpired
            || error is TokenValidation)) ==> (r matches Ok(v) && !v.valid),
        (checked matches Err(error) && !(error is InvalidToken || error is TokenExpired
            || error is TokenValidation)) ==> r is Err,
        match checked {
            Ok(claims) => r matches Ok(v) && v.valid && v.subject == claims.subject
                && v.expiration == claims.expiration,
            Err(error) => if is_token_rejection(error) {
                r matches Ok(v) && !v.valid && v.subject@ == Seq::<char>::empty() && v.expiration
                    == 0
            } else {
                r matches Err(e) && error_view(e) == (
                    STATUS_INTERNAL_SERVER_ERROR,
                    "Configuration error: "@ + ("token validation service error: "@
                        + error.spec_message()),
                )
            },
        },
{
    match checked {
        Ok(claims) => Ok(
            ValidateTokenResponse {
                valid: true,
                subject: claims.subject,
                expiration: claims.expiration,
            },
        ),
        Err(error) => {
            let rejected = match &error {
                AuthError::InvalidToken(_) | AuthError::TokenExpired
                | AuthError::TokenValidation(_) => true,
                _ => false,
            };
            if rejected {
                Ok(ValidateTokenResponse { valid: false, subject: String::new(), expiration: 0 })
            } else {
                let text = error.message();
                Err(
                    ApiError::internal(
                        join2("token validation service error: ", text.as_str()),
                    ),
                )
            }
        },
    }
}

/// `s` percent-encoded over its UTF-8 bytes.
pub open spec fn encoded(s: Seq<char>) -> Seq<char> {
    percent_encode(vstd::utf8::encode_utf8(s))
}

/// The URL the OAuth2 callback redirects a logged-in user to: the frontend
/// URI with the tokens and user id in its fragment.
pub open spec fn login_redirect(
    frontend_uri: Seq<char>,
    user_id: Seq<char>,
    tokens: (Seq<char>, Seq<char>),
) -> Seq<char> {
    frontend_uri + "#"@ + login_fragment(user_id, tokens)
}

/// The fragment of a login redirect.
pub open spec fn login_fragment(user_id: Seq<char>, tokens: (Seq<char>, Seq<char>)) -> Seq<char> {
    "access_token="@ + encoded(tokens.0) + "&refresh_token="@ + encoded(tokens.1) + "&user_id="@
        + encoded(user_id) + "&token_type=Bearer&expires_in=3600"@
}

/// The `&`-separated parameters that a login redirect's fragment holds.
pub open spec fn login_params(user_id: Seq<char>, tokens: (Seq<char>, Seq<char>)) -> Seq<
    Seq<char>,
> {
    seq![
        "access_token="@ + encoded(tokens.0),
        "refresh_token="@ + encoded(tokens.1),
        "user_id="@ + encoded(user_id),
        "token_type=Bearer"@,
        "expires_in=3600"@,
    ]
}

/// The URL the OAuth2 callback redirects to when the login failed: the
/// frontend URI with the error in its fragment.
pub open spec fn failure_redirect(frontend_uri: Seq<char>, error_message: Seq<char>) -> Seq<char> {
    frontend_uri + "#"@ + failure_fragment(error_message)
}

/// The fragment of a failure redirect.
pub open spec fn failure_fragment(error_message: Seq<char>) -> Seq<char> {
    "error="@ + encoded("authentication_failed"@) + "&error_description="@ + encoded(error_message)
}

/// Law: every callback redirect starts with the configured frontend URI
/// exactly as given, followed at once by `#` and the fragment.
pub proof fn lemma_redirects_keep_frontend_uri(
    frontend_uri: Seq<char>,
    user_id: Seq<char>,
    tokens: (Seq<char>, Seq<char>),
    error_message: Seq<char>,
)
    ensures
        login_redirect(frontend_uri, user_id, tokens).len() > frontend_uri.len(),
        failure_redirect(frontend_uri, error_message).len() > frontend_uri.len(),
        login_redirect(frontend_uri, user_id, tokens).take(frontend_uri.len() as int)
            == frontend_uri,
        login_redirect(frontend_uri, user_id, tokens)[frontend_uri.len() as int] == '#',
        login_redirect(frontend_uri, user_id, tokens).skip(frontend_uri.len() as int + 1)
            == login_fragment(user_id, tokens),
        failure_redirect(frontend_uri, error_message).take(frontend_uri.len() as int)
            == frontend_uri,
        failure_redirect(frontend_uri, error_message)[frontend_uri.len() as int] == '#',
        failure_redirect(frontend_uri, error_message).skip(frontend_uri.len() as int + 1)
            == failure_fragment(error_message),
{
    reveal_strlit("#");
    let n = frontend_uri.len() as int;
    let a = login_redirect(frontend_uri, user_id, tokens);
    assert(a =~= frontend_uri + seq!['#'] + login_fragment(user_id, tokens));
    assert(a.take(n) =~= frontend_uri);
    assert(a.skip(n + 1) =~= login_fragment(user_id, tokens));
    let b = failure_redirect(frontend_uri, error_message);
    assert(b =~= frontend_uri + seq!['#'] + failure_fragment(error_message));
    assert(b.take(n) =~= frontend_uri);
    assert(b.skip(n + 1) =~= failure_fragment(error_message));
}

proof fn lemma_no_amp_concat(a: Seq<char>, b: Seq<char>)
    requires
        !a.contains('&'),
        !b.contains('&'),
    ensures
        !(a + b).contains('&'),
{
    if (a + b).contains('&') {
        let k = choose|k: int| 0 <= k < (a + b).len() && (a + b)[k] == '&';
        if k < a.len() {
            assert(a[k] == '&');
        } else {
            assert(b[k - a.len()] == '&');
        }
    }
}

proof fn lemma_encoded_no_amp(s: Seq<char>)
    ensures
        !encoded(s).contains('&'),
{
    let bytes = vstd::utf8::encode_utf8(s);
    lemma_percent_encode_chars(bytes);
    if encoded(s).contains('&') {
        let k = choose|k: int| 0 <= k < encoded(s).len() && encoded(s)[k] == '&';
        assert(is_encoded_char(percent_encode(bytes)[k]));
    }
}

proof fn lemma_literal_no_amp(s: Seq<char>)
    requires
        forall|k: int| 0 <= k < s.len() ==> s[k] != '&',
    ensures
        !s.contains('&'),
{
}

/// Law: the fragment of a login redirect splits at `&` into exactly the
/// five parameters, the three values percent-encoded; no token or user id
/// can add or break a parameter.
pub proof fn lemma_login_fragment_params(user_id: Seq<char>, tokens: (Seq<char>, Seq<char>))
    ensures
        split_on(login_fragment(user_id, tokens), '&') == login_params(user_id, tokens),
{
    reveal_strlit("access_token=");
    reveal_strlit("&refresh_token=");
    reveal_strlit("refresh_token=");
    reveal_strlit("&user_id=");
    reveal_strlit("user_id=");
    reveal_strlit("&token_type=Bearer&expires_in=3600");
    reveal_strlit("token_type=Bearer");
    reveal_strlit("expires_in=3600");
    let e1 = encoded(tokens.0);
    let e2 = encoded(tokens.1);
    let e3 = encoded(user_id);
    let p1 = "access_token="@ + e1;
    let p2 = "refresh_token="@ + e2;
    let p3 = "user_id="@ + e3;
    let p4 = "token_type=Bearer"@;
    let p5 = "expires_in=3600"@;
    let amp = seq!['&'];
    assert("&refresh_token="@ =~= amp + "refresh_token="@);
    assert("&user_id="@ =~= amp + "user_id="@);
    assert("&token_type=Bearer&expires_in=3600"@ =~= amp + p4 + amp + p5);
    let r4 = p4 + amp + p5;
    let r3 = p3 + amp + r4;
    let r2 = p2 + amp + r3;
    assert(login_fragment(user_id, tokens) =~= p1 + amp + r2);
    lemma_encoded_no_amp(tokens.0);
    lemma_encoded_no_amp(tokens.1);
    lemma_encoded_no_amp(user_id);
    lemma_literal_no_amp("access_token="@);
    lemma_literal_no_amp("refresh_token="@);
    lemma_literal_no_amp("user_id="@);
    lemma_literal_no_amp(p4);
    lemma_literal_no_amp(p5);
    lemma_no_amp_concat("access_token="@, e1);
    lemma_no_amp_concat("refresh_token="@, e2);
    lemma_no_amp_concat("user_id="@, e3);
    lemma_split_on_concat(p1, r2, '&');
    lemma_split_on_concat(p2, r3, '&');
    lemma_split_on_concat(p3, r4, '&');
    lemma_split_on_concat(p4, p5, '&');
    lemma_split_on_single(p1, '&');
    lemma_split_on_single(p2, '&');
    lemma_split_on_single(p3, '&');
    lemma_split_on_single(p4, '&');
    lemma_split_on_single(p5, '&');
    assert(split_on(login_fragment(user_id, tokens), '&') =~= login_params(user_id, tokens));
}

/// Law: the fragment of a failure redirect splits at `&` into exactly the
/// `error` and `error_description` parameters.
pub proof fn lemma_failure_fragment_params(error_message: Seq<char>)
    ensures
        split_on(failure_fragment(error_message), '&') == seq![
            "error="@ + encoded("authentication_failed"@),
            "error_description="@ + encoded(error_message),
        ],
{
    reveal_strlit("error=");
    reveal_strlit("&error_description=");
    reveal_strlit("error_description=");
    let e1 = encoded("authentication_failed"@);
    let e2 = encoded(error_message);
    let p1 = "error="@ + e1;
    let p2 = "error_description="@ + e2;
    let amp = seq!['&'];
    assert("&error_description="@ =~= amp + "error_description="@);
    assert(failure_fragment(error_message) =~= p1 + amp + p2);
    lemma_encoded_no_amp("authentication_failed"@);
    lemma_encoded_no_amp(error_message);
    lemma_literal_no_amp("error="@);
    lemma_literal_no_amp("error_description="@);
    lemma_no_amp_concat("error="@, e1);
    lemma_no_amp_concat("error_description="@, e2);
    lemma_split_on_concat(p1, p2, '&');
    lemma_split_on_single(p1, '&');
    lemma_split_on_single(p2, '&');
    assert(split_on(failure_fragment(error_message), '&') =~= seq![p1, p2]);
}

/// The redirect target of `GET /oauth/{provider}/callback` once the OAuth2
/// login has resolved to `login`.
pub fn callback_redirect(frontend_uri: &str, login: Result<(User, TokenPair), AuthError>) -> (r:
    String)
    ensures
        r@ == (match login {
            Ok((user, tokens)) => login_redirect(
                frontend_uri@,
                user.id@,
                (tokens.access_token@, tokens.refresh_token@),
            ),
            Err(error) => failure_redirect(frontend_uri@, error.spec_message()),
        }),
        r@.len() > frontend_uri@.len(),
        r@.take(frontend_uri@.len() as int) == frontend_uri@,
        r@[frontend_uri@.len() as int] == '#',
{
    match login {
        Ok((user, tokens)) => {
            let mut url = owned(frontend_uri);
            url.append("#");
            url.append("access_token=");
            url.append(url_encode(tokens.access_token.as_str()).as_str());
            url.append("&refresh_token=");
            url.append(url_encode(tokens.refresh_token.as_str()).as_str());
            url.append("&user_id=");
            url.append(url_encode(user.id.as_str()).as_str());
            url.append("&token_type=Bearer&expires_in=3600");
            assert(url@ =~= login_redirect(
                frontend_uri@,
                user.id@,
                (tokens.access_token@, tokens.refresh_token@),
            ));
            proof {
                lemma_redirects_keep_frontend_uri(
                    frontend_uri@,
                    user.id@,
                    (tokens.access_token@, tokens.refresh_token@),
                    Seq::empty(),
                );
            }
            url
        },
        Err(error) => {
            let mut url = owned(frontend_uri);
            url.append("#");
            url.append("error=");
            url.append(url_encode("authentication_failed").as_str());
            url.append("&error_description=");
            url.append(url_encode(error.message().as_str()).as_str());
            assert(url@ =~= failure_redirect(frontend_uri@, error.spec_message()));
            proof {
                lemma_redirects_keep_frontend_uri(
                    frontend_uri@,
                    Seq::empty(),
                    (Seq::empty(), Seq::empty()),
                    error.spec_message(),
                );
            }
            url
        },
    }
}

} // verus!
