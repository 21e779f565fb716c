//! The OAuth2 providers and how a request names them.

use vstd::prelude::*;
use crate::error::AuthError;
use crate::response::{ApiError, STATUS_BAD_REQUEST};
use crate::text::{join2, str_equals, to_lowercase, unicode_lowercase};

verus! {

/// An OAuth2 identity provider supported by the service.
#[derive(Clone, Copy, Debug, PartialEq, Eq, Structural, Hash)]
pub enum OAuth2Provider {
    Google,
    GitHub,
    Discord,
    Microsoft,
}

impl OAuth2Provider {
    /// The name shown to users.
    pub open spec fn spec_display_name(self) -> Seq<char> {
        match self {
            OAuth2Provider::Google => "Google"@,
            OAuth2Provider::GitHub => "GitHub"@,
            OAuth2Provider::Discord => "Discord"@,
            OAuth2Provider::Microsoft => "Microsoft"@,
        }
    }

    /// The lower-case name by which a request selects the provider.
    pub open spec fn spec_slug(self) -> Seq<char> {
        match self {
            OAuth2Provider::Google => "google"@,
            OAuth2Provider::GitHub => "github"@,
            OAuth2Provider::Discord => "discord"@,
            OAuth2Provider::Microsoft => "microsoft"@,
        }
    }

    /// The position of the provider when providers are listed by display
    /// name: Discord, GitHub, Google, Microsoft.
    pub open spec fn spec_rank(self) -> nat {
        match self {
            OAuth2Provider::Discord => 0,
            OAuth2Provider::GitHub => 1,
            OAuth2Provider::Google => 2,
            OAuth2Provider::Microsoft => 3,
        }
    }

    /// The name shown to users.
    pub fn display_name(&self) -> (s: &'static str)
        ensures
            s@ == self.spec_display_name(),
    {
        match self {
            OAuth2Provider::Google => "Google",
            OAuth2Provider::GitHub => "GitHub",
            OAuth2Provider::Discord => "Discord",
            OAuth2Provider::Microsoft => "Microsoft",
        }
    }

    /// The position of the provider in display-name order.
    pub fn rank(&self) -> (r: u8)
        ensures
            r as nat == self.spec_rank(),
    {
        match self {
            OAuth2Provider::Discord => 0,
            OAuth2Provider::GitHub => 1,
            OAuth2Provider::Google => 2,
            OAuth2Provider::Microsoft => 3,
        }
    }
}

/// `a` comes before `b` in the order in which `str` values compare
/// (character by character; a proper prefix comes first).
pub open spec fn lex_less(a: Seq<char>, b: Seq<char>) -> bool
    decreases a.len(),
{
    if a.len() == 0 {
        b.len() > 0
    } else if b.len() == 0 {
        false
    } else if (a[0] as u32) < (b[0] as u32) {
        true
    } else if a[0] == b[0] {
        lex_less(a.drop_first(), b.drop_first())
    } else {
        false
    }
}

/// Law: ranking providers orders them exactly as their display names
/// compare, so ordering by rank is ordering by display name.
pub proof fn lemma_rank_is_display_name_order(p: OAuth2Provider, q: OAuth2Provider)
    ensures
        p.spec_rank() < q.spec_rank() <==> lex_less(p.spec_display_name(), q.spec_display_name()),
{
    reveal_strlit("Google");
    reveal_strlit("GitHub");
    reveal_strlit("Discord");
    reveal_strlit("Microsoft");
    reveal_with_fuel(lex_less, 10);
    let d = "Discord"@;
    let h = "GitHub"@;
    let g = "Google"@;
    let m = "Microsoft"@;
    assert(h.drop_first()[0] == 'i');
    assert(g.drop_first()[0] == 'o');
    assert(lex_less(d, h) && lex_less(d, g) && lex_less(d, m));
    assert(lex_less(h, g) && lex_less(h, m) && lex_less(g, m));
    assert(!lex_less(h, d) && !lex_less(g, d) && !lex_less(m, d));
    assert(!lex_less(g, h) && !lex_less(m, h) && !lex_less(m, g));
    assert(!lex_less(d, d)) by {
        assert(d.drop_first().drop_first().drop_first().drop_first().drop_first().drop_first().drop_first().len() == 0);
    }
    assert(!lex_less(h, h));
    assert(!lex_less(g, g));
    assert(!lex_less(m, m));
}

/// Law: each provider is selected by its own lower-case name.
pub proof fn lemma_slug_selects_provider(p: OAuth2Provider)
    ensures
        provider_with_slug(p.spec_slug()) == Some(p),
{
    reveal_strlit("google");
    reveal_strlit("github");
    reveal_strlit("discord");
    reveal_strlit("microsoft");
    assert("google"@[1] != "github"@[1]);
    assert("google"@ != "github"@);
    assert("google"@ != "discord"@);
    assert("google"@ != "microsoft"@);
    assert("github"@.len() == 6 && "discord"@.len() == 7 && "microsoft"@.len() == 9);
    assert("github"@ != "discord"@);
    assert("github"@ != "microsoft"@);
    assert("discord"@ != "microsoft"@);
}

/// The provider whose lower-case name is exactly `name`, if any.
pub open spec fn provider_with_slug(name: Seq<char>) -> Option<OAuth2Provider> {
    if name == "google"@ {
        Some(OAuth2Provider::Google)
    } else if name == "github"@ {
        Some(OAuth2Provider::GitHub)
    } else if name == "discord"@ {
        Some(OAuth2Provider::Discord)
    } else if name == "microsoft"@ {
        Some(OAuth2Provider::Microsoft)
    } else {
        None
    }
}

/// Selects the provider by its lower-case name, which must match exactly.
pub fn provider_from_slug(name: &str) -> (p: Option<OAuth2Provider>)
    ensures
        p == provider_with_slug(name@),
{
    if str_equals(name, "google") {
        Some(OAuth2Provider::Google)
    } else if str_equals(name, "github") {
        Some(OAuth2Provider::GitHub)
    } else if str_equals(name, "discord") {
        Some(OAuth2Provider::Discord)
    } else if str_equals(name, "microsoft") {
        Some(OAuth2Provider::Microsoft)
    } else {
        None
    }
}

/// The provider that a path segment or request field names, compared after
/// lower-casing; any other name is a 400 error reading
/// `Invalid input: Unsupported OAuth2 provider: <value>`.
pub fn parse_oauth_provider(value: &str) -> (r: Result<OAuth2Provider, ApiError>)
    ensures
        match provider_with_slug(unicode_lowercase(value@)) {
            Some(p) => r == Ok::<OAuth2Provider, ApiError>(p),
            None => r matches Err(e) && e.spec_status() == STATUS_BAD_REQUEST
                && e.spec_message() == "Invalid input: "@ + ("Unsupported OAuth2 provider: "@
                + value@),
        },
{
    let lowered = to_lowercase(value);
    match provider_from_slug(lowered.as_str()) {
        Some(p) => Ok(p),
        None => {
            let error = AuthError::InvalidInput(join2("Unsupported OAuth2 provider: ", value));
            Err(ApiError::bad_request(error.message()))
        },
    }
}

} // verus!
