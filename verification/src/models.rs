//! Request and response bodies of the HTTP API, and how they are built from
//! the records of the authentication service.

use vstd::prelude::*;
use vstd::multiset::Multiset;
use chrono::NaiveDateTime;
use crate::provider::OAuth2Provider;
use crate::text::{chars_of, lemma_trim_stretch, spec_is_whitespace, string_from_chars, trim, trim_chars};
use crate::user::{spec_identifier, take_identifier, OAuth2UserInfo, TokenPair, User};

verus! {

/// The pieces of `s` between the occurrences of `sep`, as `str::split`
/// yields them: one piece more than there are separators, empty pieces
/// included.
pub open spec fn split_on(s: Seq<char>, sep: char) -> Seq<Seq<char>>
    decreases s.len(),
{
    if s.len() == 0 {
        seq![Seq::<char>::empty()]
    } else {
        let pieces = split_on(s.drop_last(), sep);
        if s.last() == sep {
            pieces.push(Seq::<char>::empty())
        } else {
            pieces.update(pieces.len() - 1, pieces.last().push(s.last()))
        }
    }
}

/// The pieces, each trimmed of surrounding whitespace, without those that
/// are then empty.
pub open spec fn trimmed_nonempty(pieces: Seq<Seq<char>>) -> Seq<Seq<char>>
    decreases pieces.len(),
{
    if pieces.len() == 0 {
        Seq::empty()
    } else {
        let kept = trimmed_nonempty(pieces.drop_last());
        let t = trim(pieces.last());
        if t.len() > 0 {
            kept.push(t)
        } else {
            kept
        }
    }
}

/// The scopes that a comma-separated list names.
pub open spec fn scope_list(value: Seq<char>) -> Seq<Seq<char>> {
    trimmed_nonempty(split_on(value, ','))
}

/// The texts of a list of strings.
pub open spec fn string_views(v: Seq<String>) -> Seq<Seq<char>> {
    v.map_values(|s: String| s@)
}

/// Splitting at a separator between `a` and `b` splits each side apart.
pub proof fn lemma_split_on_concat(a: Seq<char>, b: Seq<char>, sep: char)
    ensures
        split_on(a + seq![sep] + b, sep) == split_on(a, sep) + split_on(b, sep),
    decreases b.len(),
{
    let x = a + seq![sep] + b;
    if b.len() == 0 {
        assert(x.drop_last() =~= a);
        assert(x.last() == sep);
        assert(split_on(a, sep).push(Seq::<char>::empty()) =~= split_on(a, sep) + split_on(b, sep));
    } else {
        assert(x.drop_last() =~= a + seq![sep] + b.drop_last());
        assert(x.last() == b.last());
        lemma_split_on_concat(a, b.drop_last(), sep);
        lemma_split_on_nonempty(b.drop_last(), sep);
        let pa = split_on(a, sep);
        let pb = split_on(b.drop_last(), sep);
        if b.last() == sep {
            assert((pa + pb).push(Seq::<char>::empty()) =~= pa + pb.push(Seq::<char>::empty()));
        } else {
            let whole = pa + pb;
            assert(whole.last() == pb.last());
            assert(whole.update(whole.len() - 1, whole.last().push(b.last())) =~= pa + pb.update(
                pb.len() - 1,
                pb.last().push(b.last()),
            ));
        }
    }
}

/// A sequence without the separator is a single piece.
pub proof fn lemma_split_on_single(a: Seq<char>, sep: char)
    requires
        !a.contains(sep),
    ensures
        split_on(a, sep) == seq![a],
    decreases a.len(),
{
    if a.len() == 0 {
        assert(a =~= Seq::<char>::empty());
    } else {
        assert(!a.drop_last().contains(sep)) by {
            if a.drop_last().contains(sep) {
                let k = choose|k: int| 0 <= k < a.drop_last().len() && a.drop_last()[k] == sep;
                assert(a[k] == sep);
            }
        }
        lemma_split_on_single(a.drop_last(), sep);
        assert(a.last() != sep) by {
            assert(a[a.len() - 1] == a.last());
        }
        assert(a.drop_last().push(a.last()) =~= a);
        let p = seq![a.drop_last()];
        assert(p.last() == a.drop_last());
        assert(p.update(p.len() - 1, p.last().push(a.last())) =~= seq![a]);
    }
}

/// Splitting always yields at least one piece.
pub proof fn lemma_split_on_nonempty(s: Seq<char>, sep: char)
    ensures
        split_on(s, sep).len() >= 1,
    decreases s.len(),
{
    if s.len() > 0 {
        lemma_split_on_nonempty(s.drop_last(), sep);
    }
}

proof fn lemma_split_on_pieces_lack_sep(s: Seq<char>, sep: char)
    ensures
        forall|k: int| 0 <= k < split_on(s, sep).len() ==> !(#[trigger] split_on(s, sep)[k]).contains(sep),
    decreases s.len(),
{
    if s.len() > 0 {
        lemma_split_on_pieces_lack_sep(s.drop_last(), sep);
        lemma_split_on_nonempty(s.drop_last(), sep);
        let p = split_on(s.drop_last(), sep);
        if s.last() != sep {
            let q = p.last().push(s.last());
            assert(!p[p.len() - 1].contains(sep));
            assert(!q.contains(sep)) by {
                if q.contains(sep) {
                    let m = choose|m: int| 0 <= m < q.len() && q[m] == sep;
                    assert(p.last()[m] == sep);
                }
            }
            assert forall|k: int| 0 <= k < split_on(s, sep).len() implies !(#[trigger] split_on(s, sep)[k]).contains(sep) by {
                if k < p.len() - 1 {
                    assert(split_on(s, sep)[k] == p[k]);
                }
            }
        } else {
            assert forall|k: int| 0 <= k < split_on(s, sep).len() implies !(#[trigger] split_on(s, sep)[k]).contains(sep) by {
                if k < p.len() {
                    assert(split_on(s, sep)[k] == p[k]);
                }
            }
        }
    }
}

/// A scope as a list keeps it: not empty, no comma, no whitespace at
/// either end.
pub open spec fn is_clean_scope(scope: Seq<char>) -> bool {
    &&& scope.len() > 0
    &&& !scope.contains(',')
    &&& !spec_is_whitespace(scope[0])
    &&& !spec_is_whitespace(scope.last())
}

proof fn lemma_trimmed_nonempty_clean(pieces: Seq<Seq<char>>)
    requires
        forall|k: int| 0 <= k < pieces.len() ==> !(#[trigger] pieces[k]).contains(','),
    ensures
        forall|k: int|
            0 <= k < trimmed_nonempty(pieces).len() ==> is_clean_scope(
                #[trigger] trimmed_nonempty(pieces)[k],
            ),
    decreases pieces.len(),
{
    if pieces.len() > 0 {
        let rest = pieces.drop_last();
        assert forall|k: int| 0 <= k < rest.len() implies !(#[trigger] rest[k]).contains(',') by {
            assert(rest[k] == pieces[k]);
        }
        lemma_trimmed_nonempty_clean(rest);
        let last = pieces.last();
        assert(!pieces[pieces.len() - 1].contains(','));
        let r = lemma_trim_stretch(last);
        let t = trim(last);
        if t.len() > 0 {
            assert(!t.contains(',')) by {
                if t.contains(',') {
                    let m = choose|m: int| 0 <= m < t.len() && t[m] == ',';
                    assert(last[r.0 + m] == ',');
                }
            }
            let kept = trimmed_nonempty(rest);
            assert forall|k: int| 0 <= k < trimmed_nonempty(pieces).len() implies is_clean_scope(
                #[trigger] trimmed_nonempty(pieces)[k],
            ) by {
                if k < kept.len() {
                    assert(trimmed_nonempty(pieces)[k] == kept[k]);
                }
            }
        }
    }
}

/// Law: every scope that a list yields is non-empty, holds no comma and has
/// no whitespace at either end.
pub proof fn lemma_scopes_are_clean(value: Seq<char>)
    ensures
        forall|k: int|
            0 <= k < scope_list(value).len() ==> is_clean_scope(#[trigger] scope_list(value)[k]),
{
    lemma_split_on_pieces_lack_sep(value, ',');
    lemma_trimmed_nonempty_clean(split_on(value, ','));
}

proof fn lemma_trimmed_nonempty_concat(a: Seq<Seq<char>>, b: Seq<Seq<char>>)
    ensures
        trimmed_nonempty(a + b) == trimmed_nonempty(a) + trimmed_nonempty(b),
    decreases b.len(),
{
    if b.len() == 0 {
        assert(a + b =~= a);
        assert(trimmed_nonempty(a) + trimmed_nonempty(b) =~= trimmed_nonempty(a));
    } else {
        assert((a + b).drop_last() =~= a + b.drop_last());
        assert((a + b).last() == b.last());
        lemma_trimmed_nonempty_concat(a, b.drop_last());
        let ta = trimmed_nonempty(a);
        let tb = trimmed_nonempty(b.drop_last());
        assert((ta + tb).push(trim(b.last())) =~= ta + tb.push(trim(b.last())));
    }
}

/// Law: a list without a comma names exactly its trimmed text as its one
/// scope, or no scope when that is empty.
pub proof fn lemma_scope_list_single(value: Seq<char>)
    requires
        !value.contains(','),
    ensures
        trim(value).len() > 0 ==> scope_list(value) == seq![trim(value)],
        trim(value).len() == 0 ==> scope_list(value) == Seq::<Seq<char>>::empty(),
{
    lemma_split_on_single(value, ',');
    let p = seq![value];
    assert(p.drop_last() =~= Seq::<Seq<char>>::empty());
    assert(p.last() == value);
    assert(trimmed_nonempty(Seq::<Seq<char>>::empty()) == Seq::<Seq<char>>::empty());
    assert(Seq::<Seq<char>>::empty().push(trim(value)) =~= seq![trim(value)]);
}

/// Law: the scopes of two lists joined by a comma are the scopes of the
/// first followed by the scopes of the second.
pub proof fn lemma_scope_list_concat(a: Seq<char>, b: Seq<char>)
    ensures
        scope_list(a + seq![','] + b) == scope_list(a) + scope_list(b),
{
    lemma_split_on_concat(a, b, ',');
    lemma_trimmed_nonempty_concat(split_on(a, ','), split_on(b, ','));
}

/// The query of `GET /oauth/{provider}/auth`.
pub struct OAuthAuthQuery {
    /// The opaque state passed through the OAuth2 round trip.
    pub state: String,
    /// A comma-separated list of scopes to request, if the client chose them.
    pub scopes: Option<String>,
}

fn push_scope(out: &mut Vec<String>, piece: &Vec<char>)
    ensures
        string_views(final(out)@) == (if trim(piece@).len() > 0 {
            string_views(old(out)@).push(trim(piece@))
        } else {
            string_views(old(out)@)
        }),
{
    let t = trim_chars(piece);
    if t.len() > 0 {
        let ghost before = out@;
        out.push(string_from_chars(t));
        assert(string_views(out@) =~= string_views(before).push(trim(piece@)));
    }
}

/// The scopes of a comma-separated list: its pieces trimmed of whitespace,
/// empty ones left out, in order.
pub fn split_scopes(value: &str) -> (r: Vec<String>)
    ensures
        string_views(r@) == scope_list(value@),
{
    let chars = chars_of(value);
    let n = chars.len();
    let mut out: Vec<String> = Vec::new();
    let mut cur: Vec<char> = Vec::new();
    let mut i: usize = 0;
    proof {
        assert(chars@.take(0) =~= Seq::<char>::empty());
        assert(split_on(chars@.take(0), ',').drop_last() =~= Seq::<Seq<char>>::empty());
        assert(string_views(out@) =~= Seq::<Seq<char>>::empty());
    }
    while i < n
        invariant
            i <= n == chars.len(),
            split_on(chars@.take(i as int), ',').last() == cur@,
            string_views(out@) == trimmed_nonempty(split_on(chars@.take(i as int), ',').drop_last()),
        decreases n - i,
    {
        let c = chars[i];
        let ghost prev = split_on(chars@.take(i as int), ',');
        proof {
            lemma_split_on_nonempty(chars@.take(i as int), ',');
            assert(chars@.take(i + 1).drop_last() =~= chars@.take(i as int));
            assert(chars@.take(i + 1).last() == c);
        }
        if c == ',' {
            push_scope(&mut out, &cur);
            cur = Vec::new();
            proof {
                let next = split_on(chars@.take(i + 1), ',');
                assert(next == prev.push(Seq::<char>::empty()));
                assert(next.drop_last() =~= prev);
                assert(prev =~= prev.drop_last().push(prev.last()));
            }
        } else {
            cur.push(c);
            proof {
                let next = split_on(chars@.take(i + 1), ',');
                assert(next == prev.update(prev.len() - 1, prev.last().push(c)));
                assert(next.drop_last() =~= prev.drop_last());
            }
        }
        i = i + 1;
    }
    push_scope(&mut out, &cur);
    proof {
        let all = split_on(chars@.take(n as int), ',');
        lemma_split_on_nonempty(chars@.take(n as int), ',');
        assert(chars@.take(n as int) =~= chars@);
        assert(all =~= all.drop_last().push(all.last()));
    }
    out
}

impl OAuthAuthQuery {
    /// The requested scopes, if the client named any list: the pieces of the
    /// comma-separated list, trimmed, with empty pieces left out.
    pub fn scopes(&self) -> (r: Option<Vec<String>>)
        ensures
            match self.scopes {
                Some(v) => r matches Some(list) && string_views(list@) == scope_list(v@),
                None => r is None,
            },
    {
        match &self.scopes {
            Some(value) => Some(split_scopes(value.as_str())),
            None => None,
        }
    }
}


/// The body answering a signup: the new user's id and login identifier.
#[derive(Debug)]
pub struct UserResponse {
    pub id: String,
    pub identifier: Option<String>,
}

impl UserResponse {
    /// The response describing `user`.
    pub fn from(user: User) -> (r: UserResponse)
        ensures
            r.id == user.id,
            r.identifier == spec_identifier(user),
    {
        UserResponse { id: user.id, identifier: take_identifier(user.credentials) }
    }
}

/// The body answering a login: the user and the tokens issued to it.
#[derive(Debug)]
pub struct LoginResponse {
    pub id: String,
    pub identifier: Option<String>,
    pub access_token: String,
    pub refresh_token: String,
}

impl LoginResponse {
    /// The response for `user`, logged in with `tokens`.
    pub fn from_user_and_tokens(user: User, tokens: TokenPair) -> (r: LoginResponse)
        ensures
            r.id == user.id,
            r.identifier == spec_identifier(user),
            r.access_token == tokens.access_token,
            r.refresh_token == tokens.refresh_token,
    {
        LoginResponse {
            id: user.id,
            identifier: take_identifier(user.credentials),
            access_token: tokens.access_token,
            refresh_token: tokens.refresh_token,
        }
    }
}

/// The body carrying a token pair, and the user id where the tokens were
/// issued at signup.
#[derive(Debug)]
pub struct TokenPairResponse {
    pub access_token: String,
    pub refresh_token: String,
    /// Left out of the JSON body when absent.
    pub id: Option<String>,
}

impl TokenPairResponse {
    /// The response carrying `tokens` alone.
    pub fn from(tokens: TokenPair) -> (r: TokenPairResponse)
        ensures
            r.access_token == tokens.access_token,
            r.refresh_token == tokens.refresh_token,
            r.id is None,
    {
        TokenPairResponse {
            access_token: tokens.access_token,
            refresh_token: tokens.refresh_token,
            id: None,
        }
    }

    /// The response carrying `tokens` and the id of `user`.
    pub fn from_user_and_tokens(user: User, tokens: TokenPair) -> (r: TokenPairResponse)
        ensures
            r.access_token == tokens.access_token,
            r.refresh_token == tokens.refresh_token,
            r.id == Some(user.id),
    {
        TokenPairResponse {
            access_token: tokens.access_token,
            refresh_token: tokens.refresh_token,
            id: Some(user.id),
        }
    }
}

/// The body answering a token validation.
#[derive(Debug)]
pub struct ValidateTokenResponse {
    pub valid: bool,
    pub subject: String,
    pub expiration: usize,
}

/// The body carrying the URL that starts an OAuth2 authorization.
#[derive(Debug)]
pub struct OAuthAuthUrlResponse {
    pub auth_url: String,
}

/// One linked OAuth2 account in a user profile.
#[derive(Debug)]
pub struct OAuthAccountResponse {
    pub provider: OAuth2Provider,
    pub provider_user_id: String,
    pub email: Option<String>,
    pub name: Option<String>,
    pub avatar_url: Option<String>,
    pub verified_email: Option<bool>,
    pub locale: Option<String>,
}

/// The profile entry describing the linked account `info`.
pub open spec fn account_of(info: OAuth2UserInfo) -> OAuthAccountResponse {
    OAuthAccountResponse {
        provider: info.provider,
        provider_user_id: info.provider_user_id,
        email: info.email,
        name: info.name,
        avatar_url: info.avatar_url,
        verified_email: info.verified_email,
        locale: info.locale,
    }
}

impl OAuthAccountResponse {
    /// The profile entry describing the linked account `info`.
    pub fn from(info: OAuth2UserInfo) -> (r: OAuthAccountResponse)
        ensures
            r == account_of(info),
            r.provider == info.provider,
            r.provider_user_id == info.provider_user_id,
            r.email == info.email,
            r.name == info.name,
            r.avatar_url == info.avatar_url,
            r.verified_email == info.verified_email,
            r.locale == info.locale,
    {
        OAuthAccountResponse {
            provider: info.provider,
            provider_user_id: info.provider_user_id,
            email: info.email,
            name: info.name,
            avatar_url: info.avatar_url,
            verified_email: info.verified_email,
            locale: info.locale,
        }
    }
}

/// Law: a profile entry carries the linked account's own fields, each in
/// its own place.
pub proof fn lemma_account_keeps_fields(info: OAuth2UserInfo)
    ensures
        account_of(info).provider == info.provider,
        account_of(info).provider_user_id == info.provider_user_id,
        account_of(info).email == info.email,
        account_of(info).name == info.name,
        account_of(info).avatar_url == info.avatar_url,
        account_of(info).verified_email == info.verified_email,
        account_of(info).locale == info.locale,
{
}

/// Entry `a` carries exactly the fields of the linked account `i`.
pub open spec fn carries_fields(a: OAuthAccountResponse, i: OAuth2UserInfo) -> bool {
    &&& a.provider == i.provider
    &&& a.provider_user_id == i.provider_user_id
    &&& a.email == i.email
    &&& a.name == i.name
    &&& a.avatar_url == i.avatar_url
    &&& a.verified_email == i.verified_email
    &&& a.locale == i.locale
}

/// Law: every entry of a user's profile list carries the fields of one of
/// the user's linked accounts, and there are as many entries as accounts.
pub proof fn lemma_profile_entries_are_accounts(user: User)
    ensures
        forall|k: int|
            0 <= k < by_display_name(profile_accounts(user)).len() ==> exists|m: int|
                0 <= m < user.oauth_accounts@.len() && carries_fields(
                    #[trigger] by_display_name(profile_accounts(user))[k],
                    #[trigger] user.oauth_accounts@[m],
                ),
        by_display_name(profile_accounts(user)).len() == user.oauth_accounts@.len(),
{
    broadcast use vstd::seq_lib::group_to_multiset_ensures;

    let s = profile_accounts(user);
    let out = by_display_name(s);
    lemma_by_display_name_sorts(s);
    assert forall|k: int| 0 <= k < out.len() implies exists|m: int|
        0 <= m < user.oauth_accounts@.len() && carries_fields(
            #[trigger] out[k],
            #[trigger] user.oauth_accounts@[m],
        ) by {
        assert(out.contains(out[k]));
        assert(out.to_multiset().count(out[k]) > 0);
        assert(s.contains(out[k]));
        let m = choose|m: int| 0 <= m < s.len() && s[m] == out[k];
        lemma_account_keeps_fields(user.oauth_accounts@[m]);
        assert(s[m] == account_of(user.oauth_accounts@[m]));
        assert(carries_fields(out[k], user.oauth_accounts@[m]));
    }
    assert(out.len() == out.to_multiset().len());
    assert(s.len() == s.to_multiset().len());
}

/// The entries of `s` whose provider has rank `r`, in order.
pub open spec fn with_rank(s: Seq<OAuthAccountResponse>, r: nat) -> Seq<OAuthAccountResponse>
    decreases s.len(),
{
    if s.len() == 0 {
        s
    } else if s.last().provider.spec_rank() == r {
        with_rank(s.drop_last(), r).push(s.last())
    } else {
        with_rank(s.drop_last(), r)
    }
}

/// The entries of `s` whose provider has rank `r` or more, in order.
pub open spec fn with_rank_from(s: Seq<OAuthAccountResponse>, r: nat) -> Seq<
    OAuthAccountResponse,
>
    decreases s.len(),
{
    if s.len() == 0 {
        s
    } else if s.last().provider.spec_rank() >= r {
        with_rank_from(s.drop_last(), r).push(s.last())
    } else {
        with_rank_from(s.drop_last(), r)
    }
}

/// The entries of `s` whose provider ranks below `k`, grouped by rank in
/// increasing order, each group in the order of `s`.
pub open spec fn ranks_below(s: Seq<OAuthAccountResponse>, k: nat) -> Seq<OAuthAccountResponse>
    decreases k,
{
    if k == 0 {
        Seq::empty()
    } else {
        ranks_below(s, (k - 1) as nat) + with_rank(s, (k - 1) as nat)
    }
}

/// `s` ordered by the display name of the provider, entries of one provider
/// keeping their order (a stable sort by display name).
pub open spec fn by_display_name(s: Seq<OAuthAccountResponse>) -> Seq<OAuthAccountResponse> {
    ranks_below(s, 4)
}

proof fn lemma_with_rank_of_rank_from(s: Seq<OAuthAccountResponse>, r: nat)
    ensures
        with_rank(with_rank_from(s, r), r) == with_rank(s, r),
        with_rank_from(with_rank_from(s, r), r + 1) == with_rank_from(s, r + 1),
    decreases s.len(),
{
    if s.len() > 0 {
        lemma_with_rank_of_rank_from(s.drop_last(), r);
        let t = with_rank_from(s.drop_last(), r);
        if s.last().provider.spec_rank() >= r {
            assert(with_rank_from(s, r).drop_last() =~= t);
        }
    }
}

proof fn lemma_rank_from_bound(s: Seq<OAuthAccountResponse>, r: nat)
    ensures
        forall|i: int|
            0 <= i < with_rank_from(s, r).len() ==> #[trigger] with_rank_from(s, r)[i].provider.spec_rank()
                >= r,
    decreases s.len(),
{
    if s.len() > 0 {
        lemma_rank_from_bound(s.drop_last(), r);
    }
}

proof fn lemma_rank_from_zero(s: Seq<OAuthAccountResponse>)
    ensures
        with_rank_from(s, 0) == s,
    decreases s.len(),
{
    if s.len() > 0 {
        lemma_rank_from_zero(s.drop_last());
        assert(s.drop_last().push(s.last()) =~= s);
    }
}

/// The entries of `s` with rank below `k`, as a multiset.
pub open spec fn rank_groups(s: Seq<OAuthAccountResponse>, k: nat) -> Multiset<OAuthAccountResponse>
    decreases k,
{
    if k == 0 {
        Multiset::empty()
    } else {
        rank_groups(s, (k - 1) as nat).add(with_rank(s, (k - 1) as nat).to_multiset())
    }
}

proof fn lemma_ranks_below_multiset(s: Seq<OAuthAccountResponse>, k: nat)
    ensures
        ranks_below(s, k).to_multiset() == rank_groups(s, k),
    decreases k,
{
    broadcast use vstd::multiset::group_multiset_axioms;
    broadcast use vstd::seq_lib::group_to_multiset_ensures;

    if k == 0 {
        assert(ranks_below(s, 0).to_multiset() =~= Multiset::<OAuthAccountResponse>::empty());
    } else {
        lemma_ranks_below_multiset(s, (k - 1) as nat);
        vstd::seq_lib::lemma_multiset_commutative(
            ranks_below(s, (k - 1) as nat),
            with_rank(s, (k - 1) as nat),
        );
    }
}

proof fn lemma_rank_groups_push(s: Seq<OAuthAccountResponse>, k: nat)
    requires
        s.len() > 0,
    ensures
        rank_groups(s, k) == if s.last().provider.spec_rank() < k {
            rank_groups(s.drop_last(), k).insert(s.last())
        } else {
            rank_groups(s.drop_last(), k)
        },
    decreases k,
{
    broadcast use vstd::multiset::group_multiset_axioms;
    broadcast use vstd::seq_lib::to_multiset_build;

    if k > 0 {
        lemma_rank_groups_push(s, (k - 1) as nat);
        let a = s.last();
        let t = s.drop_last();
        if a.provider.spec_rank() == k - 1 {
            assert(with_rank(s, (k - 1) as nat) == with_rank(t, (k - 1) as nat).push(a));
            assert(rank_groups(s, k) =~= rank_groups(t, k).insert(a));
        } else if a.provider.spec_rank() < k - 1 {
            assert(rank_groups(s, k) =~= rank_groups(t, k).insert(a));
        } else {
            assert(rank_groups(s, k) =~= rank_groups(t, k));
        }
    }
}

proof fn lemma_rank_groups_all(s: Seq<OAuthAccountResponse>)
    ensures
        rank_groups(s, 4) == s.to_multiset(),
    decreases s.len(),
{
    broadcast use vstd::multiset::group_multiset_axioms;
    broadcast use vstd::seq_lib::group_to_multiset_ensures;

    if s.len() == 0 {
        assert forall|r: nat| with_rank(s, r).to_multiset() =~= Multiset::<OAuthAccountResponse>::empty() by {
            assert(with_rank(s, r).len() == 0);
        }
        assert(rank_groups(s, 0) =~= Multiset::<OAuthAccountResponse>::empty());
        assert(rank_groups(s, 1) =~= Multiset::<OAuthAccountResponse>::empty());
        assert(rank_groups(s, 2) =~= Multiset::<OAuthAccountResponse>::empty());
        assert(rank_groups(s, 3) =~= Multiset::<OAuthAccountResponse>::empty());
        assert(rank_groups(s, 4) =~= Multiset::<OAuthAccountResponse>::empty());
        assert(s.to_multiset() =~= Multiset::<OAuthAccountResponse>::empty());
    } else {
        lemma_rank_groups_all(s.drop_last());
        lemma_rank_groups_push(s, 4);
        assert(s.drop_last().push(s.last()) =~= s);
    }
}

proof fn lemma_with_rank_exact(s: Seq<OAuthAccountResponse>, r: nat)
    ensures
        forall|i: int|
            0 <= i < with_rank(s, r).len() ==> #[trigger] with_rank(s, r)[i].provider.spec_rank()
                == r,
    decreases s.len(),
{
    if s.len() > 0 {
        lemma_with_rank_exact(s.drop_last(), r);
    }
}

proof fn lemma_ranks_below_sorted(s: Seq<OAuthAccountResponse>, k: nat)
    ensures
        forall|i: int|
            0 <= i < ranks_below(s, k).len() ==> #[trigger] ranks_below(s, k)[i].provider.spec_rank()
                < k,
        forall|i: int, j: int|
            0 <= i <= j < ranks_below(s, k).len() ==> (#[trigger] ranks_below(s, k)[i]).provider.spec_rank()
                <= (#[trigger] ranks_below(s, k)[j]).provider.spec_rank(),
    decreases k,
{
    if k > 0 {
        lemma_ranks_below_sorted(s, (k - 1) as nat);
        lemma_with_rank_exact(s, (k - 1) as nat);
        let a = ranks_below(s, (k - 1) as nat);
        let b = with_rank(s, (k - 1) as nat);
        let c = ranks_below(s, k);
        assert forall|i: int| 0 <= i < c.len() implies #[trigger] c[i].provider.spec_rank() < k by {
            if i < a.len() {
                assert(c[i] == a[i]);
            } else {
                assert(c[i] == b[i - a.len()]);
            }
        }
        assert forall|i: int, j: int|
            0 <= i <= j < c.len() implies (#[trigger] c[i]).provider.spec_rank() <= (
            #[trigger] c[j]).provider.spec_rank() by {
            if j < a.len() {
                assert(c[i] == a[i]);
                assert(c[j] == a[j]);
            } else if i < a.len() {
                assert(c[i] == a[i]);
                assert(c[j] == b[j - a.len()]);
            } else {
                assert(c[i] == b[i - a.len()]);
                assert(c[j] == b[j - a.len()]);
            }
        }
    }
}

/// Law: ordering accounts by display name keeps every account exactly as
/// often as it occurred, and lists providers in display-name order.
pub proof fn lemma_by_display_name_sorts(s: Seq<OAuthAccountResponse>)
    ensures
        by_display_name(s).to_multiset() == s.to_multiset(),
        forall|i: int, j: int|
            0 <= i <= j < by_display_name(s).len() ==> (#[trigger] by_display_name(s)[i]).provider.spec_rank()
                <= (#[trigger] by_display_name(s)[j]).provider.spec_rank(),
{
    lemma_ranks_below_multiset(s, 4);
    lemma_rank_groups_all(s);
    lemma_ranks_below_sorted(s, 4);
}

/// No provider occurs twice among the entries of `s`.
pub open spec fn distinct_providers(s: Seq<OAuthAccountResponse>) -> bool {
    forall|i: int, j: int|
        0 <= i < j < s.len() ==> (#[trigger] s[i]).provider != (#[trigger] s[j]).provider
}

proof fn lemma_with_rank_witness(s: Seq<OAuthAccountResponse>, r: nat)
    requires
        with_rank(s, r).len() > 0,
    ensures
        exists|i: int| 0 <= i < s.len() && (#[trigger] s[i]).provider.spec_rank() == r,
    decreases s.len(),
{
    if s.last().provider.spec_rank() != r {
        lemma_with_rank_witness(s.drop_last(), r);
        let i = choose|i: int|
            0 <= i < s.drop_last().len() && (#[trigger] s.drop_last()[i]).provider.spec_rank() == r;
        assert(s[i] == s.drop_last()[i]);
    } else {
        assert(s[s.len() - 1].provider.spec_rank() == r);
    }
}

proof fn lemma_with_rank_at_most_one(s: Seq<OAuthAccountResponse>, r: nat)
    requires
        distinct_providers(s),
    ensures
        with_rank(s, r).len() <= 1,
    decreases s.len(),
{
    if s.len() > 0 {
        let t = s.drop_last();
        assert(distinct_providers(t)) by {
            assert forall|i: int, j: int| 0 <= i < j < t.len() implies (#[trigger] t[i]).provider
                != (#[trigger] t[j]).provider by {
                assert(t[i] == s[i] && t[j] == s[j]);
            }
        }
        lemma_with_rank_at_most_one(t, r);
        if s.last().provider.spec_rank() == r && with_rank(t, r).len() > 0 {
            lemma_with_rank_witness(t, r);
            let i = choose|i: int| 0 <= i < t.len() && (#[trigger] t[i]).provider.spec_rank() == r;
            assert(t[i] == s[i]);
            assert(s[i].provider != s[s.len() - 1].provider);
            assert(false);
        }
    }
}

proof fn lemma_ranks_below_strict(s: Seq<OAuthAccountResponse>, k: nat)
    requires
        distinct_providers(s),
    ensures
        forall|i: int, j: int|
            0 <= i < j < ranks_below(s, k).len() ==> (#[trigger] ranks_below(s, k)[i]).provider.spec_rank()
                < (#[trigger] ranks_below(s, k)[j]).provider.spec_rank(),
    decreases k,
{
    if k > 0 {
        lemma_ranks_below_strict(s, (k - 1) as nat);
        lemma_ranks_below_sorted(s, (k - 1) as nat);
        lemma_with_rank_exact(s, (k - 1) as nat);
        lemma_with_rank_at_most_one(s, (k - 1) as nat);
        let a = ranks_below(s, (k - 1) as nat);
        let b = with_rank(s, (k - 1) as nat);
        let c = ranks_below(s, k);
        assert forall|i: int, j: int| 0 <= i < j < c.len() implies (#[trigger] c[i]).provider.spec_rank()
            < (#[trigger] c[j]).provider.spec_rank() by {
            if j < a.len() {
                assert(c[i] == a[i]);
                assert(c[j] == a[j]);
            } else {
                assert(i < a.len());
                assert(c[i] == a[i]);
                assert(c[j] == b[j - a.len()]);
            }
        }
    }
}

/// Law: when no provider is linked twice, the ordered list names each
/// provider at most once, in strictly increasing display-name order.
pub proof fn lemma_by_display_name_strict(s: Seq<OAuthAccountResponse>)
    requires
        distinct_providers(s),
    ensures
        forall|i: int, j: int|
            0 <= i < j < by_display_name(s).len() ==> (#[trigger] by_display_name(s)[i]).provider.spec_rank()
                < (#[trigger] by_display_name(s)[j]).provider.spec_rank(),
{
    lemma_ranks_below_strict(s, 4);
}

/// Law: the profile of a user whose linked accounts name each provider at
/// most once lists each provider at most once, in display-name order.
pub proof fn lemma_profile_one_entry_per_provider(user: User)
    requires
        user.has_distinct_providers(),
    ensures
        forall|i: int, j: int|
            0 <= i < j < by_display_name(profile_accounts(user)).len() ==> (
            #[trigger] by_display_name(profile_accounts(user))[i]).provider.spec_rank() < (
            #[trigger] by_display_name(profile_accounts(user))[j]).provider.spec_rank(),
{
    let s = profile_accounts(user);
    assert forall|i: int, j: int| 0 <= i < j < s.len() implies (#[trigger] s[i]).provider
        != (#[trigger] s[j]).provider by {
        assert(s[i].provider == user.oauth_accounts@[i].provider);
        assert(s[j].provider == user.oauth_accounts@[j].provider);
    }
    lemma_by_display_name_strict(s);
}

/// The profile entries of a user's linked accounts, in the user's order.
pub open spec fn profile_accounts(user: User) -> Seq<OAuthAccountResponse> {
    user.oauth_accounts@.map_values(|i: OAuth2UserInfo| account_of(i))
}

/// Orders `accounts` by the display name of their provider, keeping the
/// order of the entries of one provider.
pub fn sort_by_display_name(accounts: Vec<OAuthAccountResponse>) -> (r: Vec<
    OAuthAccountResponse,
>)
    ensures
        r@ == by_display_name(accounts@),
{
    let ghost all = accounts@;
    let mut out: Vec<OAuthAccountResponse> = Vec::new();
    let mut remaining = accounts;
    let mut rank: u8 = 0;
    proof {
        lemma_rank_from_zero(all);
    }
    while rank < 4
        invariant
            rank <= 4,
            out@ == ranks_below(all, rank as nat),
            remaining@ == with_rank_from(all, rank as nat),
        decreases 4 - rank,
    {
        let ghost start = remaining@;
        let ghost out_start = out@;
        let mut rest: Vec<OAuthAccountResponse> = Vec::new();
        proof {
            assert(start.take(0) =~= Seq::<OAuthAccountResponse>::empty());
            assert(out_start + with_rank(start.take(0), rank as nat) =~= out_start);
        }
        proof {
            lemma_rank_from_bound(all, rank as nat);
        }
        while remaining.len() > 0
            invariant
                start == with_rank_from(all, rank as nat),
                forall|i: int| 0 <= i < start.len() ==> #[trigger] start[i].provider.spec_rank() >= rank,
                remaining.len() <= start.len(),
                remaining@ == start.skip(start.len() - remaining.len()),
                out@ == out_start + with_rank(start.take(start.len() - remaining.len()), rank as nat),
                rest@ == with_rank_from(start.take(start.len() - remaining.len()), (rank + 1) as nat),
            decreases remaining.len(),
        {
            let ghost k = start.len() - remaining.len();
            let a = remaining.remove(0);
            proof {
                assert(a == start[k]);
                assert(start.take(k + 1).drop_last() =~= start.take(k));
                assert(start.take(k + 1).last() == a);
                assert(remaining@ =~= start.skip(k + 1));
            }
            if a.provider.rank() == rank {
                out.push(a);
                proof {
                    assert(out@ =~= out_start + with_rank(start.take(k + 1), rank as nat));
                }
            } else {
                rest.push(a);
                proof {
                    assert(start[k].provider.spec_rank() >= rank);
                    assert(out@ =~= out_start + with_rank(start.take(k + 1), rank as nat));
                }
            }
        }
        proof {
            assert(start.take(start.len() as int) =~= start);
            lemma_with_rank_of_rank_from(all, rank as nat);
        }
        remaining = rest;
        rank = rank + 1;
    }
    out
}

/// The body answering `GET /me`: the authenticated user's profile.
#[derive(Debug)]
pub struct UserProfileResponse {
    pub id: String,
    pub identifier: Option<String>,
    /// The linked accounts, ordered by the display name of their provider.
    pub oauth_accounts: Vec<OAuthAccountResponse>,
    pub created_at: NaiveDateTime,
    pub updated_at: NaiveDateTime,
}

impl UserProfileResponse {
    /// The profile of `user`, its linked accounts ordered by the display
    /// name of their provider.
    pub fn from(user: User) -> (r: UserProfileResponse)
        ensures
            r.id == user.id,
            r.identifier == spec_identifier(user),
            r.oauth_accounts@ == by_display_name(profile_accounts(user)),
            r.created_at == user.created_at,
            r.updated_at == user.updated_at,
    {
        let ghost infos = user.oauth_accounts@;
        let mut source = user.oauth_accounts;
        let mut accounts: Vec<OAuthAccountResponse> = Vec::new();
        while source.len() > 0
            invariant
                source.len() <= infos.len(),
                source@ == infos.skip(infos.len() - source.len()),
                accounts@ == infos.take(infos.len() - source.len()).map_values(
                    |i: OAuth2UserInfo| account_of(i),
                ),
            decreases source.len(),
        {
            let ghost k = infos.len() - source.len();
            let info = source.remove(0);
            accounts.push(OAuthAccountResponse::from(info));
            proof {
                assert(source@ =~= infos.skip(k + 1));
                assert(accounts@ =~= infos.take(k + 1).map_values(
                    |i: OAuth2UserInfo| account_of(i),
                ));
            }
        }
        assert(infos.take(infos.len() as int) =~= infos);
        UserProfileResponse {
            id: user.id,
            identifier: take_identifier(user.credentials),
            oauth_accounts: sort_by_display_name(accounts),
            created_at: user.created_at,
            updated_at: user.updated_at,
        }
    }
}

} // verus!
