//! The records that the provider answers with, and their text form.

use vstd::prelude::*;
use vstd::string::*;
use crate::text::{
    decimal, field_line, lemma_line_shows_field, lemma_list_shows_items, lemma_occurs_between,
    lemma_occurs_transitive, lemma_quoted_shows_text, list_text, occurs_in, push_decimal,
    push_line, push_list, push_signed_decimal, quote, quoted, signed_decimal,
};

verus! {

/// An access token, as the token endpoint grants it.
#[derive(Debug, Clone, PartialEq)]
pub struct OAuthToken {
    /// The bearer token itself.
    pub access_token: String,
    /// The kind of token, `bearer` for this provider.
    pub token_type: String,
    /// The number of seconds for which the token stays valid.
    pub expires_in: usize,
}

/// A role or permission that the provider attached to a token.
#[derive(Debug, Clone, PartialEq)]
pub struct Authority {
    pub authority: String,
}

/// What the introspection endpoint reports of an access token.
#[derive(Debug, Clone, PartialEq)]
pub struct ValidatedToken {
    /// The scopes of the token, in the provider's order.
    pub scope: Vec<String>,
    /// The moment the token expires, in seconds since the Unix epoch.
    pub exp: i64,
    /// The authorities granted with the token.
    pub authorities: Vec<Authority>,
    /// The client that the token was issued to.
    pub client_id: String,
}

/// What an [`OAuthToken`] holds.
pub struct OAuthTokenView {
    pub access_token: Seq<char>,
    pub token_type: Seq<char>,
    pub expires_in: nat,
}

/// What an [`Authority`] holds.
pub struct AuthorityView {
    pub authority: Seq<char>,
}

/// What a [`ValidatedToken`] holds.
pub struct ValidatedTokenView {
    pub scope: Seq<Seq<char>>,
    pub exp: int,
    pub authorities: Seq<AuthorityView>,
    pub client_id: Seq<char>,
}

impl View for OAuthToken {
    type V = OAuthTokenView;

    open spec fn view(&self) -> OAuthTokenView {
        OAuthTokenView {
            access_token: self.access_token@,
            token_type: self.token_type@,
            expires_in: self.expires_in as nat,
        }
    }
}

impl View for Authority {
    type V = AuthorityView;

    open spec fn view(&self) -> AuthorityView {
        AuthorityView { authority: self.authority@ }
    }
}

impl View for ValidatedToken {
    type V = ValidatedTokenView;

    open spec fn view(&self) -> ValidatedTokenView {
        ValidatedTokenView {
            scope: self.scope@.map_values(|s: String| s@),
            exp: self.exp as int,
            authorities: self.authorities@.map_values(|a: Authority| a@),
            client_id: self.client_id@,
        }
    }
}

impl Default for OAuthToken {
    /// The token with empty texts and no time left.
    fn default() -> (token: OAuthToken)
        ensures
            token@ == (OAuthTokenView {
                access_token: Seq::empty(),
                token_type: Seq::empty(),
                expires_in: 0,
            }),
    {
        OAuthToken { access_token: String::new(), token_type: String::new(), expires_in: 0 }
    }
}

impl Default for Authority {
    /// The authority with an empty name.
    fn default() -> (authority: Authority)
        ensures
            authority@ == (AuthorityView { authority: Seq::empty() }),
    {
        Authority { authority: String::new() }
    }
}

impl Default for ValidatedToken {
    /// The report without scopes or authorities, with empty client and
    /// expiry at the epoch.
    fn default() -> (token: ValidatedToken)
        ensures
            token@ == (ValidatedTokenView {
                scope: Seq::empty(),
                exp: 0,
                authorities: Seq::empty(),
                client_id: Seq::empty(),
            }),
    {
        let token = ValidatedToken {
            scope: Vec::new(),
            exp: 0,
            authorities: Vec::new(),
            client_id: String::new(),
        };
        assert(token@.scope =~= Seq::empty());
        assert(token@.authorities =~= Seq::empty());
        token
    }
}

/// An authority as text.
pub open spec fn authority_text(authority: AuthorityView) -> Seq<char> {
    "Authority { authority: "@ + quoted(authority.authority) + " }"@
}

/// The text of an access token: one line for each field, each line after
/// the first behind a space.
pub open spec fn token_text(token: OAuthTokenView) -> Seq<char> {
    field_line("access_token"@, token.access_token) + " "@ + field_line(
        "token_type"@,
        token.token_type,
    ) + " "@ + field_line("expires_in"@, decimal(token.expires_in))
}

/// The scopes of a report as text: a list of the scopes, each as it is
/// between double quotes.
pub open spec fn scope_text(scope: Seq<Seq<char>>) -> Seq<char> {
    list_text(scope.map_values(|s: Seq<char>| quoted(s)))
}

/// The authorities of a report as text: a list of the authorities.
pub open spec fn authorities_text(authorities: Seq<AuthorityView>) -> Seq<char> {
    list_text(authorities.map_values(|a: AuthorityView| authority_text(a)))
}

/// The text of an introspection report: one line for each field, each line
/// after the first behind a space.
pub open spec fn validated_token_text(token: ValidatedTokenView) -> Seq<char> {
    field_line("scope"@, scope_text(token.scope)) + " "@ + field_line(
        "exp"@,
        signed_decimal(token.exp),
    ) + " "@ + field_line("authorities"@, authorities_text(token.authorities)) + " "@ + field_line(
        "client_id"@,
        token.client_id,
    )
}

impl OAuthToken {
    /// Returns the text of the token, for logs and diagnostics.
    pub fn to_string(&self) -> (text: String)
        ensures
            text@ == token_text(self@),
    {
        let mut seconds = String::new();
        push_decimal(&mut seconds, self.expires_in as u64);
        let mut out = String::new();
        push_line(&mut out, "access_token", self.access_token.as_str());
        out.append(" ");
        push_line(&mut out, "token_type", self.token_type.as_str());
        out.append(" ");
        push_line(&mut out, "expires_in", seconds.as_str());
        out
    }
}

impl Authority {
    /// Returns the text of the authority, as it stands in a report's text.
    pub fn to_string(&self) -> (text: String)
        ensures
            text@ == authority_text(self@),
    {
        let name = quote(self.authority.as_str());
        String::from_str("Authority { authority: ").concat(name.as_str()).concat(" }")
    }
}

impl ValidatedToken {
    /// Returns the text of the report, for logs and diagnostics.
    pub fn to_string(&self) -> (text: String)
        ensures
            text@ == validated_token_text(self@),
    {
        let mut scopes: Vec<String> = Vec::new();
        let mut i: usize = 0;
        while i < self.scope.len()
            invariant
                i <= self.scope.len(),
                scopes@.map_values(|s: String| s@) == self@.scope.map_values(
                    |s: Seq<char>| quoted(s),
                ).subrange(0, i as int),
            decreases self.scope.len() - i,
        {
            let ghost before = scopes@.map_values(|s: String| s@);
            let item = quote(self.scope[i].as_str());
            scopes.push(item);
            assert(scopes@.map_values(|s: String| s@) =~= before.push(item@));
            i = i + 1;
        }
        assert(scopes@.map_values(|s: String| s@) =~= self@.scope.map_values(
            |s: Seq<char>| quoted(s),
        ));
        let mut authorities: Vec<String> = Vec::new();
        let mut j: usize = 0;
        while j < self.authorities.len()
            invariant
                j <= self.authorities.len(),
                authorities@.map_values(|s: String| s@) == self@.authorities.map_values(
                    |a: AuthorityView| authority_text(a),
                ).subrange(0, j as int),
            decreases self.authorities.len() - j,
        {
            let ghost before = authorities@.map_values(|s: String| s@);
            let item = self.authorities[j].to_string();
            authorities.push(item);
            assert(authorities@.map_values(|s: String| s@) =~= before.push(item@));
            j = j + 1;
        }
        assert(authorities@.map_values(|s: String| s@) =~= self@.authorities.map_values(
            |a: AuthorityView| authority_text(a),
        ));
        let mut scope_list = String::new();
        push_list(&mut scope_list, &scopes);
        let mut expiry = String::new();
        push_signed_decimal(&mut expiry, self.exp);
        let mut authority_list = String::new();
        push_list(&mut authority_list, &authorities);
        let mut out = String::new();
        push_line(&mut out, "scope", scope_list.as_str());
        out.append(" ");
        push_line(&mut out, "exp", expiry.as_str());
        out.append(" ");
        push_line(&mut out, "authorities", authority_list.as_str());
        out.append(" ");
        push_line(&mut out, "client_id", self.client_id.as_str());
        out
    }
}

/// The text of an access token shows the name and the value of every
/// field: the two texts as they are, the number of seconds in decimal.
pub proof fn lemma_token_text_shows_fields(token: OAuthTokenView)
    ensures
        occurs_in("access_token"@, token_text(token)),
        occurs_in(token.access_token, token_text(token)),
        occurs_in("token_type"@, token_text(token)),
        occurs_in(token.token_type, token_text(token)),
        occurs_in("expires_in"@, token_text(token)),
        occurs_in(decimal(token.expires_in), token_text(token)),
{
    let text = token_text(token);
    let first = field_line("access_token"@, token.access_token);
    let second = field_line("token_type"@, token.token_type);
    let third = field_line("expires_in"@, decimal(token.expires_in));
    lemma_occurs_between(Seq::empty(), first, " "@ + second + " "@ + third);
    assert(text =~= Seq::empty() + first + (" "@ + second + " "@ + third));
    lemma_occurs_between(first + " "@, second, " "@ + third);
    assert(text =~= first + " "@ + second + (" "@ + third));
    lemma_occurs_between(first + " "@ + second + " "@, third, Seq::empty());
    lemma_line_shows_field("access_token"@, token.access_token);
    lemma_line_shows_field("token_type"@, token.token_type);
    lemma_line_shows_field("expires_in"@, decimal(token.expires_in));
    lemma_occurs_transitive("access_token"@, first, text);
    lemma_occurs_transitive(token.access_token, first, text);
    lemma_occurs_transitive("token_type"@, second, text);
    lemma_occurs_transitive(token.token_type, second, text);
    lemma_occurs_transitive("expires_in"@, third, text);
    lemma_occurs_transitive(decimal(token.expires_in), third, text);
}

/// The text of an introspection report shows the name and the value of
/// every field: the client as it is, the expiry in decimal, and of the two
/// lists each scope and each authority's name as it is.
pub proof fn lemma_validated_token_text_shows_fields(token: ValidatedTokenView)
    ensures
        occurs_in("scope"@, validated_token_text(token)),
        forall|i: int|
            0 <= i < token.scope.len() ==> occurs_in(
                #[trigger] token.scope[i],
                validated_token_text(token),
            ),
        occurs_in("exp"@, validated_token_text(token)),
        occurs_in(signed_decimal(token.exp), validated_token_text(token)),
        occurs_in("authorities"@, validated_token_text(token)),
        forall|i: int|
            0 <= i < token.authorities.len() ==> occurs_in(
                (#[trigger] token.authorities[i]).authority,
                validated_token_text(token),
            ),
        occurs_in("client_id"@, validated_token_text(token)),
        occurs_in(token.client_id, validated_token_text(token)),
{
    let text = validated_token_text(token);
    let scopes = scope_text(token.scope);
    let authorities = authorities_text(token.authorities);
    let first = field_line("scope"@, scopes);
    let second = field_line("exp"@, signed_decimal(token.exp));
    let third = field_line("authorities"@, authorities);
    let fourth = field_line("client_id"@, token.client_id);
    lemma_occurs_between(Seq::empty(), first, " "@ + second + " "@ + third + " "@ + fourth);
    assert(text =~= Seq::empty() + first + (" "@ + second + " "@ + third + " "@ + fourth));
    lemma_occurs_between(first + " "@, second, " "@ + third + " "@ + fourth);
    assert(text =~= first + " "@ + second + (" "@ + third + " "@ + fourth));
    lemma_occurs_between(first + " "@ + second + " "@, third, " "@ + fourth);
    assert(text =~= first + " "@ + second + " "@ + third + (" "@ + fourth));
    lemma_occurs_between(first + " "@ + second + " "@ + third + " "@, fourth, Seq::empty());
    lemma_line_shows_field("scope"@, scopes);
    lemma_line_shows_field("exp"@, signed_decimal(token.exp));
    lemma_line_shows_field("authorities"@, authorities);
    lemma_line_shows_field("client_id"@, token.client_id);
    lemma_occurs_transitive("scope"@, first, text);
    lemma_occurs_transitive(scopes, first, text);
    lemma_occurs_transitive("exp"@, second, text);
    lemma_occurs_transitive(signed_decimal(token.exp), second, text);
    lemma_occurs_transitive("authorities"@, third, text);
    lemma_occurs_transitive(authorities, third, text);
    lemma_occurs_transitive("client_id"@, fourth, text);
    lemma_occurs_transitive(token.client_id, fourth, text);
    assert forall|i: int| 0 <= i < token.scope.len() implies occurs_in(
        #[trigger] token.scope[i],
        text,
    ) by {
        let items = token.scope.map_values(|s: Seq<char>| quoted(s));
        lemma_quoted_shows_text(token.scope[i]);
        lemma_list_shows_items(items, i);
        lemma_occurs_transitive(token.scope[i], items[i], scopes);
        lemma_occurs_transitive(token.scope[i], scopes, text);
    }
    assert forall|i: int| 0 <= i < token.authorities.len() implies occurs_in(
        (#[trigger] token.authorities[i]).authority,
        text,
    ) by {
        let items = token.authorities.map_values(|a: AuthorityView| authority_text(a));
        let name = token.authorities[i].authority;
        lemma_quoted_shows_text(name);
        lemma_occurs_between("Authority { authority: "@, quoted(name), " }"@);
        lemma_occurs_transitive(name, quoted(name), items[i]);
        lemma_list_shows_items(items, i);
        lemma_occurs_transitive(name, items[i], authorities);
        lemma_occurs_transitive(name, authorities, text);
    }
}

} // verus!
