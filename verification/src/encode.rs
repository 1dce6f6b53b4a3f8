//! From a record to the JSON value that describes it.

use vstd::prelude::*;
use vstd::string::*;
use crate::decode::{
    all_authorities, authorities_of, authority_of_json, texts_of, token_of_json,
    validated_token_of_json,
};
use crate::json::{
    array_value, items_of, json_of, names, object_value, signed_value, text_value, unsigned_value,
    Json, JsonNumber,
};
use crate::token::{
    Authority, AuthorityView, OAuthToken, OAuthTokenView, ValidatedToken, ValidatedTokenView,
};

verus! {

/// The document that describes an access token: an object with the three
/// fields as members.
pub open spec fn json_of_token(token: OAuthTokenView) -> Json {
    Json::Object(
        map![
            "access_token"@ => Json::Text(token.access_token),
            "token_type"@ => Json::Text(token.token_type),
            "expires_in"@ => Json::Number(JsonNumber::Integer(token.expires_in as int)),
        ],
    )
}

/// The document that describes an authority: an object with the name as
/// its one member.
pub open spec fn json_of_authority(authority: AuthorityView) -> Json {
    Json::Object(map!["authority"@ => Json::Text(authority.authority)])
}

/// The document that describes an introspection report: an object with
/// the four fields as members, the scopes as an array of strings and the
/// authorities as an array of objects.
pub open spec fn json_of_validated_token(token: ValidatedTokenView) -> Json {
    Json::Object(
        map![
            "scope"@ => Json::Array(token.scope.map_values(|s: Seq<char>| Json::Text(s))),
            "exp"@ => Json::Number(JsonNumber::Integer(token.exp)),
            "authorities"@ => Json::Array(
                token.authorities.map_values(|a: AuthorityView| json_of_authority(a)),
            ),
            "client_id"@ => Json::Text(token.client_id),
        ],
    )
}

impl OAuthToken {
    /// Returns the JSON value that describes the token. Reading the value
    /// gives the token back.
    pub fn to_json(&self) -> (value: serde_json::Value)
        ensures
            json_of(value) == json_of_token(self@),
            token_of_json(json_of(value)) == Some(self@),
    {
        let mut members: Vec<(String, serde_json::Value)> = Vec::new();
        members.push((String::from_str("access_token"), text_value(self.access_token.as_str())));
        members.push((String::from_str("token_type"), text_value(self.token_type.as_str())));
        members.push((String::from_str("expires_in"), unsigned_value(self.expires_in as u64)));
        let ghost listed = members@;
        proof {
            lemma_token_names_differ();
        }
        let value = object_value(members);
        proof {
            let object = json_of(value)->Object_0;
            let expected = json_of_token(self@)->Object_0;
            lemma_token_round_trip(self@);
            assert(names(listed, listed[0].0@));
            assert(names(listed, listed[1].0@));
            assert(names(listed, listed[2].0@));
            assert forall|name: Seq<char>| object.contains_key(name) implies expected.contains_key(
                name,
            ) by {
                assert(names(listed, name));
            }
            assert(object =~= expected);
        }
        value
    }
}

impl Authority {
    /// Returns the JSON value that describes the authority. Reading the
    /// value gives the authority back.
    pub fn to_json(&self) -> (value: serde_json::Value)
        ensures
            json_of(value) == json_of_authority(self@),
            authority_of_json(json_of(value)) == Some(self@),
    {
        let mut members: Vec<(String, serde_json::Value)> = Vec::new();
        members.push((String::from_str("authority"), text_value(self.authority.as_str())));
        let ghost listed = members@;
        let value = object_value(members);
        proof {
            let object = json_of(value)->Object_0;
            let expected = json_of_authority(self@)->Object_0;
            assert(names(listed, listed[0].0@));
            assert forall|name: Seq<char>| object.contains_key(name) implies expected.contains_key(
                name,
            ) by {
                assert(names(listed, name));
            }
            assert(object =~= expected);
        }
        value
    }
}

impl ValidatedToken {
    /// Returns the JSON value that describes the report. Reading the value
    /// gives the report back.
    pub fn to_json(&self) -> (value: serde_json::Value)
        ensures
            json_of(value) == json_of_validated_token(self@),
            validated_token_of_json(json_of(value)) == Some(self@),
    {
        let ghost scope_documents = self@.scope.map_values(|s: Seq<char>| Json::Text(s));
        let mut scope: Vec<serde_json::Value> = Vec::new();
        let mut i: usize = 0;
        while i < self.scope.len()
            invariant
                i <= self.scope.len(),
                scope_documents == self@.scope.map_values(|s: Seq<char>| Json::Text(s)),
                items_of(scope@) == scope_documents.subrange(0, i as int),
            decreases self.scope.len() - i,
        {
            let ghost before = items_of(scope@);
            let item = text_value(self.scope[i].as_str());
            let ghost document = json_of(item);
            scope.push(item);
            assert(items_of(scope@) =~= before.push(document));
            i = i + 1;
        }
        assert(items_of(scope@) =~= scope_documents);
        let ghost authority_documents = self@.authorities.map_values(
            |a: AuthorityView| json_of_authority(a),
        );
        let mut authorities: Vec<serde_json::Value> = Vec::new();
        let mut j: usize = 0;
        while j < self.authorities.len()
            invariant
                j <= self.authorities.len(),
                authority_documents == self@.authorities.map_values(
                    |a: AuthorityView| json_of_authority(a),
                ),
                items_of(authorities@) == authority_documents.subrange(0, j as int),
            decreases self.authorities.len() - j,
        {
            let ghost before = items_of(authorities@);
            let item = self.authorities[j].to_json();
            let ghost document = json_of(item);
            authorities.push(item);
            assert(items_of(authorities@) =~= before.push(document));
            j = j + 1;
        }
        assert(items_of(authorities@) =~= authority_documents);
        let mut members: Vec<(String, serde_json::Value)> = Vec::new();
        members.push((String::from_str("scope"), array_value(scope)));
        members.push((String::from_str("exp"), signed_value(self.exp)));
        members.push((String::from_str("authorities"), array_value(authorities)));
        members.push((String::from_str("client_id"), text_value(self.client_id.as_str())));
        let ghost listed = members@;
        proof {
            lemma_report_names_differ();
        }
        let value = object_value(members);
        proof {
            let object = json_of(value)->Object_0;
            let expected = json_of_validated_token(self@)->Object_0;
            lemma_validated_token_round_trip(self@);
            assert(names(listed, listed[0].0@));
            assert(names(listed, listed[1].0@));
            assert(names(listed, listed[2].0@));
            assert(names(listed, listed[3].0@));
            assert forall|name: Seq<char>| object.contains_key(name) implies expected.contains_key(
                name,
            ) by {
                assert(names(listed, name));
            }
            assert(object =~= expected);
        }
        value
    }
}

/// The names of the fields of an access token differ from each other.
proof fn lemma_token_names_differ()
    ensures
        "access_token"@ != "token_type"@,
        "access_token"@ != "expires_in"@,
        "token_type"@ != "expires_in"@,
{
    reveal_strlit("access_token");
    reveal_strlit("token_type");
    reveal_strlit("expires_in");
    assert("token_type"@[0] != "expires_in"@[0]);
}

/// The names of the fields of an introspection report differ from each
/// other.
proof fn lemma_report_names_differ()
    ensures
        "scope"@ != "exp"@,
        "scope"@ != "authorities"@,
        "scope"@ != "client_id"@,
        "exp"@ != "authorities"@,
        "exp"@ != "client_id"@,
        "authorities"@ != "client_id"@,
{
    reveal_strlit("scope");
    reveal_strlit("exp");
    reveal_strlit("authorities");
    reveal_strlit("client_id");
    assert("scope"@.len() == 5 && "exp"@.len() == 3 && "authorities"@.len() == 11
        && "client_id"@.len() == 9);
}

/// Reading the document that describes an access token gives the token
/// back.
pub proof fn lemma_token_round_trip(token: OAuthTokenView)
    requires
        token.expires_in <= usize::MAX,
    ensures
        token_of_json(json_of_token(token)) == Some(token),
{
    lemma_token_names_differ();
}

/// Reading the document that describes an authority gives the authority
/// back.
pub proof fn lemma_authority_round_trip(authority: AuthorityView)
    ensures
        authority_of_json(json_of_authority(authority)) == Some(authority),
{
}

/// Reading the document that describes an introspection report gives the
/// report back.
pub proof fn lemma_validated_token_round_trip(token: ValidatedTokenView)
    requires
        i64::MIN <= token.exp <= i64::MAX,
    ensures
        validated_token_of_json(json_of_validated_token(token)) == Some(token),
{
    lemma_report_names_differ();
    let scope = token.scope.map_values(|s: Seq<char>| Json::Text(s));
    let authorities = token.authorities.map_values(|a: AuthorityView| json_of_authority(a));
    assert(texts_of(scope) =~= token.scope);
    assert(all_authorities(authorities));
    assert(authorities_of(authorities) =~= token.authorities);
}

} // verus!
