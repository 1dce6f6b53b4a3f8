//! From the body of a response to the record that it carries.
//!
//! A body is decoded whatever the status of the response was: an answer
//! that reports an error does not have the record's shape and is refused
//! for that. So is a body that writes a field of the record twice.

use vstd::prelude::*;
use vstd::string::*;
use crate::json::{
    as_items, as_signed, as_text, as_unsigned, element_views, items_of, json_document,
    json_elements, json_members, json_of, member, member_views, parse_document, written_elements,
    written_members, Json, JsonNumber,
};
use crate::token::{
    Authority, AuthorityView, OAuthToken, OAuthTokenView, ValidatedToken, ValidatedTokenView,
};

verus! {

/// Why a body was refused.
#[derive(Debug, Clone, Copy, PartialEq, Eq)]
pub enum DecodeError {
    /// The body is not a JSON document.
    InvalidJson,
    /// The document is not an object with the record's fields, each of the
    /// type that the record asks for and written once.
    UnexpectedShape,
}

/// The member `name` of a document: present where the document is an
/// object that has a member of that name.
pub open spec fn member_of(document: Json, name: Seq<char>) -> Option<Json> {
    match document {
        Json::Object(members) => if members.contains_key(name) {
            Some(members[name])
        } else {
            None
        },
        _ => None,
    }
}

/// The text of the member `name`, where that member is a string.
pub open spec fn text_member(document: Json, name: Seq<char>) -> Option<Seq<char>> {
    match member_of(document, name) {
        Some(Json::Text(text)) => Some(text),
        _ => None,
    }
}

/// The number of the member `name`, where that member is an integer.
pub open spec fn integer_member(document: Json, name: Seq<char>) -> Option<int> {
    match member_of(document, name) {
        Some(Json::Number(JsonNumber::Integer(n))) => Some(n),
        _ => None,
    }
}

/// The items of the member `name`, where that member is an array.
pub open spec fn array_member(document: Json, name: Seq<char>) -> Option<Seq<Json>> {
    match member_of(document, name) {
        Some(Json::Array(items)) => Some(items),
        _ => None,
    }
}

/// The access token that a document describes: the document is an object
/// in which `access_token` and `token_type` are strings and `expires_in`
/// is an integer that a `usize` holds. Other members are ignored.
pub open spec fn token_of_json(document: Json) -> Option<OAuthTokenView> {
    match (
        text_member(document, "access_token"@),
        text_member(document, "token_type"@),
        integer_member(document, "expires_in"@),
    ) {
        (Some(access_token), Some(token_type), Some(expires_in)) => if 0 <= expires_in
            <= usize::MAX {
            Some(OAuthTokenView { access_token, token_type, expires_in: expires_in as nat })
        } else {
            None
        },
        _ => None,
    }
}

/// How often a name is written among the members of an object.
pub open spec fn times_written(members: Seq<(Seq<char>, Seq<u8>)>, name: Seq<char>) -> nat
    decreases members.len(),
{
    if members.len() == 0 {
        0
    } else {
        times_written(members.drop_last(), name) + if members.last().0 == name {
            1nat
        } else {
            0nat
        }
    }
}

/// The JSON text of the value of the first member of that name.
pub open spec fn written_value(members: Seq<(Seq<char>, Seq<u8>)>, name: Seq<char>) -> Option<
    Seq<u8>,
>
    decreases members.len(),
{
    if members.len() == 0 {
        None
    } else if members[0].0 == name {
        Some(members[0].1)
    } else {
        written_value(members.drop_first(), name)
    }
}

/// The body is an object that writes no field of an access token twice.
pub open spec fn token_written_once(body: Seq<u8>) -> bool {
    &&& json_members(body) matches Some(members)
    &&& times_written(members, "access_token"@) <= 1
    &&& times_written(members, "token_type"@) <= 1
    &&& times_written(members, "expires_in"@) <= 1
}

/// The text is an object that does not write the name of an authority
/// twice.
pub open spec fn authority_written_once(text: Seq<u8>) -> bool {
    &&& json_members(text) matches Some(members)
    &&& times_written(members, "authority"@) <= 1
}

/// The body is an object that writes no field of an introspection report
/// twice, and no authority in it writes its name twice.
pub open spec fn validated_token_written_once(body: Seq<u8>) -> bool {
    &&& json_members(body) matches Some(members)
    &&& times_written(members, "scope"@) <= 1
    &&& times_written(members, "exp"@) <= 1
    &&& times_written(members, "authorities"@) <= 1
    &&& times_written(members, "client_id"@) <= 1
    &&& written_value(members, "authorities"@) matches Some(list)
    &&& json_elements(list) matches Some(elements)
    &&& forall|i: int| 0 <= i < elements.len() ==> authority_written_once(#[trigger] elements[i])
}

/// What decoding gives for the body of a token response.
pub open spec fn decoded_token(body: Seq<u8>) -> Result<OAuthTokenView, DecodeError> {
    match json_document(body) {
        None => Err(DecodeError::InvalidJson),
        Some(document) => match token_of_json(document) {
            Some(token) => if token_written_once(body) {
                Ok(token)
            } else {
                Err(DecodeError::UnexpectedShape)
            },
            None => Err(DecodeError::UnexpectedShape),
        },
    }
}

/// Tells whether a name is written at most once among the members of an
/// object.
pub fn written_at_most_once(members: &Vec<(String, Vec<u8>)>, name: &str) -> (once: bool)
    ensures
        once == (times_written(member_views(members@), name@) <= 1),
{
    let ghost views = member_views(members@);
    let wanted = String::from_str(name);
    let mut count: usize = 0;
    let mut i: usize = 0;
    while i < members.len()
        invariant
            i <= members.len(),
            views == member_views(members@),
            wanted@ == name@,
            count == times_written(views.subrange(0, i as int), name@),
            count <= i,
        decreases members.len() - i,
    {
        assert(views.subrange(0, i + 1).drop_last() =~= views.subrange(0, i as int));
        if members[i].0 == wanted {
            count = count + 1;
        }
        i = i + 1;
    }
    assert(views.subrange(0, i as int) =~= views);
    count <= 1
}

/// Finds the JSON text of the value of the first member of that name.
pub fn first_written<'a>(members: &'a Vec<(String, Vec<u8>)>, name: &str) -> (found: Option<
    &'a Vec<u8>,
>)
    ensures
        match found {
            Some(text) => written_value(member_views(members@), name@) == Some(text@),
            None => written_value(member_views(members@), name@) is None,
        },
{
    let ghost views = member_views(members@);
    let wanted = String::from_str(name);
    let mut i: usize = 0;
    assert(views.skip(0) =~= views);
    while i < members.len()
        invariant
            i <= members.len(),
            views == member_views(members@),
            wanted@ == name@,
            written_value(views, name@) == written_value(views.skip(i as int), name@),
        decreases members.len() - i,
    {
        if members[i].0 == wanted {
            return Some(&members[i].1);
        }
        assert(views.skip(i as int).drop_first() =~= views.skip(i + 1));
        i = i + 1;
    }
    None
}

/// Tells whether a body writes no field of an access token twice.
fn token_is_written_once(body: &[u8]) -> (once: bool)
    ensures
        once == token_written_once(body@),
{
    match written_members(body) {
        Ok(members) => written_at_most_once(&members, "access_token") && written_at_most_once(
            &members,
            "token_type",
        ) && written_at_most_once(&members, "expires_in"),
        Err(_) => false,
    }
}

impl OAuthToken {
    /// Reads the access token that a JSON value describes, if it describes
    /// one.
    pub fn from_json(document: &serde_json::Value) -> (r: Option<OAuthToken>)
        ensures
            match r {
                Some(token) => token_of_json(json_of(*document)) == Some(token@),
                None => token_of_json(json_of(*document)) is None,
            },
    {
        let access_token = match member(document, "access_token") {
            Some(value) => match as_text(value) {
                Some(text) => String::from_str(text),
                None => return None,
            },
            None => return None,
        };
        let token_type = match member(document, "token_type") {
            Some(value) => match as_text(value) {
                Some(text) => String::from_str(text),
                None => return None,
            },
            None => return None,
        };
        let seconds = match member(document, "expires_in") {
            Some(value) => match as_unsigned(value) {
                Some(n) => n,
                None => return None,
            },
            None => return None,
        };
        if seconds > usize::MAX as u64 {
            return None;
        }
        Some(OAuthToken { access_token, token_type, expires_in: seconds as usize })
    }

    /// Decodes the body of a token response.
    ///
    /// The body is refused with [`DecodeError::InvalidJson`] where it is
    /// not JSON, and with [`DecodeError::UnexpectedShape`] where it is JSON
    /// of another shape: no record is ever made up.
    pub fn decode(body: &[u8]) -> (r: Result<OAuthToken, DecodeError>)
        ensures
            match r {
                Ok(token) => decoded_token(body@) == Ok::<OAuthTokenView, DecodeError>(token@),
                Err(e) => decoded_token(body@) == Err::<OAuthTokenView, DecodeError>(e),
            },
    {
        match parse_document(body) {
            Ok(document) => match OAuthToken::from_json(&document) {
                Some(token) => if token_is_written_once(body) {
                    Ok(token)
                } else {
                    Err(DecodeError::UnexpectedShape)
                },
                None => Err(DecodeError::UnexpectedShape),
            },
            Err(_) => Err(DecodeError::InvalidJson),
        }
    }
}

/// Every item of an array is a string.
pub open spec fn all_texts(items: Seq<Json>) -> bool {
    forall|i: int| 0 <= i < items.len() ==> (#[trigger] items[i]) is Text
}

/// The texts of an array of strings, in the array's order.
pub open spec fn texts_of(items: Seq<Json>) -> Seq<Seq<char>> {
    items.map_values(|item: Json| item->Text_0)
}

/// The authority that a document describes: the document is an object in
/// which `authority` is a string.
pub open spec fn authority_of_json(document: Json) -> Option<AuthorityView> {
    match text_member(document, "authority"@) {
        Some(authority) => Some(AuthorityView { authority }),
        None => None,
    }
}

/// Every item of an array describes an authority.
pub open spec fn all_authorities(items: Seq<Json>) -> bool {
    forall|i: int| 0 <= i < items.len() ==> authority_of_json(#[trigger] items[i]) is Some
}

/// The authorities that the items of an array describe, in the array's
/// order.
pub open spec fn authorities_of(items: Seq<Json>) -> Seq<AuthorityView> {
    items.map_values(|item: Json| authority_of_json(item)->Some_0)
}

/// The introspection report that a document describes: the document is an
/// object in which `scope` is an array of strings, `exp` is an integer
/// that an `i64` holds, `authorities` is an array of authorities and
/// `client_id` is a string. Other members are ignored.
pub open spec fn validated_token_of_json(document: Json) -> Option<ValidatedTokenView> {
    match (
        array_member(document, "scope"@),
        integer_member(document, "exp"@),
        array_member(document, "authorities"@),
        text_member(document, "client_id"@),
    ) {
        (Some(scope), Some(exp), Some(authorities), Some(client_id)) => if all_texts(scope)
            && i64::MIN <= exp <= i64::MAX && all_authorities(authorities) {
            Some(
                ValidatedTokenView {
                    scope: texts_of(scope),
                    exp,
                    authorities: authorities_of(authorities),
                    client_id,
                },
            )
        } else {
            None
        },
        _ => None,
    }
}

/// What decoding gives for the body of an introspection response.
pub open spec fn decoded_validated_token(body: Seq<u8>) -> Result<
    ValidatedTokenView,
    DecodeError,
> {
    match json_document(body) {
        None => Err(DecodeError::InvalidJson),
        Some(document) => match validated_token_of_json(document) {
            Some(token) => if validated_token_written_once(body) {
                Ok(token)
            } else {
                Err(DecodeError::UnexpectedShape)
            },
            None => Err(DecodeError::UnexpectedShape),
        },
    }
}

/// Tells whether a text is an object that does not write the name of an
/// authority twice.
fn authority_is_written_once(text: &[u8]) -> (once: bool)
    ensures
        once == authority_written_once(text@),
{
    match written_members(text) {
        Ok(members) => written_at_most_once(&members, "authority"),
        Err(_) => false,
    }
}

/// Tells whether a body writes no field of an introspection report twice,
/// and no authority in it writes its name twice.
fn validated_token_is_written_once(body: &[u8]) -> (once: bool)
    ensures
        once == validated_token_written_once(body@),
{
    let members = match written_members(body) {
        Ok(members) => members,
        Err(_) => return false,
    };
    if !(written_at_most_once(&members, "scope") && written_at_most_once(&members, "exp")
        && written_at_most_once(&members, "authorities") && written_at_most_once(
        &members,
        "client_id",
    )) {
        return false;
    }
    let list = match first_written(&members, "authorities") {
        Some(list) => list,
        None => return false,
    };
    let elements = match written_elements(list.as_slice()) {
        Ok(elements) => elements,
        Err(_) => return false,
    };
    let once = authorities_are_written_once(&elements);
    proof {
        let texts = element_views(elements@);
        if !once {
            let k = choose|k: int|
                0 <= k < texts.len() && !authority_written_once(#[trigger] texts[k]);
            assert(json_elements(list@)->Some_0[k] == texts[k]);
        }
    }
    once
}

/// Tells whether none of the authorities in a list writes its name twice.
fn authorities_are_written_once(elements: &Vec<Vec<u8>>) -> (once: bool)
    ensures
        once == (forall|i: int|
            0 <= i < elements.len() ==> authority_written_once(
                #[trigger] element_views(elements@)[i],
            )),
{
    let ghost texts = element_views(elements@);
    let mut i: usize = 0;
    while i < elements.len()
        invariant
            i <= elements.len(),
            texts == element_views(elements@),
            forall|k: int| 0 <= k < i ==> authority_written_once(#[trigger] texts[k]),
        decreases elements.len() - i,
    {
        if !authority_is_written_once(elements[i].as_slice()) {
            assert(!authority_written_once(texts[i as int]));
            return false;
        }
        i = i + 1;
    }
    true
}

/// Reads the texts of an array of strings, if every item is a string.
fn texts_from_json(items: &Vec<serde_json::Value>) -> (r: Option<Vec<String>>)
    ensures
        match r {
            Some(texts) => all_texts(items_of(items@)) && texts@.map_values(|s: String| s@)
                == texts_of(items_of(items@)),
            None => !all_texts(items_of(items@)),
        },
{
    let ghost documents = items_of(items@);
    let mut texts: Vec<String> = Vec::new();
    let mut i: usize = 0;
    while i < items.len()
        invariant
            i <= items.len(),
            documents == items_of(items@),
            forall|k: int| 0 <= k < i ==> (#[trigger] documents[k]) is Text,
            texts@.map_values(|s: String| s@) == texts_of(documents.subrange(0, i as int)),
        decreases items.len() - i,
    {
        let ghost before = texts@.map_values(|s: String| s@);
        match as_text(&items[i]) {
            Some(text) => {
                texts.push(String::from_str(text));
                assert(texts@.map_values(|s: String| s@) =~= before.push(text@));
            },
            None => {
                assert(!(documents[i as int] is Text));
                return None;
            },
        }
        i = i + 1;
    }
    Some(texts)
}

impl Authority {
    /// Reads the authority that a JSON value describes, if it describes
    /// one.
    pub fn from_json(document: &serde_json::Value) -> (r: Option<Authority>)
        ensures
            match r {
                Some(authority) => authority_of_json(json_of(*document)) == Some(authority@),
                None => authority_of_json(json_of(*document)) is None,
            },
    {
        match member(document, "authority") {
            Some(value) => match as_text(value) {
                Some(text) => Some(Authority { authority: String::from_str(text) }),
                None => None,
            },
            None => None,
        }
    }
}

/// Reads the authorities of an array, if every item describes one.
fn authorities_from_json(items: &Vec<serde_json::Value>) -> (r: Option<Vec<Authority>>)
    ensures
        match r {
            Some(authorities) => all_authorities(items_of(items@)) && authorities@.map_values(
                |a: Authority| a@,
            ) == authorities_of(items_of(items@)),
            None => !all_authorities(items_of(items@)),
        },
{
    let ghost documents = items_of(items@);
    let mut authorities: Vec<Authority> = Vec::new();
    let mut i: usize = 0;
    while i < items.len()
        invariant
            i <= items.len(),
            documents == items_of(items@),
            forall|k: int| 0 <= k < i ==> authority_of_json(#[trigger] documents[k]) is Some,
            authorities@.map_values(|a: Authority| a@) == authorities_of(
                documents.subrange(0, i as int),
            ),
        decreases items.len() - i,
    {
        let ghost before = authorities@.map_values(|a: Authority| a@);
        match Authority::from_json(&items[i]) {
            Some(authority) => {
                let ghost view = authority@;
                authorities.push(authority);
                assert(authorities@.map_values(|a: Authority| a@) =~= before.push(view));
            },
            None => {
                assert(authority_of_json(documents[i as int]) is None);
                return None;
            },
        }
        i = i + 1;
    }
    Some(authorities)
}

impl ValidatedToken {
    /// Reads the introspection report that a JSON value describes, if it
    /// describes one.
    pub fn from_json(document: &serde_json::Value) -> (r: Option<ValidatedToken>)
        ensures
            match r {
                Some(token) => validated_token_of_json(json_of(*document)) == Some(token@),
                None => validated_token_of_json(json_of(*document)) is None,
            },
    {
        let scope = match member(document, "scope") {
            Some(value) => match as_items(value) {
                Some(items) => match texts_from_json(items) {
                    Some(scope) => scope,
                    None => return None,
                },
                None => return None,
            },
            None => return None,
        };
        let exp = match member(document, "exp") {
            Some(value) => match as_signed(value) {
                Some(n) => n,
                None => return None,
            },
            None => return None,
        };
        let authorities = match member(document, "authorities") {
            Some(value) => match as_items(value) {
                Some(items) => match authorities_from_json(items) {
                    Some(authorities) => authorities,
                    None => return None,
                },
                None => return None,
            },
            None => return None,
        };
        let client_id = match member(document, "client_id") {
            Some(value) => match as_text(value) {
                Some(text) => String::from_str(text),
                None => return None,
            },
            None => return None,
        };
        Some(ValidatedToken { scope, exp, authorities, client_id })
    }

    /// Decodes the body of an introspection response.
    ///
    /// The body is refused with [`DecodeError::InvalidJson`] where it is
    /// not JSON, and with [`DecodeError::UnexpectedShape`] where it is JSON
    /// of another shape: no record is ever made up.
    pub fn decode(body: &[u8]) -> (r: Result<ValidatedToken, DecodeError>)
        ensures
            match r {
                Ok(token) => decoded_validated_token(body@) == Ok::<
                    ValidatedTokenView,
                    DecodeError,
                >(token@),
                Err(e) => decoded_validated_token(body@) == Err::<ValidatedTokenView, DecodeError>(
                    e,
                ),
            },
    {
        match parse_document(body) {
            Ok(document) => match ValidatedToken::from_json(&document) {
                Some(token) => if validated_token_is_written_once(body) {
                    Ok(token)
                } else {
                    Err(DecodeError::UnexpectedShape)
                },
                None => Err(DecodeError::UnexpectedShape),
            },
            Err(_) => Err(DecodeError::InvalidJson),
        }
    }
}

/// A body is decoded to a record only where it is a JSON document that
/// describes a record and writes none of its fields twice, and then to
/// the record described: an answer of another shape is refused, whatever
/// else it holds.
pub proof fn lemma_only_described_records_are_decoded(body: Seq<u8>)
    ensures
        decoded_token(body) matches Ok(token) ==> json_document(body) matches Some(document)
            && token_of_json(document) == Some(token) && token_written_once(body),
        decoded_validated_token(body) matches Ok(token) ==> json_document(body) matches Some(
            document,
        ) && validated_token_of_json(document) == Some(token) && validated_token_written_once(
            body,
        ),
        decoded_token(body) is Err <==> json_document(body) is None || token_of_json(
            json_document(body)->Some_0,
        ) is None || !token_written_once(body),
        decoded_validated_token(body) is Err <==> json_document(body) is None
            || validated_token_of_json(json_document(body)->Some_0) is None
            || !validated_token_written_once(body),
{
}

/// A document describes an access token only where each of the three
/// fields is a member of the right type.
pub proof fn lemma_token_needs_every_field(document: Json)
    requires
        token_of_json(document) is Some,
    ensures
        document is Object,
        member_of(document, "access_token"@) matches Some(value) && value is Text,
        member_of(document, "token_type"@) matches Some(value) && value is Text,
        member_of(document, "expires_in"@) matches Some(value) && value is Number,
{
}

/// A document describes an introspection report only where each of the
/// four fields is a member of the right type.
pub proof fn lemma_validated_token_needs_every_field(document: Json)
    requires
        validated_token_of_json(document) is Some,
    ensures
        document is Object,
        member_of(document, "scope"@) matches Some(value) && value is Array,
        member_of(document, "exp"@) matches Some(value) && value is Number,
        member_of(document, "authorities"@) matches Some(value) && value is Array,
        member_of(document, "client_id"@) matches Some(value) && value is Text,
{
}

} // verus!
