//! The requests of the flow, as plain data that any HTTP client can send.

use vstd::prelude::*;
use vstd::string::*;
use vstd::utf8::*;
use crate::base64::{encode, encoded, is_base64_char, lemma_encoded_characters};
use crate::region::{
    check_token_endpoint, check_token_endpoint_of, token_endpoint, token_endpoint_of,
};

verus! {

/// The largest number of bytes that a URL may have: the `url` crate counts
/// the bytes of a URL in 32 bits.
pub const MAX_URL_BYTES: u64 = 0xFFFF_FFFF;

/// An HTTP method.
#[derive(Debug, Clone, Copy, PartialEq, Eq)]
pub enum Method {
    Get,
    Post,
}

/// One header line of a request.
#[derive(Debug, Clone, PartialEq, Eq)]
pub struct Header {
    pub name: String,
    pub value: String,
}

/// A request of the flow: what to send, and where.
#[derive(Debug, Clone, PartialEq, Eq)]
pub struct HttpRequest {
    pub method: Method,
    pub url: String,
    pub headers: Vec<Header>,
    /// The body; empty where the request has none.
    pub body: String,
}

/// How the client's credentials travel in the acquisition request.
#[derive(Debug, Clone, Copy, PartialEq, Eq)]
pub enum CredentialStrategy {
    /// As the query parameters `client_id` and `client_secret`.
    QueryParameters,
    /// As an `Authorization: Basic` header, with the grant type in a
    /// form-encoded body.
    BasicAuth,
}

/// Why a request could not be built.
#[derive(Debug, Clone, Copy, PartialEq, Eq)]
pub enum RequestError {
    /// The URL, with the query parameters written at their longest, would
    /// have more than [`MAX_URL_BYTES`] bytes.
    UrlTooLong,
    /// The endpoint address of the region is not an absolute URL.
    InvalidUrl,
}

/// What a [`Header`] holds.
pub struct HeaderView {
    pub name: Seq<char>,
    pub value: Seq<char>,
}

/// What an [`HttpRequest`] holds.
pub struct HttpRequestView {
    pub method: Method,
    pub url: Seq<char>,
    pub headers: Seq<HeaderView>,
    pub body: Seq<char>,
}

impl View for Header {
    type V = HeaderView;

    open spec fn view(&self) -> HeaderView {
        HeaderView { name: self.name@, value: self.value@ }
    }
}

impl View for HttpRequest {
    type V = HttpRequestView;

    open spec fn view(&self) -> HttpRequestView {
        HttpRequestView {
            method: self.method,
            url: self.url@,
            headers: self.headers@.map_values(|h: Header| h@),
            body: self.body@,
        }
    }
}

/// `url::ParseError`, the error of the `url` crate. It is only passed on.
#[verifier::external_type_specification]
#[verifier::external_body]
pub struct ExParseError(url::ParseError);

/// The text of the URL that the `url` crate parses from `address`, if it
/// parses one.
pub uninterp spec fn parsed_url(address: Seq<char>) -> Option<Seq<char>>;

/// The text of the URL that the `url` crate parses from `address`, with
/// `parameters` appended to its query in the order given, if it parses one.
pub uninterp spec fn url_with_query(
    address: Seq<char>,
    parameters: Seq<(Seq<char>, Seq<char>)>,
) -> Option<Seq<char>>;

/// The names and values of query parameters, as plain text.
pub open spec fn parameter_views(parameters: Seq<(&str, &str)>) -> Seq<(Seq<char>, Seq<char>)> {
    parameters.map_values(|p: (&str, &str)| (p.0@, p.1@))
}

/// The largest number of bytes that adding `parameters` to the query of a
/// URL can add: one for the `?`, and for each pair three for every byte of
/// the name and of the value, since a byte is written as itself, as `+` or
/// as `%` and two digits, one for the `=` and one for the `&`.
pub open spec fn query_growth(parameters: Seq<(Seq<char>, Seq<char>)>) -> nat
    decreases parameters.len(),
{
    if parameters.len() == 0 {
        1
    } else {
        query_growth(parameters.drop_last()) + pair_growth(parameters.last())
    }
}

/// The largest number of bytes that one query parameter can add.
pub open spec fn pair_growth(parameter: (Seq<char>, Seq<char>)) -> nat {
    3 * encode_utf8(parameter.0).len() + 3 * encode_utf8(parameter.1).len() + 2
}

/// `Url::parse`: the URL's text where the address is an absolute URL, the
/// crate's error where it is not.
#[verifier::external_body]
fn parse_url(address: &str) -> (r: Result<String, url::ParseError>)
    ensures
        r matches Ok(url) ==> parsed_url(address@) == Some(url@),
        r is Err ==> parsed_url(address@) is None,
{
    url::Url::parse(address).map(String::from)
}

/// `Url::parse_with_params`: the text of the URL with the parameters added
/// to its query where the address is an absolute URL, the crate's error
/// where it is not. The address is parsed as `Url::parse` parses it, so
/// that the one succeeds where the other does. The crate panics where the
/// URL outgrows the 32 bits in which it counts: the call is made only
/// where the URL of the address and the growth of its query stay within.
#[verifier::external_body]
fn parse_url_with_query(address: &str, parameters: &Vec<(&str, &str)>) -> (r: Result<
    String,
    url::ParseError,
>)
    requires
        parsed_url(address@) matches Some(url) ==> encode_utf8(url).len() + query_growth(
            parameter_views(parameters@),
        ) <= MAX_URL_BYTES,
    ensures
        r matches Ok(url) ==> url_with_query(address@, parameter_views(parameters@)) == Some(url@),
        r is Err ==> url_with_query(address@, parameter_views(parameters@)) is None,
        r is Ok <==> parsed_url(address@) is Some,
{
    url::Url::parse_with_params(address, parameters).map(String::from)
}

impl HttpRequest {
    /// A `GET` request for `url`, without headers or body.
    pub fn get(url: String) -> (request: HttpRequest)
        ensures
            request@ == bare_request(Method::Get, url@),
    {
        let request = HttpRequest { method: Method::Get, url, headers: Vec::new(), body: String::new() };
        assert(request@.headers =~= Seq::empty());
        request
    }

    /// A `POST` request for `url`, without headers or body.
    pub fn post(url: String) -> (request: HttpRequest)
        ensures
            request@ == bare_request(Method::Post, url@),
    {
        let request = HttpRequest { method: Method::Post, url, headers: Vec::new(), body: String::new() };
        assert(request@.headers =~= Seq::empty());
        request
    }

    /// The same request with one more header after those it has.
    pub fn with_header(self, name: &str, value: String) -> (request: HttpRequest)
        ensures
            request@ == (HttpRequestView {
                headers: self@.headers.push(HeaderView { name: name@, value: value@ }),
                ..self@
            }),
    {
        let mut headers = self.headers;
        let ghost before = headers@;
        headers.push(Header { name: String::from_str(name), value });
        let request = HttpRequest { method: self.method, url: self.url, headers, body: self.body };
        assert(request@.headers =~= before.map_values(|h: Header| h@).push(
            HeaderView { name: name@, value: value@ },
        ));
        request
    }

    /// The same request with `body` as its body.
    pub fn with_body(self, body: String) -> (request: HttpRequest)
        ensures
            request@ == (HttpRequestView { body: body@, ..self@ }),
    {
        HttpRequest { method: self.method, url: self.url, headers: self.headers, body }
    }
}

/// A request without headers or body.
pub open spec fn bare_request(method: Method, url: Seq<char>) -> HttpRequestView {
    HttpRequestView { method, url, headers: Seq::empty(), body: Seq::empty() }
}

/// The text that Basic authentication encodes: identifier, colon, secret.
pub open spec fn basic_credentials(client_id: Seq<char>, client_secret: Seq<char>) -> Seq<char> {
    client_id + seq![':'] + client_secret
}

/// The value of the `Authorization` header of Basic authentication:
/// `Basic `, then the Base64 text of the UTF-8 bytes of the credentials.
pub open spec fn basic_authorization_of(client_id: Seq<char>, client_secret: Seq<char>) -> Seq<
    char,
> {
    "Basic "@ + encoded(encode_utf8(basic_credentials(client_id, client_secret)))
}

/// Returns the value of the `Authorization` header that carries the
/// credentials by Basic authentication.
pub fn basic_authorization(client_id: &str, client_secret: &str) -> (value: String)
    ensures
        value@ == basic_authorization_of(client_id@, client_secret@),
{
    let mut credentials = String::from_str(client_id);
    credentials.push(':');
    credentials.append(client_secret);
    assert(credentials@ =~= basic_credentials(client_id@, client_secret@));
    let text = encode(credentials.as_str().as_bytes());
    String::from_str("Basic ").concat(text.as_str())
}

/// The URL of an endpoint address: refused where the address is no
/// absolute URL.
pub open spec fn resolved(address: Seq<char>) -> Result<Seq<char>, RequestError> {
    match parsed_url(address) {
        Some(url) => Ok(url),
        None => Err(RequestError::InvalidUrl),
    }
}

/// The URL of an endpoint address with query parameters: refused where the
/// address is no absolute URL, and where its URL and the growth of the
/// query could together pass [`MAX_URL_BYTES`].
pub open spec fn resolved_with_query(
    address: Seq<char>,
    parameters: Seq<(Seq<char>, Seq<char>)>,
) -> Result<Seq<char>, RequestError> {
    match parsed_url(address) {
        None => Err(RequestError::InvalidUrl),
        Some(plain) => if encode_utf8(plain).len() + query_growth(parameters) <= MAX_URL_BYTES {
            Ok(url_with_query(address, parameters)->Some_0)
        } else {
            Err(RequestError::UrlTooLong)
        },
    }
}

/// Resolves an endpoint address into the text of its URL.
fn resolve(address: &str) -> (r: Result<String, RequestError>)
    ensures
        match r {
            Ok(url) => resolved(address@) == Ok::<Seq<char>, RequestError>(url@),
            Err(e) => resolved(address@) == Err::<Seq<char>, RequestError>(e),
        },
{
    match parse_url(address) {
        Ok(url) => Ok(url),
        Err(_) => Err(RequestError::InvalidUrl),
    }
}

/// The growth of a query is at least the growth of the query of its first
/// parameters.
proof fn lemma_query_growth_increases(parameters: Seq<(Seq<char>, Seq<char>)>, count: int)
    requires
        0 <= count <= parameters.len(),
    ensures
        query_growth(parameters.subrange(0, count)) <= query_growth(parameters),
    decreases parameters.len(),
{
    if count < parameters.len() {
        lemma_query_growth_increases(parameters.drop_last(), count);
        assert(parameters.drop_last().subrange(0, count) =~= parameters.subrange(0, count));
    } else {
        assert(parameters.subrange(0, count) =~= parameters);
    }
}

/// Resolves an endpoint address and query parameters into the text of the
/// URL that carries them.
fn resolve_with_query(address: &str, parameters: &Vec<(&str, &str)>) -> (r: Result<
    String,
    RequestError,
>)
    ensures
        match r {
            Ok(url) => resolved_with_query(address@, parameter_views(parameters@)) == Ok::<
                Seq<char>,
                RequestError,
            >(url@),
            Err(e) => resolved_with_query(address@, parameter_views(parameters@)) == Err::<
                Seq<char>,
                RequestError,
            >(e),
        },
{
    let ghost views = parameter_views(parameters@);
    let plain = match parse_url(address) {
        Ok(url) => url,
        Err(_) => return Err(RequestError::InvalidUrl),
    };
    let plain_bytes = plain.as_str().as_bytes().len();
    if plain_bytes as u64 >= MAX_URL_BYTES {
        return Err(RequestError::UrlTooLong);
    }
    let mut total: u64 = plain_bytes as u64 + 1;
    let mut i: usize = 0;
    while i < parameters.len()
        invariant
            i <= parameters.len(),
            views == parameter_views(parameters@),
            parsed_url(address@) == Some(plain@),
            total == encode_utf8(plain@).len() + query_growth(views.subrange(0, i as int)),
            total <= MAX_URL_BYTES,
        decreases parameters.len() - i,
    {
        let (name, value) = parameters[i];
        let name_bytes = name.as_bytes().len();
        let value_bytes = value.as_bytes().len();
        proof {
            lemma_query_growth_increases(views, i + 1);
            assert(views.subrange(0, i + 1).drop_last() =~= views.subrange(0, i as int));
        }
        if name_bytes as u64 > MAX_URL_BYTES || value_bytes as u64 > MAX_URL_BYTES {
            return Err(RequestError::UrlTooLong);
        }
        let growth: u64 = 3 * (name_bytes as u64) + 3 * (value_bytes as u64) + 2;
        if growth > MAX_URL_BYTES - total {
            return Err(RequestError::UrlTooLong);
        }
        total = total + growth;
        i = i + 1;
    }
    assert(views.subrange(0, i as int) =~= views);
    match parse_url_with_query(address, parameters) {
        Ok(url) => Ok(url),
        Err(_) => Err(RequestError::InvalidUrl),
    }
}

/// The query parameters of the acquisition request, in the order sent.
pub open spec fn token_parameters(client_id: Seq<char>, client_secret: Seq<char>) -> Seq<
    (Seq<char>, Seq<char>),
> {
    seq![
        ("grant_type"@, "client_credentials"@),
        ("client_id"@, client_id),
        ("client_secret"@, client_secret),
    ]
}

/// The query parameter of the introspection request.
pub open spec fn validation_parameters(access_token: Seq<char>) -> Seq<(Seq<char>, Seq<char>)> {
    seq![("token"@, access_token)]
}

/// The headers of the acquisition request under Basic authentication.
pub open spec fn basic_headers(client_id: Seq<char>, client_secret: Seq<char>) -> Seq<HeaderView> {
    seq![
        HeaderView {
            name: "Authorization"@,
            value: basic_authorization_of(client_id, client_secret),
        },
        HeaderView { name: "Content-Type"@, value: "application/x-www-form-urlencoded"@ },
    ]
}

/// The acquisition request: a `POST` to the token endpoint of the region,
/// with the client-credentials grant and the credentials placed as the
/// strategy says.
pub open spec fn token_request_of(
    client_id: Seq<char>,
    client_secret: Seq<char>,
    region: Seq<char>,
    strategy: CredentialStrategy,
) -> Result<HttpRequestView, RequestError> {
    match strategy {
        CredentialStrategy::QueryParameters => match resolved_with_query(
            token_endpoint_of(region),
            token_parameters(client_id, client_secret),
        ) {
            Ok(url) => Ok(bare_request(Method::Post, url)),
            Err(e) => Err(e),
        },
        CredentialStrategy::BasicAuth => match resolved(token_endpoint_of(region)) {
            Ok(url) => Ok(
                HttpRequestView {
                    method: Method::Post,
                    url,
                    headers: basic_headers(client_id, client_secret),
                    body: "grant_type=client_credentials"@,
                },
            ),
            Err(e) => Err(e),
        },
    }
}

/// The introspection request: a `GET` to the introspection endpoint of the
/// region, with the access token as the query parameter `token`.
pub open spec fn validation_request_of(access_token: Seq<char>, region: Seq<char>) -> Result<
    HttpRequestView,
    RequestError,
> {
    match resolved_with_query(
        check_token_endpoint_of(region),
        validation_parameters(access_token),
    ) {
        Ok(url) => Ok(bare_request(Method::Get, url)),
        Err(e) => Err(e),
    }
}

/// Builds the request that asks the provider for an access token.
///
/// The request is refused, never sent malformed: with
/// [`RequestError::InvalidUrl`] where the region gives no address that is
/// a URL, with [`RequestError::UrlTooLong`] where the credentials could
/// make the URL longer than the `url` crate can hold.
pub fn token_request(
    client_id: &str,
    client_secret: &str,
    region: &str,
    strategy: CredentialStrategy,
) -> (r: Result<HttpRequest, RequestError>)
    ensures
        match r {
            Ok(request) => token_request_of(client_id@, client_secret@, region@, strategy) == Ok::<
                HttpRequestView,
                RequestError,
            >(request@),
            Err(e) => token_request_of(client_id@, client_secret@, region@, strategy) == Err::<
                HttpRequestView,
                RequestError,
            >(e),
        },
{
    let address = token_endpoint(region);
    match strategy {
        CredentialStrategy::QueryParameters => {
            let parameters = vec![
                ("grant_type", "client_credentials"),
                ("client_id", client_id),
                ("client_secret", client_secret),
            ];
            assert(parameter_views(parameters@) =~= token_parameters(client_id@, client_secret@));
            match resolve_with_query(address.as_str(), &parameters) {
                Ok(url) => Ok(HttpRequest::post(url)),
                Err(e) => Err(e),
            }
        },
        CredentialStrategy::BasicAuth => match resolve(address.as_str()) {
            Ok(url) => {
                let request = HttpRequest::post(url).with_header(
                    "Authorization",
                    basic_authorization(client_id, client_secret),
                ).with_header(
                    "Content-Type",
                    String::from_str("application/x-www-form-urlencoded"),
                ).with_body(String::from_str("grant_type=client_credentials"));
                assert(request@.headers =~= basic_headers(client_id@, client_secret@));
                Ok(request)
            },
            Err(e) => Err(e),
        },
    }
}

/// Builds the request that asks the provider what an access token stands
/// for. It is refused on the same grounds as [`token_request`].
pub fn validation_request(access_token: &str, region: &str) -> (r: Result<
    HttpRequest,
    RequestError,
>)
    ensures
        match r {
            Ok(request) => validation_request_of(access_token@, region@) == Ok::<
                HttpRequestView,
                RequestError,
            >(request@),
            Err(e) => validation_request_of(access_token@, region@) == Err::<
                HttpRequestView,
                RequestError,
            >(e),
        },
{
    let address = check_token_endpoint(region);
    let parameters = vec![("token", access_token)];
    assert(parameter_views(parameters@) =~= validation_parameters(access_token@));
    match resolve_with_query(address.as_str(), &parameters) {
        Ok(url) => Ok(HttpRequest::get(url)),
        Err(e) => Err(e),
    }
}

/// Under Basic authentication the first header of the acquisition request
/// is `Authorization`, and its value is `Basic ` followed by the Base64
/// text of the identifier, a colon and the secret, with nothing added.
pub proof fn lemma_basic_header(client_id: Seq<char>, client_secret: Seq<char>, region: Seq<char>)
    ensures
        token_request_of(client_id, client_secret, region, CredentialStrategy::BasicAuth) matches Ok(
            request,
        ) ==> request.headers[0] == (HeaderView {
            name: "Authorization"@,
            value: "Basic "@ + encoded(encode_utf8(client_id + seq![':'] + client_secret)),
        }),
{
}

/// Behind `Basic ` the value of the header holds nothing but characters of
/// Base64 text: no white space, no line break.
pub proof fn lemma_basic_value_is_base64(client_id: Seq<char>, client_secret: Seq<char>)
    ensures
        forall|i: int|
            "Basic "@.len() <= i < basic_authorization_of(client_id, client_secret).len()
                ==> is_base64_char(#[trigger] basic_authorization_of(client_id, client_secret)[i]),
{
    lemma_encoded_characters(encode_utf8(basic_credentials(client_id, client_secret)));
}

/// A URL with a query is refused as no URL exactly where the address is no
/// absolute URL, and as too long exactly where the URL of the address and
/// the growth of the query pass [`MAX_URL_BYTES`] together. Every other
/// address and every other parameter is served.
pub proof fn lemma_refusals(address: Seq<char>, parameters: Seq<(Seq<char>, Seq<char>)>)
    ensures
        resolved_with_query(address, parameters) == Err::<Seq<char>, RequestError>(
            RequestError::InvalidUrl,
        ) <==> parsed_url(address) is None,
        resolved_with_query(address, parameters) == Err::<Seq<char>, RequestError>(
            RequestError::UrlTooLong,
        ) <==> (parsed_url(address) matches Some(plain) && encode_utf8(plain).len()
            + query_growth(parameters) > MAX_URL_BYTES),
{
}

/// The growth of the query of the acquisition request: three bytes for
/// each byte of the two credentials and of the fixed names and value, and
/// seven for the signs between them.
pub proof fn lemma_token_query_growth(client_id: Seq<char>, client_secret: Seq<char>)
    ensures
        query_growth(token_parameters(client_id, client_secret)) == 3 * (encode_utf8(
            client_id,
        ).len() + encode_utf8(client_secret).len()) + 3 * (encode_utf8("grant_type"@).len()
            + encode_utf8("client_credentials"@).len() + encode_utf8("client_id"@).len()
            + encode_utf8("client_secret"@).len()) + 7,
{
    let three = token_parameters(client_id, client_secret);
    let two = three.drop_last();
    let one = two.drop_last();
    assert(query_growth(one.drop_last()) == 1);
    assert(query_growth(one) == 1 + pair_growth(three[0]));
    assert(query_growth(two) == query_growth(one) + pair_growth(three[1]));
    assert(query_growth(three) == query_growth(two) + pair_growth(three[2]));
}

/// The growth of the query of the introspection request: three bytes for
/// each byte of the token and of the name `token`, and three for the signs.
pub proof fn lemma_validation_query_growth(access_token: Seq<char>)
    ensures
        query_growth(validation_parameters(access_token)) == 3 * encode_utf8(access_token).len()
            + 3 * encode_utf8("token"@).len() + 3,
{
    let one = validation_parameters(access_token);
    assert(query_growth(one.drop_last()) == 1);
}

} // verus!
