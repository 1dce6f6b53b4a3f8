//! Client-side logic of the Battle.net OAuth2 client-credentials flow.
//!
//! The crate builds the two requests of the flow, token acquisition and
//! token introspection, and decodes their JSON answers. It performs no I/O:
//! a caller sends the [`HttpRequest`] with the HTTP client of its choice and
//! hands the body of the response back.
//!
//! ```text
//! let request = token_request(client_id, client_secret, "eu", CredentialStrategy::QueryParameters)?;
//! let body = /* send `request`, read the body of the answer */;
//! let token = OAuthToken::decode(&body)?;
//! ```
//!
//! - [`region`]: from a region code to the provider's host and endpoints
//! - [`request`]: the two requests, as plain data
//! - [`base64`]: the encoding of Basic authentication
//! - [`json`]: the model of JSON documents and the calls into `serde_json`
//! - [`token`]: the records and their text form
//! - [`decode`]: from a response body to a record
//! - [`encode`]: from a record to the JSON value that describes it
//! - [`text`]: numerals, quoting, and the "occurs in" relation on texts

pub mod base64;
pub mod decode;
pub mod encode;
pub mod json;
pub mod region;
pub mod request;
pub mod text;
pub mod token;

pub use decode::DecodeError;
pub use request::{
    token_request, validation_request, CredentialStrategy, Header, HttpRequest, Method,
    RequestError,
};
pub use token::{Authority, OAuthToken, ValidatedToken};
