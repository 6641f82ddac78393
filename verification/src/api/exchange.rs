//! What passes between this crate and whoever carries out the HTTP exchange.

use crate::error::{Error, NetworkError};
use vstd::prelude::*;

verus! {

/// The origin under which the feed is published.
pub const API_BASE_URL: &'static str = "https://googlechromelabs.github.io";

/// How one attempt to fetch a document ended.
#[derive(Debug, Clone, PartialEq, Eq)]
pub enum Exchange {
    /// No response came back: the name did not resolve, the connection was
    /// refused or broke, TLS failed, time ran out. The text says which.
    Failed(String),
    /// A response came back, with this status code and this body.
    Response { status: u16, body: Vec<u8> },
}

/// `url::ParseError`, which says why a text is no URL or cannot serve as a
/// base.
#[verifier::external_type_specification]
#[verifier::external_body]
pub struct ExParseError(url::ParseError);

/// The URL that the `url` crate resolves a reference to against a base, if
/// the base is an absolute URL and the reference can be resolved against it.
pub uninterp spec fn resolved_url(base: Seq<char>, reference: Seq<char>) -> Option<Seq<char>>;

/// Calls `url::Url::parse` on the base and `url::Url::join` on what it read,
/// and returns the text of the resulting URL.
///
/// The contract claims only that the outcome is a function of the two texts.
#[verifier::external_body]
fn resolve(base: &str, reference: &str) -> (resolved: Result<String, url::ParseError>)
    ensures
        match resolved {
            Ok(url) => resolved_url(base@, reference@) == Some(url@),
            Err(_) => resolved_url(base@, reference@) is None,
        },
{
    Ok(url::Url::parse(base)?.join(reference)?.into())
}

/// Whether a status code reports success.
pub open spec fn is_success(status: u16) -> bool {
    200 <= status <= 299
}

/// The URL of a document of the feed, given the origin that publishes the
/// feed and the path of the document under it.
pub fn endpoint(base_url: &str, path: &str) -> (url: Result<String, Error>)
    ensures
        match url {
            Ok(url) => resolved_url(base_url@, path@) == Some(url@),
            Err(error) => resolved_url(base_url@, path@) is None && error is UrlParsing,
        },
{
    match resolve(base_url, path) {
        Ok(url) => Ok(url),
        Err(error) => Err(Error::UrlParsing(error)),
    }
}

/// Sorts out the exchanges that brought no usable body: those that failed
/// and those whose status does not report success.
pub fn successful_body(exchange: Exchange) -> (body: Result<Vec<u8>, NetworkError>)
    ensures
        match exchange {
            Exchange::Failed(reason) => body matches Err(NetworkError::Transport(text)) && text@
                == reason@,
            Exchange::Response { status, body: sent } => if is_success(status) {
                body matches Ok(received) && received@ == sent@
            } else {
                body == Err::<Vec<u8>, NetworkError>(NetworkError::Status(status))
            },
        },
{
    match exchange {
        Exchange::Failed(reason) => Err(NetworkError::Transport(reason)),
        Exchange::Response { status, body } => if 200 <= status && status <= 299 {
            Ok(body)
        } else {
            Err(NetworkError::Status(status))
        },
    }
}

} // verus!
