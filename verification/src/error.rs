//! What can go wrong between asking for a feed and holding its data.

use vstd::prelude::*;

verus! {

/// How a JSON document departs from the shape that a feed has.
#[derive(Debug, Clone, Copy, PartialEq, Eq, Structural)]
pub enum SchemaError {
    /// A value is of another JSON type than the one expected in its place.
    UnexpectedType,
    /// An object lacks a member that every document of the feed has.
    MissingField,
    /// A version is not written as four decimal numbers with dots between.
    MalformedVersion,
    /// A timestamp is not written as RFC 3339 asks.
    MalformedTimestamp,
    /// A platform token is none of the five that the feed uses.
    UnknownPlatform,
    /// A channel name is none of the four that the feed uses.
    UnknownChannel,
}

/// Why an attempt to fetch a document brought no usable response.
#[derive(Debug, Clone, PartialEq, Eq)]
pub enum NetworkError {
    /// No response came back; the text is the transport's account of it.
    Transport(String),
    /// A response came back, but its status does not report success.
    Status(u16),
}

/// Why the body of a response could not be read as the expected document.
#[derive(Debug, Clone, PartialEq, Eq)]
pub enum SerializationError {
    /// The body is not one JSON text; the text is the parser's account of
    /// what is wrong and where.
    Syntax(String),
    /// The body is JSON, but not of the shape that the feed has.
    Schema(SchemaError),
}

/// Why a request for a document of the feed failed.
#[derive(Debug)]
pub enum Error {
    /// The base URL cannot be combined with the path of the document.
    UrlParsing(url::ParseError),
    /// The HTTP exchange failed.
    Network(NetworkError),
    /// The body of the response could not be read.
    Serialization(SerializationError),
}

/// A failed request, as a mathematical value.
pub enum Failure {
    UrlParsing,
    Transport(Seq<char>),
    Status(u16),
    Syntax(Seq<char>),
    Schema(SchemaError),
}

impl View for Error {
    type V = Failure;

    open spec fn view(&self) -> Failure {
        match self {
            Error::UrlParsing(_) => Failure::UrlParsing,
            Error::Network(NetworkError::Transport(reason)) => Failure::Transport(reason@),
            Error::Network(NetworkError::Status(status)) => Failure::Status(*status),
            Error::Serialization(SerializationError::Syntax(message)) => Failure::Syntax(
                message@,
            ),
            Error::Serialization(SerializationError::Schema(error)) => Failure::Schema(*error),
        }
    }
}

} // verus!
