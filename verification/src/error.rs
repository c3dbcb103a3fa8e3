//! The ways in which handling a connection can fail.
use vstd::prelude::*;

verus! {

/// A text that could not be read apart.
#[derive(Debug, Clone, Copy, PartialEq, Eq, Structural)]
pub enum ParseError {
    /// The request line has fewer than three tokens.
    ShortRequestLine,
    /// The origin's reply has no blank line between head and body.
    MissingBoundary,
    /// The status line of the origin's reply has no second token.
    MissingStatusCode,
}

/// A body that was announced as gzip and could not be inflated.
#[derive(Debug, Clone, Copy, PartialEq, Eq, Structural)]
pub struct DecompressionError;

/// Why a connection was given up without an answer to the client.
#[derive(Debug, Clone, Copy, PartialEq, Eq, Structural)]
pub enum AbortReason {
    /// Reading from the client or from the origin failed.
    SocketRead,
    /// The request or the origin's reply could not be read apart.
    Parse(ParseError),
    /// The client asked for a protocol version other than `HTTP/1.1`.
    UnsupportedVersion,
    /// The request target names no file or no origin host.
    MissingRouteInfo,
    /// No connection to the origin host could be opened.
    OriginConnect,
    /// The origin's body was announced as gzip and could not be inflated.
    Decompression,
    /// The cache entry could not be read or written.
    CacheIo,
    /// An event arrived that the handler was not waiting for.
    OutOfTurn,
}

} // verus!
