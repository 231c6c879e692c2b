//! The closed set of failure variants shared by the HTTP gateway and the
//! WebSocket session. Every failure is returned to the caller as a value;
//! nothing here panics.

use vstd::prelude::*;

verus! {

/// A failure of the client library.
///
/// Rate-limit responses carry the server's `Retry-After` header, expressed
/// in milliseconds so that fractional seconds survive without floating point.
#[derive(Debug, PartialEq)]
pub enum VyperError {
    /// A transport-level HTTP failure, with its description.
    HttpError(String),
    /// A payload that could not be decoded, with a description of the defect.
    DeserializeError(String),
    /// The server rejected the credential (status 401); carries the
    /// envelope's message.
    AuthenticationError(String),
    /// The server asked the client to slow down (status 429); carries the
    /// envelope's message and the `Retry-After` delay in milliseconds,
    /// when the header was present and readable.
    RateLimitError { message: String, retry_after_millis: Option<u64> },
    /// A server-side failure (status 500 through 599); carries the
    /// envelope's message.
    ServerError(String),
    /// Any other non-success status; carries the envelope's message and the
    /// numeric status code.
    ApiError(String, u16),
    /// A WebSocket-class failure: "not connected", "feed type mismatch",
    /// handshake failures, and raw transport errors re-wrapped.
    WebsocketError {
        message: String,
        status_code: Option<u16>,
        connection_info: Option<String>,
    },
}

/// Holds when `e` is a WebSocket-class error with exactly the given message
/// and no status code or connection context.
pub open spec fn is_plain_ws_error(e: VyperError, msg: Seq<char>) -> bool {
    &&& e matches VyperError::WebsocketError { message, status_code, connection_info }
    &&& message@ == msg
    &&& status_code is None
    &&& connection_info is None
}

/// Holds when `e` is the error every state-requiring session operation
/// returns from the Disconnected state.
pub open spec fn is_not_connected_error(e: VyperError) -> bool {
    is_plain_ws_error(e, "Not connected"@)
}

/// Holds when `e` is the error `subscribe`/`unsubscribe` return when the
/// requested feed differs from the session's active feed.
pub open spec fn is_feed_mismatch_error(e: VyperError) -> bool {
    is_plain_ws_error(e, "Feed type mismatch"@)
}

impl VyperError {
    /// Builds a WebSocket-class error from its parts.
    pub fn websocket_error(
        message: String,
        status_code: Option<u16>,
        connection_info: Option<String>,
    ) -> (e: VyperError)
        ensures
            e == (VyperError::WebsocketError { message, status_code, connection_info }),
    {
        VyperError::WebsocketError { message, status_code, connection_info }
    }

    /// The error returned by operations that need a live connection when
    /// there is none.
    pub fn not_connected() -> (e: VyperError)
        ensures
            is_not_connected_error(e),
    {
        VyperError::WebsocketError {
            message: String::from_str("Not connected"),
            status_code: None,
            connection_info: None,
        }
    }

    /// The error returned by `subscribe`/`unsubscribe` when the requested
    /// feed is not the active one.
    pub fn feed_type_mismatch() -> (e: VyperError)
        ensures
            is_feed_mismatch_error(e),
    {
        VyperError::WebsocketError {
            message: String::from_str("Feed type mismatch"),
            status_code: None,
            connection_info: None,
        }
    }
}

impl VyperError {
    /// The message text a failure carries, whichever variant it is.
    pub open spec fn spec_message(self) -> Seq<char> {
        match self {
            VyperError::HttpError(m) => m@,
            VyperError::DeserializeError(m) => m@,
            VyperError::AuthenticationError(m) => m@,
            VyperError::RateLimitError { message, .. } => message@,
            VyperError::ServerError(m) => m@,
            VyperError::ApiError(m, _) => m@,
            VyperError::WebsocketError { message, .. } => message@,
        }
    }

    /// Takes the failure's message text, to re-wrap a transport error.
    pub fn into_message(self) -> (r: String)
        ensures
            r@ == self.spec_message(),
    {
        match self {
            VyperError::HttpError(m) => m,
            VyperError::DeserializeError(m) => m,
            VyperError::AuthenticationError(m) => m,
            VyperError::RateLimitError { message, .. } => message,
            VyperError::ServerError(m) => m,
            VyperError::ApiError(m, _) => m,
            VyperError::WebsocketError { message, .. } => message,
        }
    }
}

impl From<&str> for VyperError {
    /// A bare string becomes a WebSocket-class error carrying it as the
    /// message, as transport adapters report raw failures.
    fn from(s: &str) -> (e: VyperError)
        ensures
            is_plain_ws_error(e, s@),
    {
        VyperError::WebsocketError {
            message: String::from_str(s),
            status_code: None,
            connection_info: None,
        }
    }
}

impl vstd::std_specs::convert::FromSpecImpl<&str> for VyperError {
    // the conversion's contract is stated on `from` itself; the trait-level
    // spec stays unused
    open spec fn obeys_from_spec() -> bool {
        false
    }

    open spec fn from_spec(s: &str) -> VyperError {
        arbitrary()
    }
}

} // verus!
