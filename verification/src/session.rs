//! The WebSocket session: it owns at most one live connection, tracks the
//! active feed type, and moves between two states, Disconnected and
//! Connected. Its invariant: a live connection and an active feed type exist
//! together — they are set and cleared together.
//!
//! The session is generic over its transport, so any implementation of
//! [`WebSocketConnection`] can carry it; the library's own
//! [`crate::replay::ScriptedConnection`] replays a fixed script of frames.
//! Exclusive access to the connection and the active feed is what `&mut
//! self` grants: no operation can interleave with another.
//!
//! The transport and handler traits carry ghost accounts — the frames still
//! to arrive, the frames written, the events taken — with defaults that
//! promise nothing. A transport or handler that overrides them (as the
//! replay types do) turns the session's contracts into exact statements
//! about what was written and what was delivered.

use vstd::prelude::*;
use crate::errors::{VyperError, is_not_connected_error, is_feed_mismatch_error};
use crate::json::{JsonValue, JsonNode, node_of};
use crate::inbound::{frame_event, spec_frame_event};
use crate::protocol::{FeedType, SubscriptionPayload, push_str};
use crate::text::string_from_chars;

verus! {

/// The transport a session drives: handshake, text frames in and out, close.
/// The session treats every outcome of every call, so implementations carry
/// few obligations; the ghost accounts below let a listen loop terminate and
/// let the session state what it wrote and what arrived.
pub trait WebSocketConnection: Sized {
    /// The text frames this transport will still yield, in delivery order,
    /// as the transport accounts them. A transport that does not account
    /// its frames keeps the default, under which `receive` promises no
    /// successful reads; the scripted transport overrides it with what
    /// remains of its script.
    open spec fn inbound(&self) -> Seq<Seq<char>> {
        Seq::empty()
    }

    /// The text frames successfully written so far, as the transport
    /// accounts them; defaulted like `inbound`.
    open spec fn sent(&self) -> Seq<Seq<char>> {
        Seq::empty()
    }

    /// A fresh, not yet connected transport.
    fn new() -> Self;

    /// Establishes the transport to the given endpoint.
    fn connect(&mut self, url: &str) -> (r: Result<(), VyperError>);

    /// Writes one text frame: on success exactly `data` joins the sent
    /// record; a failed write records nothing.
    fn send(&mut self, data: &str) -> (r: Result<(), VyperError>)
        ensures
            r is Ok ==> final(self).sent() == old(self).sent().push(data@),
            r is Err ==> final(self).sent() == old(self).sent(),
    ;

    /// Reads one text frame: on success it is the first frame of `inbound`
    /// and is consumed. On failure — the stream failing or ending, the two
    /// are not distinguished — the account stands empty: a transport that
    /// accounts its frames fails only once they are spent.
    fn receive(&mut self) -> (r: Result<String, VyperError>)
        ensures
            r matches Ok(t) ==> old(self).inbound().len() > 0 && t@ == old(self).inbound()[0]
                && final(self).inbound() == old(self).inbound().skip(1),
            r is Err ==> final(self).inbound() == old(self).inbound()
                && final(self).inbound().len() == 0,
    ;

    /// Asks the transport to close.
    fn close(&mut self) -> (r: Result<(), VyperError>);
}

/// A caller-supplied callback that takes each decoded inbound event.
pub trait MessageHandler: Sized {
    /// The readings of the events taken so far, as the handler accounts
    /// them. A handler that keeps the default cannot discharge `handle`'s
    /// obligation; the recording handler overrides it with the events it
    /// kept.
    open spec fn log(&self) -> Seq<JsonNode> {
        Seq::empty()
    }

    /// Takes one decoded event, appending its reading to the log.
    fn handle(&mut self, event: JsonValue)
        ensures
            final(self).log() == old(self).log().push(node_of(event)),
    ;
}

/// The WebSocket endpoint a connection for the given feed is opened to:
/// the base, the feed's path segment, and the credential as a query
/// parameter.
pub open spec fn spec_connect_url(base: Seq<char>, feed: FeedType, key: Seq<char>) -> Seq<char> {
    base + seq!['/'] + feed.spec_path() + "?apiKey="@ + key
}

/// The events a frame sequence yields on the given feed: the readings of
/// the frames that convert, in arrival order; frames that do not convert
/// yield nothing.
pub open spec fn spec_events(feed: FeedType, frames: Seq<Seq<char>>) -> Seq<JsonNode>
    decreases frames.len(),
{
    if frames.len() == 0 {
        Seq::empty()
    } else {
        (match spec_frame_event(feed, frames[0]) {
            Some(n) => seq![n],
            None => Seq::<JsonNode>::empty(),
        }) + spec_events(feed, frames.skip(1))
    }
}

/// Consuming one more frame appends exactly that frame's events.
#[verifier::rlimit(50)]
proof fn lemma_spec_events_snoc(feed: FeedType, frames: Seq<Seq<char>>, k: int)
    requires
        0 <= k < frames.len(),
    ensures
        spec_events(feed, frames.take(k + 1)) == spec_events(feed, frames.take(k)) + (
        match spec_frame_event(feed, frames[k]) {
            Some(n) => seq![n],
            None => Seq::<JsonNode>::empty(),
        }),
    decreases k,
{
    let ev = match spec_frame_event(feed, frames[k]) {
        Some(n) => seq![n],
        None => Seq::<JsonNode>::empty(),
    };
    if k == 0 {
        assert(frames.take(1)[0] == frames[0]);
        assert(frames.take(1).skip(1) =~= Seq::<Seq<char>>::empty());
        assert(frames.take(0) =~= Seq::<Seq<char>>::empty());
        assert(spec_events(feed, Seq::<Seq<char>>::empty()) == Seq::<JsonNode>::empty());
        assert(spec_events(feed, frames.take(1)) == ev + Seq::<JsonNode>::empty());
        assert(ev + Seq::<JsonNode>::empty() =~= ev);
        assert(Seq::<JsonNode>::empty() + ev =~= ev);
    } else {
        lemma_spec_events_snoc(feed, frames.skip(1), k - 1);
        let head = match spec_frame_event(feed, frames[0]) {
            Some(n) => seq![n],
            None => Seq::<JsonNode>::empty(),
        };
        assert(frames.take(k + 1)[0] == frames[0]);
        assert(frames.take(k)[0] == frames[0]);
        assert(frames.take(k + 1).skip(1) =~= frames.skip(1).take(k));
        assert(frames.take(k).skip(1) =~= frames.skip(1).take(k - 1));
        assert(frames.skip(1)[k - 1] == frames[k]);
        assert(spec_events(feed, frames.take(k + 1)) == head + spec_events(
            feed,
            frames.skip(1).take(k),
        ));
        assert(spec_events(feed, frames.take(k)) == head + spec_events(
            feed,
            frames.skip(1).take(k - 1),
        ));
        assert(head + (spec_events(feed, frames.skip(1).take(k - 1)) + ev) =~= (head
            + spec_events(feed, frames.skip(1).take(k - 1))) + ev);
    }
}

/// The subscription client: endpoint, credential, at most one live
/// connection, at most one active feed type, at most one registered handler.
pub struct VyperWebsocketClient<C: WebSocketConnection, H: MessageHandler> {
    base_url: String,
    api_key: String,
    conn: Option<C>,
    current_feed_type: Option<FeedType>,
    message_handler: Option<H>,
}

impl<C: WebSocketConnection, H: MessageHandler> VyperWebsocketClient<C, H> {
    /// The session is Connected exactly when it holds a live connection.
    pub closed spec fn spec_connected(&self) -> bool {
        self.conn is Some
    }

    /// The live connection, if any.
    pub closed spec fn spec_conn(&self) -> Option<C> {
        self.conn
    }

    /// The active feed type, if any.
    pub closed spec fn spec_feed(&self) -> Option<FeedType> {
        self.current_feed_type
    }

    /// The configured endpoint base.
    pub closed spec fn spec_base_url(&self) -> Seq<char> {
        self.base_url@
    }

    /// The configured credential.
    pub closed spec fn spec_api_key(&self) -> Seq<char> {
        self.api_key@
    }

    /// The registered handler, if any.
    pub closed spec fn spec_handler(&self) -> Option<H> {
        self.message_handler
    }

    /// Whether a handler is registered.
    pub closed spec fn spec_has_handler(&self) -> bool {
        self.message_handler is Some
    }

    /// What the connection will still yield; nothing when Disconnected.
    pub closed spec fn spec_inbound(&self) -> Seq<Seq<char>> {
        match self.conn {
            Some(c) => c.inbound(),
            None => Seq::empty(),
        }
    }

    /// What the connection has accepted for writing; nothing when
    /// Disconnected.
    pub closed spec fn spec_sent(&self) -> Seq<Seq<char>> {
        match self.conn {
            Some(c) => c.sent(),
            None => Seq::empty(),
        }
    }

    /// The readings the handler has taken so far; nothing without a handler.
    pub closed spec fn spec_handler_log(&self) -> Seq<JsonNode> {
        match self.message_handler {
            Some(h) => h.log(),
            None => Seq::empty(),
        }
    }

    /// The session invariant: the connection and the active feed type are
    /// present together.
    pub closed spec fn wf(&self) -> bool {
        self.conn is Some <==> self.current_feed_type is Some
    }

    /// A new session for the service's live endpoint: Disconnected, no
    /// active feed, no handler.
    pub fn new(api_key: String) -> (r: Self)
        ensures
            r.wf(),
            !r.spec_connected(),
            r.spec_feed() is None,
            !r.spec_has_handler(),
            r.spec_api_key() == api_key@,
            r.spec_base_url() == "wss://api.vyper.trade/api/v1/ws"@,
    {
        VyperWebsocketClient {
            base_url: String::from_str("wss://api.vyper.trade/api/v1/ws"),
            api_key,
            conn: None,
            current_feed_type: None,
            message_handler: None,
        }
    }

    /// Whether the session is Connected.
    pub fn is_connected(&self) -> (r: bool)
        ensures
            r == self.spec_connected(),
    {
        self.conn.is_some()
    }

    /// The active feed type, if any.
    pub fn active_feed(&self) -> (r: Option<FeedType>)
        ensures
            r == self.spec_feed(),
    {
        self.current_feed_type
    }

    /// The configured endpoint base.
    pub fn base_url(&self) -> (r: &String)
        ensures
            r@ == self.spec_base_url(),
    {
        &self.base_url
    }

    /// The configured credential.
    pub fn api_key(&self) -> (r: &String)
        ensures
            r@ == self.spec_api_key(),
    {
        &self.api_key
    }

    /// Whether a handler is registered.
    pub fn has_message_handler(&self) -> (r: bool)
        ensures
            r == self.spec_has_handler(),
    {
        self.message_handler.is_some()
    }

    /// The live transport, for callers that need to look at it.
    pub fn transport(&self) -> (r: &Option<C>)
        ensures
            *r == self.spec_conn(),
            r is Some <==> self.spec_connected(),
    {
        &self.conn
    }

    /// The registered handler, for callers that need to look at it.
    pub fn handler(&self) -> (r: &Option<H>)
        ensures
            *r == self.spec_handler(),
            r is Some <==> self.spec_has_handler(),
    {
        &self.message_handler
    }

    /// The endpoint a connection for `feed` goes to.
    pub fn connect_url(&self, feed: &FeedType) -> (r: String)
        ensures
            r@ == spec_connect_url(self.spec_base_url(), *feed, self.spec_api_key()),
    {
        let mut out: Vec<char> = Vec::new();
        push_str(&mut out, self.base_url.as_str());
        out.push('/');
        push_str(&mut out, feed.path());
        push_str(&mut out, "?apiKey=");
        push_str(&mut out, self.api_key.as_str());
        proof {
            assert(out@ =~= spec_connect_url(self.spec_base_url(), *feed, self.spec_api_key()));
        }
        string_from_chars(&out)
    }

    /// Opens (or re-establishes) the connection for `feed_type` over the
    /// given transport and, on success, records `feed_type` as active.
    /// On failure the error carries the attempted endpoint, and the session
    /// keeps its previous state.
    pub fn connect_with(&mut self, feed_type: FeedType, transport: C) -> (r: Result<
        (),
        VyperError,
    >)
        requires
            old(self).wf(),
        ensures
            final(self).wf(),
            final(self).spec_base_url() == old(self).spec_base_url(),
            final(self).spec_api_key() == old(self).spec_api_key(),
            final(self).spec_handler() == old(self).spec_handler(),
            r is Ok ==> final(self).spec_connected() && final(self).spec_feed() == Some(
                feed_type,
            ),
            r matches Err(e) ==> {
                &&& e matches VyperError::WebsocketError { message, status_code, connection_info }
                &&& status_code is None
                &&& connection_info matches Some(u) && u@ == spec_connect_url(
                    old(self).spec_base_url(),
                    feed_type,
                    old(self).spec_api_key(),
                )
                &&& final(self).spec_feed() == old(self).spec_feed()
                &&& final(self).spec_connected() == old(self).spec_connected()
            },
    {
        let url = self.connect_url(&feed_type);
        let mut c = transport;
        match c.connect(url.as_str()) {
            Ok(()) => {
                self.conn = Some(c);
                self.current_feed_type = Some(feed_type);
                Ok(())
            },
            Err(e) => {
                Err(VyperError::websocket_error(e.into_message(), None, Some(url)))
            },
        }
    }

    /// Opens a new connection for `feed_type` if none exists, or
    /// re-establishes the existing one for the new feed type. On success,
    /// records `feed_type` as active; on handshake failure the error
    /// carries the attempted endpoint — credential included, as the
    /// diagnostics have always shown it — and the state is kept.
    pub fn connect(&mut self, feed_type: FeedType) -> (r: Result<(), VyperError>)
        requires
            old(self).wf(),
        ensures
            final(self).wf(),
            final(self).spec_base_url() == old(self).spec_base_url(),
            final(self).spec_api_key() == old(self).spec_api_key(),
            final(self).spec_handler() == old(self).spec_handler(),
            r is Ok ==> final(self).spec_connected() && final(self).spec_feed() == Some(
                feed_type,
            ),
            r matches Err(e) ==> {
                &&& e matches VyperError::WebsocketError { message, status_code, connection_info }
                &&& status_code is None
                &&& connection_info matches Some(u) && u@ == spec_connect_url(
                    old(self).spec_base_url(),
                    feed_type,
                    old(self).spec_api_key(),
                )
                &&& final(self).spec_feed() == old(self).spec_feed()
                &&& final(self).spec_connected() == old(self).spec_connected()
            },
    {
        let url = self.connect_url(&feed_type);
        match self.conn.take() {
            None => {
                let mut c = C::new();
                match c.connect(url.as_str()) {
                    Ok(()) => {
                        self.conn = Some(c);
                        self.current_feed_type = Some(feed_type);
                        Ok(())
                    },
                    Err(e) => {
                        Err(VyperError::websocket_error(e.into_message(), None, Some(url)))
                    },
                }
            },
            Some(mut c) => {
                match c.connect(url.as_str()) {
                    Ok(()) => {
                        self.conn = Some(c);
                        self.current_feed_type = Some(feed_type);
                        Ok(())
                    },
                    Err(e) => {
                        self.conn = Some(c);
                        Err(VyperError::websocket_error(e.into_message(), None, Some(url)))
                    },
                }
            },
        }
    }

    /// Serializes `message` and writes it to the connection. Requires a live
    /// connection whose active feed equals `feed_type`: from Disconnected
    /// this fails as "not connected", and on a differing feed as "feed type
    /// mismatch", in both cases leaving the session untouched and writing
    /// nothing. On match, exactly one write of the message's encoding is
    /// attempted: success means the connection accepted that frame, failure
    /// re-wraps the transport's error and records no write.
    pub fn subscribe<M: SubscriptionPayload>(&mut self, feed_type: FeedType, message: M) -> (r:
        Result<(), VyperError>)
        requires
            old(self).wf(),
        ensures
            final(self).wf(),
            final(self).spec_feed() == old(self).spec_feed(),
            final(self).spec_connected() == old(self).spec_connected(),
            final(self).spec_base_url() == old(self).spec_base_url(),
            final(self).spec_api_key() == old(self).spec_api_key(),
            final(self).spec_handler() == old(self).spec_handler(),
            !old(self).spec_connected() ==> (r matches Err(e) && is_not_connected_error(e)
                && *final(self) == *old(self)),
            (old(self).spec_connected() && old(self).spec_feed() != Some(feed_type)) ==> (
            r matches Err(e) && is_feed_mismatch_error(e) && *final(self) == *old(self)),
            (old(self).spec_connected() && old(self).spec_feed() == Some(feed_type)) ==> {
                &&& r is Ok ==> final(self).spec_sent() == old(self).spec_sent().push(
                    message.spec_frame(),
                )
                &&& r matches Err(e) ==> (final(self).spec_sent() == old(self).spec_sent()
                    && (e matches VyperError::WebsocketError {
                        status_code: None,
                        connection_info: None,
                        ..
                    }))
            },
    {
        if self.conn.is_none() {
            return Err(VyperError::not_connected());
        }
        let matches_active = match &self.current_feed_type {
            Some(f) => *f == feed_type,
            None => false,
        };
        if !matches_active {
            return Err(VyperError::feed_type_mismatch());
        }
        let data = message.encode_frame();
        let mut c = self.conn.take().unwrap();
        let res = c.send(data.as_str());
        self.conn = Some(c);
        match res {
            Ok(()) => Ok(()),
            Err(e) => Err(VyperError::websocket_error(e.into_message(), None, None)),
        }
    }

    /// The same wire operation as `subscribe`: only the message's action
    /// field distinguishes the two.
    pub fn unsubscribe<M: SubscriptionPayload>(&mut self, feed_type: FeedType, message: M) -> (r:
        Result<(), VyperError>)
        requires
            old(self).wf(),
        ensures
            final(self).wf(),
            final(self).spec_feed() == old(self).spec_feed(),
            final(self).spec_connected() == old(self).spec_connected(),
            final(self).spec_base_url() == old(self).spec_base_url(),
            final(self).spec_api_key() == old(self).spec_api_key(),
            final(self).spec_handler() == old(self).spec_handler(),
            !old(self).spec_connected() ==> (r matches Err(e) && is_not_connected_error(e)
                && *final(self) == *old(self)),
            (old(self).spec_connected() && old(self).spec_feed() != Some(feed_type)) ==> (
            r matches Err(e) && is_feed_mismatch_error(e) && *final(self) == *old(self)),
            (old(self).spec_connected() && old(self).spec_feed() == Some(feed_type)) ==> {
                &&& r is Ok ==> final(self).spec_sent() == old(self).spec_sent().push(
                    message.spec_frame(),
                )
                &&& r is Err ==> final(self).spec_sent() == old(self).spec_sent()
            },
    {
        self.subscribe(feed_type, message)
    }

    /// Sends the literal keepalive frame `ping` when a connection exists —
    /// success means the connection accepted exactly that frame — and is a
    /// no-op success from Disconnected.
    pub fn ping(&mut self) -> (r: Result<(), VyperError>)
        requires
            old(self).wf(),
        ensures
            final(self).wf(),
            final(self).spec_feed() == old(self).spec_feed(),
            final(self).spec_connected() == old(self).spec_connected(),
            final(self).spec_base_url() == old(self).spec_base_url(),
            final(self).spec_api_key() == old(self).spec_api_key(),
            final(self).spec_handler() == old(self).spec_handler(),
            !old(self).spec_connected() ==> r is Ok && *final(self) == *old(self),
            old(self).spec_connected() ==> {
                &&& r is Ok ==> final(self).spec_sent() == old(self).spec_sent().push("ping"@)
                &&& r matches Err(e) ==> (final(self).spec_sent() == old(self).spec_sent()
                    && (e matches VyperError::WebsocketError {
                        status_code: None,
                        connection_info: None,
                        ..
                    }))
            },
    {
        match self.conn.take() {
            None => Ok(()),
            Some(mut c) => {
                let res = c.send("ping");
                self.conn = Some(c);
                match res {
                    Ok(()) => Ok(()),
                    Err(e) => Err(VyperError::websocket_error(e.into_message(), None, None)),
                }
            },
        }
    }

    /// Requests transport close (once, on the connection being dropped),
    /// then unconditionally clears the connection and the active feed type
    /// together: whatever the close reported, the session is Disconnected
    /// afterwards; a failed close is re-wrapped and returned.
    pub fn disconnect(&mut self) -> (r: Result<(), VyperError>)
        requires
            old(self).wf(),
        ensures
            final(self).wf(),
            !final(self).spec_connected(),
            final(self).spec_feed() is None,
            final(self).spec_base_url() == old(self).spec_base_url(),
            final(self).spec_api_key() == old(self).spec_api_key(),
            final(self).spec_handler() == old(self).spec_handler(),
            !old(self).spec_connected() ==> r is Ok,
            r matches Err(e) ==> (old(self).spec_connected() && (
            e matches VyperError::WebsocketError {
                status_code: None,
                connection_info: None,
                ..
            })),
    {
        let res = match self.conn.take() {
            None => Ok(()),
            Some(mut c) => c.close(),
        };
        self.conn = None;
        self.current_feed_type = None;
        match res {
            Ok(()) => Ok(()),
            Err(e) => Err(VyperError::websocket_error(e.into_message(), None, None)),
        }
    }

    /// Replaces any previously registered handler with exactly `handler`;
    /// the last registration wins, never combined with prior ones.
    pub fn set_message_handler(&mut self, handler: H)
        ensures
            final(self).wf() == old(self).wf(),
            final(self).spec_handler() == Some(handler),
            final(self).spec_has_handler(),
            final(self).spec_feed() == old(self).spec_feed(),
            final(self).spec_connected() == old(self).spec_connected(),
            final(self).spec_conn() == old(self).spec_conn(),
            final(self).spec_base_url() == old(self).spec_base_url(),
            final(self).spec_api_key() == old(self).spec_api_key(),
    {
        self.message_handler = Some(handler);
    }

    /// The blocking receive loop: reads one frame at a time until the
    /// transport fails or the stream ends (treated identically: Ok), and
    /// converts each frame by the active feed type. Every frame of the
    /// stream that converts is delivered to the registered handler, in
    /// arrival order; with no handler registered events are silently
    /// discarded; malformed frames are skipped, never fatal. From
    /// Disconnected it fails as "not connected". The contract: the whole
    /// inbound account is consumed, and the handler's log grows by exactly
    /// its events.
    pub fn listen(&mut self) -> (r: Result<(), VyperError>)
        requires
            old(self).wf(),
        ensures
            final(self).wf(),
            final(self).spec_feed() == old(self).spec_feed(),
            final(self).spec_connected() == old(self).spec_connected(),
            final(self).spec_base_url() == old(self).spec_base_url(),
            final(self).spec_api_key() == old(self).spec_api_key(),
            final(self).spec_has_handler() == old(self).spec_has_handler(),
            old(self).spec_connected() ==> (r is Ok && final(self).spec_inbound().len() == 0 && (
            old(self).spec_has_handler() ==> final(self).spec_handler_log() == old(
                self,
            ).spec_handler_log() + spec_events(
                old(self).spec_feed().unwrap(),
                old(self).spec_inbound(),
            ))),
            !old(self).spec_connected() ==> (r matches Err(e) && is_not_connected_error(e)
                && *final(self) == *old(self)),
    {
        if self.conn.is_none() {
            return Err(VyperError::not_connected());
        }
        let feed = self.current_feed_type.unwrap();
        let mut c = self.conn.take().unwrap();
        let ghost old_in = c.inbound();
        let ghost log0 = old(self).spec_handler_log();
        let ghost mut k: int = 0;
        proof {
            assert(old_in.take(0) =~= Seq::<Seq<char>>::empty());
            assert(log0 + Seq::<JsonNode>::empty() =~= log0);
        }
        loop
            invariant
                self.conn is None,
                self.current_feed_type == old(self).current_feed_type,
                self.base_url == old(self).base_url,
                self.api_key == old(self).api_key,
                (self.message_handler is Some) == (old(self).message_handler is Some),
                0 <= k <= old_in.len(),
                c.inbound() == old_in.skip(k),
                old(self).message_handler is Some ==> (self.message_handler matches Some(h)
                    && h.log() == log0 + spec_events(feed, old_in.take(k))),
            ensures
                self.conn is None,
                self.current_feed_type == old(self).current_feed_type,
                self.base_url == old(self).base_url,
                self.api_key == old(self).api_key,
                (self.message_handler is Some) == (old(self).message_handler is Some),
                0 <= k <= old_in.len(),
                c.inbound() == old_in.skip(k),
                c.inbound().len() == 0,
                old(self).message_handler is Some ==> (self.message_handler matches Some(h)
                    && h.log() == log0 + spec_events(feed, old_in.take(k))),
            decreases c.inbound().len(),
        {
            match c.receive() {
                Err(_) => {
                    break;
                },
                Ok(text) => {
                    proof {
                        assert(old_in.skip(k)[0] == old_in[k]);
                        assert(old_in.skip(k).skip(1) =~= old_in.skip(k + 1));
                    }
                    process_frame(&mut self.message_handler, &feed, text.as_str());
                    proof {
                        lemma_spec_events_snoc(feed, old_in, k);
                        k = k + 1;
                    }
                },
            }
        }
        self.conn = Some(c);
        proof {
            assert(old(self).spec_inbound() == old_in);
            assert(k == old_in.len());
            assert(old_in.take(k) =~= old_in);
            assert(self.spec_inbound().len() == 0);
            assert(feed == old(self).spec_feed().unwrap());
            if old(self).spec_has_handler() {
                assert(self.spec_handler_log() == old(self).spec_handler_log() + spec_events(
                    old(self).spec_feed().unwrap(),
                    old(self).spec_inbound(),
                ));
            }
        }
        Ok(())
    }
}

/// Converts one received frame by the feed type and delivers the event to
/// the handler when one is registered; returns whether the frame was
/// well-formed for the feed. A malformed frame is skipped, never fatal;
/// a well-formed one with no handler registered is silently discarded;
/// a well-formed one with a handler registered is delivered exactly once,
/// appending its reading to the handler's log.
pub fn process_frame<H: MessageHandler>(handler: &mut Option<H>, feed: &FeedType, text: &str) -> (r:
    bool)
    ensures
        r == (spec_frame_event(*feed, text@) is Some),
        ((*final(handler)) is Some) == ((*old(handler)) is Some),
        (*old(handler)) is None ==> *final(handler) == *old(handler),
        (*old(handler)) matches Some(h0) ==> ((*final(handler)) matches Some(h1) && h1.log() == (
        match spec_frame_event(*feed, text@) {
            Some(n) => h0.log().push(n),
            None => h0.log(),
        })),
{
    match frame_event(feed, text) {
        Some(event) => {
            match handler.as_mut() {
                Some(h) => {
                    h.handle(event);
                },
                None => {},
            }
            true
        },
        None => false,
    }
}

} // verus!
