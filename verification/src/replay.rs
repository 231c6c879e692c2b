//! A transport that replays a fixed script of frames, and a handler that
//! records every event it is given. Together they let a session be driven
//! deterministically, with no socket anywhere; both account their traffic,
//! so the session's delivery contracts say something exact about them.

use vstd::prelude::*;
use crate::errors::VyperError;
use crate::json::{JsonValue, JsonNode, node_of, nodes_of};
use crate::protocol::strings_of;
use crate::session::{WebSocketConnection, MessageHandler};

verus! {

/// A transport whose inbound frames are written in advance. `receive`
/// replays them in order and then reports the stream as ended; what the
/// session writes is kept for inspection.
pub struct ScriptedConnection {
    frames: Vec<String>,
    next: usize,
    sent: Vec<String>,
    urls: Vec<String>,
    closes: u64,
    fail_connect: bool,
}

impl ScriptedConnection {
    /// A transport that will replay the given frames.
    pub fn with_frames(frames: Vec<String>) -> (r: ScriptedConnection)
        ensures
            r.sent() == Seq::<Seq<char>>::empty(),
            r.inbound() == strings_of(frames@),
            r.spec_close_count() == 0,
    {
        let r = ScriptedConnection {
            frames,
            next: 0,
            sent: Vec::new(),
            urls: Vec::new(),
            closes: 0,
            fail_connect: false,
        };
        proof {
            assert(r.frames@.skip(0) =~= r.frames@);
            assert(strings_of(r.sent@) =~= Seq::<Seq<char>>::empty());
        }
        r
    }

    /// A transport whose handshake always fails.
    pub fn refusing() -> (r: ScriptedConnection)
        ensures
            r.sent() == Seq::<Seq<char>>::empty(),
    {
        let r = ScriptedConnection {
            frames: Vec::new(),
            next: 0,
            sent: Vec::new(),
            urls: Vec::new(),
            closes: 0,
            fail_connect: true,
        };
        proof {
            assert(strings_of(r.sent@) =~= Seq::<Seq<char>>::empty());
        }
        r
    }

    /// How many times close was requested.
    pub closed spec fn spec_close_count(&self) -> nat {
        self.closes as nat
    }

    /// The frames written so far, in order.
    pub fn sent_frames(&self) -> (r: &Vec<String>)
        ensures
            strings_of(r@) == self.sent(),
    {
        &self.sent
    }

    /// The endpoints handshakes were attempted to, in order.
    pub fn urls(&self) -> (r: &Vec<String>) {
        &self.urls
    }

    /// How many times close was requested.
    pub fn close_count(&self) -> (r: u64)
        ensures
            r == self.spec_close_count(),
    {
        self.closes
    }
}

impl WebSocketConnection for ScriptedConnection {
    /// What remains of the script.
    closed spec fn inbound(&self) -> Seq<Seq<char>> {
        if self.next <= self.frames@.len() {
            strings_of(self.frames@.skip(self.next as int))
        } else {
            Seq::empty()
        }
    }

    /// Exactly the frames written.
    closed spec fn sent(&self) -> Seq<Seq<char>> {
        strings_of(self.sent@)
    }

    fn new() -> (r: ScriptedConnection) {
        ScriptedConnection {
            frames: Vec::new(),
            next: 0,
            sent: Vec::new(),
            urls: Vec::new(),
            closes: 0,
            fail_connect: false,
        }
    }

    fn connect(&mut self, url: &str) -> (r: Result<(), VyperError>) {
        self.urls.push(String::from_str(url));
        if self.fail_connect {
            Err(VyperError::websocket_error(String::from_str("Connection failed"), None, None))
        } else {
            Ok(())
        }
    }

    fn send(&mut self, data: &str) -> (r: Result<(), VyperError>)
        ensures
            r is Ok ==> final(self).sent() == old(self).sent().push(data@),
            r is Err ==> final(self).sent() == old(self).sent(),
    {
        let ghost sent0 = strings_of(self.sent@);
        self.sent.push(String::from_str(data));
        proof {
            assert(strings_of(self.sent@) =~= sent0.push(data@));
        }
        Ok(())
    }

    /// Yields the next scripted frame, or ends the stream once the script is
    /// spent: for this transport, successful reads happen exactly while
    /// frames remain.
    fn receive(&mut self) -> (r: Result<String, VyperError>)
        ensures
            r matches Ok(t) ==> old(self).inbound().len() > 0 && t@ == old(self).inbound()[0]
                && final(self).inbound() == old(self).inbound().skip(1),
            r is Err ==> final(self).inbound() == old(self).inbound()
                && final(self).inbound().len() == 0,
            r is Ok <==> old(self).inbound().len() > 0,
    {
        if self.next < self.frames.len() {
            let ghost in0 = self.inbound();
            let f = self.frames[self.next].clone();
            proof {
                assert(in0[0] == self.frames@.skip(self.next as int)[0]@);
                assert(self.frames@.skip(self.next as int)[0] == self.frames@[self.next as int]);
            }
            self.next = self.next + 1;
            proof {
                assert(self.frames@.skip(self.next as int) =~= self.frames@.skip(
                    self.next - 1 as int,
                ).skip(1));
                assert(self.inbound() =~= in0.skip(1));
            }
            Ok(f)
        } else {
            Err(VyperError::websocket_error(
                String::from_str("WebSocket stream ended"),
                None,
                None,
            ))
        }
    }

    /// Records one close request and reports it successful.
    fn close(&mut self) -> (r: Result<(), VyperError>)
        ensures
            r is Ok,
            old(self).spec_close_count() < u64::MAX ==> final(self).spec_close_count() == old(
                self,
            ).spec_close_count() + 1,
            final(self).inbound() == old(self).inbound(),
            final(self).sent() == old(self).sent(),
    {
        if self.closes < u64::MAX {
            self.closes = self.closes + 1;
        }
        Ok(())
    }
}

/// A handler that keeps every event it is given, in delivery order.
pub struct RecordingHandler {
    events: Vec<JsonValue>,
}

impl RecordingHandler {
    /// The events delivered so far.
    pub closed spec fn spec_events(&self) -> Seq<JsonValue> {
        self.events@
    }

    /// A recorder with no events yet.
    pub fn new() -> (r: RecordingHandler)
        ensures
            r.spec_events().len() == 0,
            r.log() == Seq::<JsonNode>::empty(),
    {
        let r = RecordingHandler { events: Vec::new() };
        proof {
            assert(nodes_of(r.events@) =~= Seq::<JsonNode>::empty());
        }
        r
    }

    /// The events delivered so far, in order.
    pub fn events(&self) -> (r: &Vec<JsonValue>)
        ensures
            r@ == self.spec_events(),
            nodes_of(r@) == self.log(),
    {
        &self.events
    }
}

impl MessageHandler for RecordingHandler {
    /// The readings of the kept events.
    closed spec fn log(&self) -> Seq<JsonNode> {
        nodes_of(self.events@)
    }

    fn handle(&mut self, event: JsonValue)
        ensures
            final(self).log() == old(self).log().push(node_of(event)),
    {
        let ghost n = node_of(event);
        self.events.push(event);
        proof {
            assert(nodes_of(self.events@) =~= nodes_of(old(self).events@).push(n));
        }
    }
}

} // verus!
