use vstd::prelude::*;
use vstd::string::*;
use valence_protocol::PacketDecoder;
use crate::codec::{
    Frame, block_update_of, bytes_view, chat_frame, chat_message_of, chunk_of,
    compression_of, decode_block_update, decode_chat_message, decode_chunk, decode_compression,
    decode_disconnect, decode_game_message, decode_keep_alive, decode_login_disconnect,
    decode_login_success, decoder_failed, decoder_threshold, disconnect_of, encode_chat, encode_handshake,
    encode_keep_alive, encode_login_hello, game_message_of, handshake_frame, keep_alive_frame,
    keep_alive_of, lit_of, lit_property, login_disconnect_of, login_hello_frame, login_success_ok,
    new_decoder, pending_bytes, queue_bytes, set_decoder_threshold, split_frame, try_next_frame,
};
use crate::events::{ApplicationEvent, EventView, events_view};
use crate::session::{ConnectionState, Inbound, InboundView, Outbound, OutboundView, Session, react};

verus! {

/// The protocol version that the handshake declares.
pub const PROTOCOL_VERSION: i32 = 763;

/// Packet identifiers of the login phase.
pub const LOGIN_DISCONNECT_ID: i32 = 0x00;
pub const LOGIN_SUCCESS_ID: i32 = 0x02;
pub const LOGIN_COMPRESSION_ID: i32 = 0x03;

/// Packet identifiers of the play phase.
pub const BLOCK_UPDATE_ID: i32 = 0x0a;
pub const DISCONNECT_ID: i32 = 0x1a;
pub const KEEP_ALIVE_ID: i32 = 0x23;
pub const CHUNK_DATA_ID: i32 = 0x24;
pub const CHAT_MESSAGE_ID: i32 = 0x35;
pub const GAME_MESSAGE_ID: i32 = 0x64;

/// The reason given when a frame cannot be decoded.
pub open spec fn decode_failure_reason() -> Seq<char> {
    "decode failure"@
}

/// The reason given when the server closes the stream.
pub open spec fn server_closed_reason() -> Seq<char> {
    "server closed connection"@
}

/// The reason given when a reply cannot be encoded.
pub open spec fn encode_failure_reason() -> Seq<char> {
    "encode failure"@
}

/// A chat packet for the text, where the text was read.
pub open spec fn text_inbound(t: Option<Seq<char>>) -> Option<InboundView> {
    match t {
        Some(s) => Some(InboundView::Chat(s)),
        None => None,
    }
}

/// The packet that a frame with identifier `id` and bytes `body` carries,
/// read by the phase that `state` is in; `None` when it is malformed.
pub open spec fn inbound_of(state: ConnectionState, id: i32, body: Seq<u8>) -> Option<InboundView> {
    match state {
        ConnectionState::LoginSent => if id == LOGIN_DISCONNECT_ID {
            match login_disconnect_of(body) {
                Some(r) => Some(InboundView::Disconnect(r)),
                None => None,
            }
        } else if id == LOGIN_SUCCESS_ID {
            if login_success_ok(body) {
                Some(InboundView::LoginSuccess)
            } else {
                None
            }
        } else if id == LOGIN_COMPRESSION_ID {
            match compression_of(body) {
                Some(t) => Some(InboundView::Compression(t)),
                None => None,
            }
        } else {
            Some(InboundView::Ignored)
        },
        ConnectionState::Play => if id == DISCONNECT_ID {
            match disconnect_of(body) {
                Some(r) => Some(InboundView::Disconnect(r)),
                None => None,
            }
        } else if id == KEEP_ALIVE_ID {
            match keep_alive_of(body) {
                Some(k) => Some(InboundView::KeepAlive(k)),
                None => None,
            }
        } else if id == CHAT_MESSAGE_ID {
            text_inbound(chat_message_of(body))
        } else if id == GAME_MESSAGE_ID {
            text_inbound(game_message_of(body))
        } else if id == BLOCK_UPDATE_ID {
            match block_update_of(body) {
                Some(s) => Some(InboundView::BlockUpdate(lit_of(s))),
                None => None,
            }
        } else if id == CHUNK_DATA_ID {
            match chunk_of(body) {
                Some(c) => Some(InboundView::Chunk(c.0, c.1, c.2)),
                None => None,
            }
        } else {
            Some(InboundView::Ignored)
        },
        _ => Some(InboundView::Ignored),
    }
}

/// The view of an optional inbound packet.
pub open spec fn inbound_view(p: Option<Inbound>) -> Option<InboundView> {
    match p {
        Some(q) => Some(q@),
        None => None,
    }
}

fn text_packet(t: Option<String>) -> (r: Option<Inbound>)
    ensures
        inbound_view(r) == text_inbound(crate::session::reason_view(t)),
{
    match t {
        Some(s) => Some(Inbound::Chat(s)),
        None => None,
    }
}

/// Reads the packet that a frame carries, by the phase that `state` is in.
pub fn decode_inbound(state: ConnectionState, frame: &Frame) -> (r: Option<Inbound>)
    ensures
        inbound_view(r) == inbound_of(state, frame.id, frame.body@),
{
    let id = frame.id;
    let body = &frame.body;
    match state {
        ConnectionState::LoginSent => if id == LOGIN_DISCONNECT_ID {
            match decode_login_disconnect(body) {
                Some(r) => Some(Inbound::Disconnect(r)),
                None => None,
            }
        } else if id == LOGIN_SUCCESS_ID {
            if decode_login_success(body) {
                Some(Inbound::LoginSuccess)
            } else {
                None
            }
        } else if id == LOGIN_COMPRESSION_ID {
            match decode_compression(body) {
                Some(t) => Some(Inbound::Compression(t)),
                None => None,
            }
        } else {
            Some(Inbound::Ignored)
        },
        ConnectionState::Play => if id == DISCONNECT_ID {
            match decode_disconnect(body) {
                Some(r) => Some(Inbound::Disconnect(r)),
                None => None,
            }
        } else if id == KEEP_ALIVE_ID {
            match decode_keep_alive(body) {
                Some(k) => Some(Inbound::KeepAlive(k)),
                None => None,
            }
        } else if id == CHAT_MESSAGE_ID {
            text_packet(decode_chat_message(body))
        } else if id == GAME_MESSAGE_ID {
            text_packet(decode_game_message(body))
        } else if id == BLOCK_UPDATE_ID {
            match decode_block_update(body) {
                Some(s) => Some(Inbound::BlockUpdate(lit_property(s))),
                None => None,
            }
        } else if id == CHUNK_DATA_ID {
            let c = decode_chunk(body);
            match c {
                Some(c) => Some(Inbound::Chunk(c)),
                None => None,
            }
        } else {
            Some(Inbound::Ignored)
        },
        _ => Some(Inbound::Ignored),
    }
}

/// The wire bytes of a reply under a compression threshold.
pub open spec fn outbound_frame(threshold: Option<u32>, o: OutboundView) -> Option<Seq<u8>> {
    match o {
        OutboundView::KeepAlive(k) => keep_alive_frame(threshold, k),
        OutboundView::Chat(t) => chat_frame(threshold, t),
    }
}

/// Encodes a reply under a compression threshold.
pub fn encode_outbound(threshold: Option<u32>, o: &Outbound) -> (r: Option<Vec<u8>>)
    ensures
        bytes_view(r) == outbound_frame(threshold, o@),
{
    match o {
        Outbound::KeepAlive(k) => encode_keep_alive(threshold, *k),
        Outbound::Chat(t) => encode_chat(threshold, t.as_str()),
    }
}

/// Whether an event log keeps the lifecycle order: `Connected` can stand only
/// first, and `Disconnected` only last.
pub open spec fn log_ok(log: Seq<EventView>) -> bool {
    &&& forall|i: int| 0 < i < log.len() ==> !(#[trigger] log[i] is Connected)
    &&& forall|i: int| 0 <= i < log.len() - 1 ==> !(#[trigger] log[i] is Disconnected)
}

/// Whether an event is published by the dispatcher, as opposed to the
/// lifecycle.
pub open spec fn is_packet_event(e: EventView) -> bool {
    !(e is Connected) && !(e is Disconnected)
}

/// The mathematical value of a [`Connection`].
pub struct ConnectionView {
    pub state: ConnectionState,
    pub threshold: Option<u32>,
    /// Every event published so far, in order.
    pub log: Seq<EventView>,
    /// Bytes received and not yet taken as frames.
    pub pending: Seq<u8>,
    /// The compression threshold that inbound frames are decoded with.
    pub read_threshold: Option<u32>,
}

/// What a call asks of its caller: the events to publish, in order, then the
/// byte strings to write to the server, in order.
pub struct Step {
    pub events: Vec<ApplicationEvent>,
    pub sends: Vec<Vec<u8>>,
}

/// The effect of one call on the connection's view.
pub struct Outcome {
    pub state: ConnectionState,
    pub threshold: Option<u32>,
    pub events: Seq<EventView>,
    pub sends: Seq<Seq<u8>>,
}

/// The views of byte strings to be written, in order.
pub open spec fn sends_view(sends: Seq<Vec<u8>>) -> Seq<Seq<u8>> {
    sends.map_values(|b: Vec<u8>| b@)
}

/// An outcome that publishes `events`, then ends the connection for `reason`.
pub open spec fn ending(threshold: Option<u32>, events: Seq<EventView>, reason: Seq<char>) -> Outcome {
    Outcome {
        state: ConnectionState::Disconnected,
        threshold,
        events: events.push(EventView::Disconnected(reason)),
        sends: Seq::empty(),
    }
}

/// What a connection in `v` does with a frame with identifier `id` and bytes
/// `body`.
pub open spec fn frame_outcome(v: ConnectionView, id: i32, body: Seq<u8>) -> Outcome {
    let quiet = Outcome { state: v.state, threshold: v.threshold, events: Seq::empty(), sends: Seq::empty() };
    if v.state == ConnectionState::Disconnected {
        quiet
    } else {
        match inbound_of(v.state, id, body) {
            None => ending(v.threshold, Seq::empty(), decode_failure_reason()),
            Some(p) => {
                let r = react(v.state, v.threshold, p);
                match r.end {
                    Some(reason) => ending(r.threshold, r.events, reason),
                    None => match r.reply {
                        None => Outcome { state: r.state, threshold: r.threshold, events: r.events, sends: Seq::empty() },
                        Some(o) => match outbound_frame(r.threshold, o) {
                            Some(b) => Outcome {
                                state: r.state,
                                threshold: r.threshold,
                                events: r.events,
                                sends: seq![b],
                            },
                            None => ending(r.threshold, r.events, encode_failure_reason()),
                        },
                    },
                }
            },
        }
    }
}

/// What a connection in `v` does when the socket has opened: announce it,
/// then send the handshake and the login start.
pub open spec fn open_outcome(v: ConnectionView, address: Seq<char>, port: u16, name: Seq<char>) -> Outcome {
    let connected = seq![EventView::Connected];
    if v.state != ConnectionState::Connecting || v.log.len() != 0 {
        Outcome { state: v.state, threshold: v.threshold, events: Seq::empty(), sends: Seq::empty() }
    } else {
        match handshake_frame(PROTOCOL_VERSION, address, port) {
            None => ending(v.threshold, connected, encode_failure_reason()),
            Some(h) => match login_hello_frame(name) {
                None => ending(v.threshold, connected, encode_failure_reason()),
                Some(l) => Outcome {
                    state: ConnectionState::LoginSent,
                    threshold: v.threshold,
                    events: connected,
                    sends: seq![h, l],
                },
            },
        }
    }
}

/// What [`Connection::next_frame`] found.
pub enum Next {
    /// A complete frame, taken off the buffer.
    Frame(Frame),
    /// No complete frame is buffered, or the connection is closed.
    NeedMore,
    /// The buffer holds a malformed frame; the connection is now closed, and
    /// these events are to be published.
    Failed(Vec<ApplicationEvent>),
}

/// One connection to a server: the session state, the frame decoder, and the
/// events published so far.
pub struct Connection {
    session: Session,
    decoder: PacketDecoder,
    announced: bool,
    log: Ghost<Seq<EventView>>,
}

impl View for Connection {
    type V = ConnectionView;

    closed spec fn view(&self) -> ConnectionView {
        ConnectionView {
            state: self.session.state,
            threshold: self.session.threshold,
            log: self.log@,
            pending: pending_bytes(self.decoder),
            read_threshold: decoder_threshold(self.decoder),
        }
    }
}

impl Connection {
    /// The connection's internal consistency: the decoder applies the
    /// session's threshold, and the log is in lifecycle order and ends in
    /// `Disconnected` exactly when the connection is closed.
    pub closed spec fn wf(&self) -> bool {
        let log = self.log@;
        &&& log_ok(log)
        &&& decoder_threshold(self.decoder) == self.session.threshold
        &&& self.session.state != ConnectionState::Disconnected ==> !decoder_failed(self.decoder)
        &&& (self.session.state == ConnectionState::Disconnected) == (log.len() > 0 && log.last() is Disconnected)
        &&& self.announced == (log.len() > 0 && log[0] is Connected)
        &&& (!self.announced && self.session.state != ConnectionState::Disconnected) ==> log.len() == 0
        &&& (self.session.state != ConnectionState::Connecting && self.session.state
            != ConnectionState::Disconnected) ==> self.announced
    }

    /// A connection that is being set up: nothing sent, nothing published.
    pub fn new() -> (c: Connection)
        ensures
            c.wf(),
            c@.state == ConnectionState::Connecting,
            c@.threshold == None::<u32>,
            c@.log == Seq::<EventView>::empty(),
            c@.pending == Seq::<u8>::empty(),
    {
        Connection {
            session: Session { state: ConnectionState::Connecting, threshold: None },
            decoder: new_decoder(),
            announced: false,
            log: Ghost(Seq::empty()),
        }
    }

    /// The phase the connection is in.
    pub fn state(&self) -> (r: ConnectionState)
        ensures
            r == self@.state,
    {
        self.session.state
    }

    /// The compression threshold in force, if any.
    pub fn threshold(&self) -> (r: Option<u32>)
        ensures
            r == self@.threshold,
    {
        self.session.threshold
    }

    /// Whether the connection has ended.
    pub fn is_closed(&self) -> (r: bool)
        ensures
            r == (self@.state == ConnectionState::Disconnected),
    {
        self.session.state == ConnectionState::Disconnected
    }

    /// Ends the connection for `reason`, publishing `Disconnected(reason)`;
    /// nothing happens on a connection that is already closed.
    pub fn close(&mut self, reason: String) -> (r: Vec<ApplicationEvent>)
        requires
            old(self).wf(),
        ensures
            final(self).wf(),
            final(self)@.log == old(self)@.log + events_view(r@),
            final(self)@.threshold == old(self)@.threshold,
            final(self)@.pending == old(self)@.pending,
            final(self)@.state == ConnectionState::Disconnected,
            old(self)@.state == ConnectionState::Disconnected ==> r@.len() == 0,
            old(self)@.state != ConnectionState::Disconnected ==> events_view(r@) == seq![EventView::Disconnected(reason@)],
    {
        let mut r: Vec<ApplicationEvent> = Vec::new();
        if self.session.state != ConnectionState::Disconnected {
            r.push(ApplicationEvent::Disconnected(reason));
            self.session.state = ConnectionState::Disconnected;
        }
        proof {
            let old_log = self.log@;
            self.log = Ghost(old_log + events_view(r@));
            assert(events_view(r@) =~= if old(self)@.state == ConnectionState::Disconnected {
                Seq::<EventView>::empty()
            } else {
                seq![EventView::Disconnected(reason@)]
            });
            assert(self.log@.len() > 0 && self.log@.last() is Disconnected);
            assert(old_log.len() > 0 ==> self.log@[0] == old_log[0]);
        }
        r
    }

    /// Publishes events and records them in the log.
    fn publish(&mut self, events: &Vec<ApplicationEvent>)
        ensures
            final(self).session == old(self).session,
            final(self).decoder == old(self).decoder,
            final(self).announced == old(self).announced,
            final(self).log@ == old(self).log@ + events_view(events@),
    {
        proof {
            self.log = Ghost(self.log@ + events_view(events@));
        }
    }

    /// The socket has opened: publishes `Connected`, and hands back the
    /// handshake (for `address` and `port`) and then the login start (for
    /// `name`), to be written in that order. Does nothing unless the
    /// connection is still being set up and has published nothing.
    pub fn open(&mut self, address: &str, port: u16, name: &str) -> (r: Step)
        requires
            old(self).wf(),
        ensures
            final(self).wf(),
            ({
                let o = open_outcome(old(self)@, address@, port, name@);
                &&& final(self)@.state == o.state
                &&& final(self)@.threshold == o.threshold
                &&& events_view(r.events@) == o.events
                &&& sends_view(r.sends@) == o.sends
            }),
            final(self)@.log == old(self)@.log + events_view(r.events@),
            final(self)@.pending == old(self)@.pending,
    {
        let mut sends: Vec<Vec<u8>> = Vec::new();
        let mut events: Vec<ApplicationEvent> = Vec::new();
        if self.session.state != ConnectionState::Connecting || self.announced {
            proof {
                assert(old(self)@.state == ConnectionState::Connecting ==> old(self)@.log.len() != 0);
                assert(sends_view(sends@) =~= Seq::<Seq<u8>>::empty());
                assert(events_view(events@) =~= Seq::<EventView>::empty());
                assert(old(self)@.log + events_view(events@) =~= old(self)@.log);
            }
            return Step { events, sends };
        }
        events.push(ApplicationEvent::Connected);
        self.publish(&events);
        self.announced = true;
        proof {
            assert(events_view(events@) =~= seq![EventView::Connected]);
        }
        match encode_handshake(PROTOCOL_VERSION, address, port) {
            None => {
                let mut more = self.close(String::from_str("encode failure"));
                events.append(&mut more);
                proof {
                    assert(events_view(events@) =~= seq![EventView::Connected, EventView::Disconnected(encode_failure_reason())]);
                    assert(sends_view(sends@) =~= Seq::<Seq<u8>>::empty());
                }
                Step { events, sends }
            },
            Some(h) => {
                self.session.state = ConnectionState::HandshakeSent;
                sends.push(h);
                match encode_login_hello(name) {
                    None => {
                        let mut more = self.close(String::from_str("encode failure"));
                        events.append(&mut more);
                        proof {
                            assert(events_view(events@) =~= seq![EventView::Connected, EventView::Disconnected(encode_failure_reason())]);
                        }
                        let sends: Vec<Vec<u8>> = Vec::new();
                        proof {
                            assert(sends_view(sends@) =~= Seq::<Seq<u8>>::empty());
                        }
                        Step { events, sends }
                    },
                    Some(l) => {
                        sends.push(l);
                        self.session.state = ConnectionState::LoginSent;
                        proof {
                            assert(sends_view(sends@) =~= seq![h@, l@]);
                        }
                        Step { events, sends }
                    },
                }
            },
        }
    }

    /// Adds bytes read from the server to the frame buffer; a closed
    /// connection ignores them.
    pub fn receive(&mut self, bytes: &[u8])
        requires
            old(self).wf(),
        ensures
            final(self).wf(),
            final(self)@.state == old(self)@.state,
            final(self)@.threshold == old(self)@.threshold,
            final(self)@.log == old(self)@.log,
            old(self)@.state != ConnectionState::Disconnected ==> final(self)@.pending == old(self)@.pending + bytes@,
            old(self)@.state == ConnectionState::Disconnected ==> final(self)@.pending == old(self)@.pending,
            final(self)@.read_threshold == old(self)@.read_threshold,
            split_frame(old(self)@.pending, old(self)@.read_threshold) != Some(None::<(i32, Seq<u8>, nat)>)
                ==> split_frame(final(self)@.pending, final(self)@.read_threshold)
                == split_frame(old(self)@.pending, old(self)@.read_threshold),
    {
        if self.session.state != ConnectionState::Disconnected {
            queue_bytes(&mut self.decoder, bytes);
        }
    }

    /// Takes the next complete frame off the buffer, as `split_frame` reads
    /// it under the threshold in force: `Frame` when one is complete,
    /// `NeedMore` when none is yet (or the connection is closed), and
    /// `Failed` when the first frame is malformed, which ends the connection
    /// with the reason "decode failure".
    pub fn next_frame(&mut self) -> (r: Next)
        requires
            old(self).wf(),
        ensures
            final(self).wf(),
            final(self)@.threshold == old(self)@.threshold,
            final(self)@.read_threshold == old(self)@.read_threshold,
            old(self)@.state == ConnectionState::Disconnected ==> r is NeedMore && final(self)@ == old(self)@,
            old(self)@.state != ConnectionState::Disconnected ==> ({
                let s = split_frame(old(self)@.pending, old(self)@.read_threshold);
                &&& s is None ==> r is Failed && final(self)@.state == ConnectionState::Disconnected
                    && events_view(r->Failed_0@) == seq![EventView::Disconnected(decode_failure_reason())]
                    && final(self)@.log == old(self)@.log + events_view(r->Failed_0@)
                &&& s == Some(None::<(i32, Seq<u8>, nat)>) ==> r is NeedMore && final(self)@ == old(self)@
                &&& s matches Some(Some(f)) ==> r is Frame && r->Frame_0.id == f.0 && r->Frame_0.body@ == f.1
                    && final(self)@.pending == old(self)@.pending.skip(f.2 as int)
                    && 0 < f.2 <= old(self)@.pending.len()
                    && final(self)@.state == old(self)@.state && final(self)@.log == old(self)@.log
            }),
            old(self)@.pending.len() == 0 ==> r is NeedMore && final(self)@ == old(self)@,
    {
        if self.session.state == ConnectionState::Disconnected {
            return Next::NeedMore;
        }
        match try_next_frame(&mut self.decoder) {
            Ok(Some(f)) => Next::Frame(f),
            Ok(None) => Next::NeedMore,
            Err(()) => {
                // The decoder may now hold scratch bytes: the connection ends
                // here, so it is never asked for another frame.
                let mut events: Vec<ApplicationEvent> = Vec::new();
                events.push(ApplicationEvent::Disconnected(String::from_str("decode failure")));
                self.session.state = ConnectionState::Disconnected;
                self.publish(&events);
                proof {
                    let log = self.log@;
                    let n = old(self).log@.len() as int;
                    assert(events_view(events@) =~= seq![EventView::Disconnected(decode_failure_reason())]);
                    assert(log[n] is Disconnected);
                    assert(forall|i: int| 0 <= i < n ==> log[i] == old(self).log@[i]);
                    assert(n > 0 ==> log[0] == old(self).log@[0]);
                }
                Next::Failed(events)
            },
        }
    }

    /// The server has closed the stream: ends the connection with the reason
    /// "server closed connection".
    pub fn end_of_stream(&mut self) -> (r: Vec<ApplicationEvent>)
        requires
            old(self).wf(),
        ensures
            final(self).wf(),
            final(self)@.log == old(self)@.log + events_view(r@),
            final(self)@.threshold == old(self)@.threshold,
            final(self)@.pending == old(self)@.pending,
            final(self)@.state == ConnectionState::Disconnected,
            old(self)@.state == ConnectionState::Disconnected ==> r@.len() == 0,
            old(self)@.state != ConnectionState::Disconnected ==> events_view(r@) == seq![EventView::Disconnected(server_closed_reason())],
    {
        self.close(String::from_str("server closed connection"))
    }

    /// Dispatches one frame: the events to publish and the reply to write,
    /// as `frame_outcome` gives them.
    pub fn handle_frame(&mut self, frame: &Frame) -> (r: Step)
        requires
            old(self).wf(),
        ensures
            final(self).wf(),
            ({
                let o = frame_outcome(old(self)@, frame.id, frame.body@);
                &&& final(self)@.state == o.state
                &&& final(self)@.threshold == o.threshold
                &&& events_view(r.events@) == o.events
                &&& sends_view(r.sends@) == o.sends
            }),
            final(self)@.log == old(self)@.log + events_view(r.events@),
            final(self)@.pending == old(self)@.pending,
    {
        let mut sends: Vec<Vec<u8>> = Vec::new();
        if self.session.state == ConnectionState::Disconnected {
            let events: Vec<ApplicationEvent> = Vec::new();
            proof {
                assert(sends_view(sends@) =~= Seq::<Seq<u8>>::empty());
                assert(events_view(events@) =~= Seq::<EventView>::empty());
                assert(old(self)@.log + events_view(events@) =~= old(self)@.log);
            }
            return Step { events, sends };
        }
        let p = match decode_inbound(self.session.state, frame) {
            Some(p) => p,
            None => {
                let events = self.close(String::from_str("decode failure"));
                proof {
                    assert(sends_view(sends@) =~= Seq::<Seq<u8>>::empty());
                    assert(events_view(events@) =~= Seq::<EventView>::empty().push(
                        EventView::Disconnected(decode_failure_reason()),
                    ));
                }
                return Step { events, sends };
            },
        };
        let reaction = self.session.handle(p);
        set_decoder_threshold(&mut self.decoder, self.session.threshold);
        let mut events = reaction.events;
        proof {
            assert forall|i: int| 0 <= i < events_view(events@).len() implies is_packet_event(
                #[trigger] events_view(events@)[i],
            ) by {}
        }
        self.publish(&events);
        proof {
            let log = self.log@;
            let n = old(self).log@.len();
            assert forall|i: int| 0 < i < log.len() implies !(#[trigger] log[i] is Connected) by {
                if i >= n {
                    assert(is_packet_event(events_view(events@)[i - n]));
                }
            }
            assert forall|i: int| 0 <= i < log.len() - 1 implies !(#[trigger] log[i] is Disconnected) by {
                if i >= n {
                    assert(is_packet_event(events_view(events@)[i - n]));
                } else {
                    assert(old(self).log@[i] == log[i]);
                }
            }
            assert(n > 0 ==> log[0] == old(self).log@[0]);
        }
        if let Some(reason) = reaction.end {
            let mut more = self.close(reason);
            let ghost before = events@;
            let ghost m = more@;
            events.append(&mut more);
            proof {
                assert(events_view(events@) =~= events_view(before) + events_view(m));
                assert(sends_view(sends@) =~= Seq::<Seq<u8>>::empty());
            }
            return Step { events, sends };
        }
        let reply = match reaction.reply {
            Some(o) => o,
            None => {
                proof {
                    assert(sends_view(sends@) =~= Seq::<Seq<u8>>::empty());
                }
                return Step { events, sends };
            },
        };
        let encoded = encode_outbound(self.session.threshold, &reply);
        if let Some(b) = encoded {
            sends.push(b);
            proof {
                assert(sends_view(sends@) =~= seq![b@]);
            }
            return Step { events, sends };
        }
        let mut more = self.close(String::from_str("encode failure"));
        let ghost before = events@;
        let ghost m = more@;
        events.append(&mut more);
        proof {
            assert(events_view(events@) =~= events_view(before) + events_view(m));
            assert(sends_view(sends@) =~= Seq::<Seq<u8>>::empty());
        }
        Step { events, sends }
    }
}

/// The threshold that inbound frames are decoded under is always the one
/// that replies are encoded under (`threshold`, see `frame_outcome`). This
/// states only that the two thresholds agree; that encoding and decoding
/// under one threshold give back the original bytes is the codec's.
pub proof fn lemma_same_threshold_both_ways(c: &Connection)
    requires
        c.wf(),
    ensures
        c@.read_threshold == c@.threshold,
{
}

/// Keep-alive echo: in the play phase, a well-formed keep-alive ping with
/// identifier `k` publishes nothing, leaves the session as it was, and
/// sends exactly one packet, the pong with the same identifier.
pub proof fn lemma_keep_alive_echo(v: ConnectionView, body: Seq<u8>, k: u64)
    requires
        v.state == ConnectionState::Play,
        keep_alive_of(body) == Some(k),
    ensures
        ({
            let o = frame_outcome(v, KEEP_ALIVE_ID, body);
            keep_alive_frame(v.threshold, k) is Some ==> {
                &&& o.sends == seq![keep_alive_frame(v.threshold, k)->Some_0]
                &&& o.events.len() == 0
                &&& o.state == v.state
                &&& o.threshold == v.threshold
            }
        }),
{
}

/// Lamp mapping: in the play phase, a well-formed block update publishes
/// exactly one event, `LampOn` when the block's `lit` property is present and
/// true, `LampOff` otherwise, and sends nothing.
pub proof fn lemma_lamp_mapping(v: ConnectionView, body: Seq<u8>, raw: i32)
    requires
        v.state == ConnectionState::Play,
        block_update_of(body) == Some(raw),
    ensures
        ({
            let o = frame_outcome(v, BLOCK_UPDATE_ID, body);
            &&& o.events == if lit_of(raw) == Some(true) {
                seq![EventView::LampOn]
            } else {
                seq![EventView::LampOff]
            }
            &&& o.sends.len() == 0
            &&& o.state == v.state
        }),
{
}

/// Terminal ordering: whatever calls a connection has gone through, its log
/// holds at most one `Connected` and at most one `Disconnected`; a
/// `Disconnected` is the last event; and the log ends in `Disconnected`
/// exactly when the connection is closed, after which no call publishes
/// anything.
pub proof fn lemma_terminal_ordering(c: &Connection)
    requires
        c.wf(),
    ensures
        forall|i: int, j: int|
            0 <= i < c@.log.len() && 0 <= j < c@.log.len() && #[trigger] c@.log[i] is Connected
                && #[trigger] c@.log[j] is Connected ==> i == j,
        forall|i: int, j: int|
            0 <= i < c@.log.len() && 0 <= j < c@.log.len() && #[trigger] c@.log[i] is Disconnected
                && #[trigger] c@.log[j] is Disconnected ==> i == j,
        forall|i: int|
            0 <= i < c@.log.len() && #[trigger] c@.log[i] is Disconnected ==> i == c@.log.len() - 1,
        (c@.state == ConnectionState::Disconnected) == (c@.log.len() > 0 && c@.log.last() is Disconnected),
{
    let log = c@.log;
    assert forall|i: int, j: int|
        0 <= i < log.len() && 0 <= j < log.len() && #[trigger] log[i] is Connected
            && #[trigger] log[j] is Connected implies i == j by {
        assert(i == 0 && j == 0);
    }
    assert forall|i: int, j: int|
        0 <= i < log.len() && 0 <= j < log.len() && #[trigger] log[i] is Disconnected
            && #[trigger] log[j] is Disconnected implies i == j by {
        assert(i == log.len() - 1 && j == log.len() - 1);
    }
}

} // verus!
