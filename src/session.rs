use vstd::prelude::*;
use vstd::string::*;
use crate::events::{ApplicationEvent, ChunkBlockData, EventView, events_view};

verus! {

/// Where a connection stands. It moves strictly forward, except that any
/// terminal condition leads to `Disconnected`.
#[derive(Clone, Copy, Debug, PartialEq, Eq, Structural)]
pub enum ConnectionState {
    Disconnected,
    Connecting,
    HandshakeSent,
    LoginSent,
    Play,
}

/// An inbound packet, by the kind that the dispatcher reacts to.
#[derive(Clone, Debug, PartialEq, Eq)]
pub enum Inbound {
    /// The server's compression threshold.
    Compression(i32),
    LoginSuccess,
    /// The server closes the connection, with its reason.
    Disconnect(String),
    KeepAlive(u64),
    /// Chat or system text.
    Chat(String),
    /// A block changed; the value of its `lit` property, where it has one.
    BlockUpdate(Option<bool>),
    Chunk(ChunkBlockData),
    /// Any other packet: it has no effect.
    Ignored,
}

/// The mathematical value of an [`Inbound`] packet.
pub enum InboundView {
    Compression(i32),
    LoginSuccess,
    Disconnect(Seq<char>),
    KeepAlive(u64),
    Chat(Seq<char>),
    BlockUpdate(Option<bool>),
    Chunk(i32, i32, Seq<u8>),
    Ignored,
}

impl View for Inbound {
    type V = InboundView;

    open spec fn view(&self) -> InboundView {
        match self {
            Inbound::Compression(t) => InboundView::Compression(*t),
            Inbound::LoginSuccess => InboundView::LoginSuccess,
            Inbound::Disconnect(r) => InboundView::Disconnect(r@),
            Inbound::KeepAlive(k) => InboundView::KeepAlive(*k),
            Inbound::Chat(t) => InboundView::Chat(t@),
            Inbound::BlockUpdate(l) => InboundView::BlockUpdate(*l),
            Inbound::Chunk(c) => InboundView::Chunk(c.pos.x, c.pos.z, c.blocks@),
            Inbound::Ignored => InboundView::Ignored,
        }
    }
}

/// A packet that the client sends in reply to an inbound one.
#[derive(Clone, Debug, PartialEq, Eq)]
pub enum Outbound {
    KeepAlive(u64),
    Chat(String),
}

/// The mathematical value of an [`Outbound`] packet.
pub enum OutboundView {
    KeepAlive(u64),
    Chat(Seq<char>),
}

impl View for Outbound {
    type V = OutboundView;

    open spec fn view(&self) -> OutboundView {
        match self {
            Outbound::KeepAlive(k) => OutboundView::KeepAlive(*k),
            Outbound::Chat(t) => OutboundView::Chat(t@),
        }
    }
}

/// The view of an optional reply.
pub open spec fn reply_view(o: Option<Outbound>) -> Option<OutboundView> {
    match o {
        Some(p) => Some(p@),
        None => None,
    }
}

/// The view of an optional text.
pub open spec fn reason_view(o: Option<String>) -> Option<Seq<char>> {
    match o {
        Some(s) => Some(s@),
        None => None,
    }
}

/// What one inbound packet leads to.
pub struct Reaction {
    pub events: Vec<ApplicationEvent>,
    pub reply: Option<Outbound>,
    /// Set when the packet ends the connection, with the reason.
    pub end: Option<String>,
}

/// The mathematical value of a [`Reaction`], with the session state after it.
pub struct ReactionView {
    pub state: ConnectionState,
    pub threshold: Option<u32>,
    pub events: Seq<EventView>,
    pub reply: Option<OutboundView>,
    pub end: Option<Seq<char>>,
}

/// The phrase in chat text that the client answers.
pub open spec fn reply_trigger() -> Seq<char> {
    "How are you?"@
}

/// The client's answer to a chat text that holds the trigger phrase.
pub open spec fn canned_reply() -> Seq<char> {
    "I feel good. I'm running at 240 MHz."@
}

/// The reason given when the server asks to close the connection.
pub open spec fn server_disconnect_reason(reason: Seq<char>) -> Seq<char> {
    "disconnected by server: "@ + reason
}

/// The reason given when the server changes an established compression
/// threshold.
pub open spec fn threshold_changed_reason() -> Seq<char> {
    "protocol error: compression threshold changed"@
}

/// Whether `needle` occurs in `hay` as a contiguous run.
pub open spec fn seq_contains(hay: Seq<char>, needle: Seq<char>) -> bool {
    exists|i: int|
        0 <= i && i + needle.len() <= hay.len() && #[trigger] hay.subrange(i, i + needle.len())
            == needle
}

/// The threshold that a compression notice of value `t` leads to, from
/// `current`: `None` when the notice conflicts with an established one.
pub open spec fn next_threshold(current: Option<u32>, t: i32) -> Option<Option<u32>> {
    match current {
        None => if t < 0 {
            Some(None)
        } else {
            Some(Some(t as u32))
        },
        Some(c) => if t >= 0 && c == t as u32 {
            Some(Some(c))
        } else {
            None
        },
    }
}

/// The reaction of a session in `state`, with compression `threshold`, to the
/// inbound packet `p`.
pub open spec fn react(state: ConnectionState, threshold: Option<u32>, p: InboundView) -> ReactionView {
    let none = ReactionView {
        state,
        threshold,
        events: Seq::empty(),
        reply: None,
        end: None,
    };
    match p {
        InboundView::Compression(t) => match next_threshold(threshold, t) {
            Some(n) => ReactionView { threshold: n, ..none },
            None => ReactionView { end: Some(threshold_changed_reason()), ..none },
        },
        InboundView::LoginSuccess => if state == ConnectionState::LoginSent {
            ReactionView { state: ConnectionState::Play, ..none }
        } else {
            none
        },
        InboundView::Disconnect(r) => ReactionView {
            end: Some(server_disconnect_reason(r)),
            ..none
        },
        InboundView::KeepAlive(k) => ReactionView { reply: Some(OutboundView::KeepAlive(k)), ..none },
        InboundView::Chat(t) => ReactionView {
            events: seq![EventView::ChatMessage(t)],
            reply: if seq_contains(t, reply_trigger()) {
                Some(OutboundView::Chat(canned_reply()))
            } else {
                None
            },
            ..none
        },
        InboundView::BlockUpdate(lit) => ReactionView {
            events: if lit == Some(true) {
                seq![EventView::LampOn]
            } else {
                seq![EventView::LampOff]
            },
            ..none
        },
        InboundView::Chunk(x, z, b) => ReactionView {
            events: seq![EventView::ChunkData(x, z, b)],
            ..none
        },
        InboundView::Ignored => none,
    }
}

/// The characters of `s`, in order.
fn chars_of(s: &str) -> (r: Vec<char>)
    ensures
        r@ == s@,
{
    let n = s.unicode_len();
    let mut r: Vec<char> = Vec::new();
    let mut i: usize = 0;
    while i < n
        invariant
            n == s@.len(),
            i <= n,
            r@ == s@.subrange(0, i as int),
        decreases n - i,
    {
        r.push(s.get_char(i));
        i = i + 1;
        assert(r@ =~= s@.subrange(0, i as int));
    }
    assert(r@ =~= s@);
    r
}

/// Whether `needle` occurs in `hay` as a contiguous run.
pub fn contains_seq(hay: &Vec<char>, needle: &Vec<char>) -> (r: bool)
    ensures
        r == seq_contains(hay@, needle@),
{
    let n = needle.len();
    if n == 0 {
        assert(hay@.subrange(0int, 0int + needle@.len()) =~= needle@);
        return true;
    }
    if n > hay.len() {
        return false;
    }
    let hl = hay.len();
    let last = hl - n;
    let mut i: usize = 0;
    while i <= last
        invariant
            n == needle@.len(),
            n >= 1,
            last + n == hl,
            hl == hay@.len(),
            i <= last + 1,
            forall|k: int| 0 <= k < i ==> #[trigger] hay@.subrange(k, k + n) != needle@,
        decreases last + 1 - i,
    {
        let mut j: usize = 0;
        let mut same = true;
        while j < n && same
            invariant
                n == needle@.len(),
                n >= 1,
                i <= last,
                last + n == hl,
            hl == hay@.len(),
                j <= n,
                same ==> forall|m: int| 0 <= m < j ==> hay@[i + m] == needle@[m],
                !same ==> hay@.subrange(i as int, i + n) != needle@,
            decreases n - j, (if same { 1int } else { 0 }),
        {
            assert(i + j < hay@.len());
            if hay[i + j] != needle[j] {
                same = false;
                assert(hay@.subrange(i as int, i + n)[j as int] != needle@[j as int]);
            } else {
                j = j + 1;
            }
        }
        if same {
            assert(hay@.subrange(i as int, i + needle@.len()) =~= needle@);
            return true;
        }
        i = i + 1;
    }
    assert forall|k: int| 0 <= k && k + needle@.len() <= hay@.len() implies #[trigger] hay@.subrange(
        k,
        k + needle@.len(),
    ) != needle@ by {
        assert(k < i);
    }
    false
}

/// The connection-wide state that the dispatcher reads and updates.
#[derive(Clone, Copy, Debug, PartialEq, Eq, Structural)]
pub struct Session {
    pub state: ConnectionState,
    pub threshold: Option<u32>,
}

impl Session {
    /// Reacts to one inbound packet: the events to publish, the packet to send
    /// back, and whether the connection ends.
    pub fn handle(&mut self, p: Inbound) -> (r: Reaction)
        ensures
            ({
                let v = react(old(self).state, old(self).threshold, p@);
                &&& final(self).state == v.state
                &&& final(self).threshold == v.threshold
                &&& events_view(r.events@) == v.events
                &&& reply_view(r.reply) == v.reply
                &&& reason_view(r.end) == v.end
            }),
    {
        let mut events: Vec<ApplicationEvent> = Vec::new();
        let mut reply: Option<Outbound> = None;
        let mut end: Option<String> = None;
        match p {
            Inbound::Compression(t) => {
                match self.threshold {
                    None => {
                        if t >= 0 {
                            self.threshold = Some(t as u32);
                        }
                    },
                    Some(c) => {
                        if !(t >= 0 && c == t as u32) {
                            end = Some(String::from_str("protocol error: compression threshold changed"));
                        }
                    },
                }
            },
            Inbound::LoginSuccess => {
                if self.state == ConnectionState::LoginSent {
                    self.state = ConnectionState::Play;
                }
            },
            Inbound::Disconnect(reason) => {
                end = Some(String::from_str("disconnected by server: ").concat(reason.as_str()));
            },
            Inbound::KeepAlive(k) => {
                reply = Some(Outbound::KeepAlive(k));
            },
            Inbound::Chat(text) => {
                let hay = chars_of(text.as_str());
                let needle = chars_of("How are you?");
                if contains_seq(&hay, &needle) {
                    reply = Some(Outbound::Chat(String::from_str("I feel good. I'm running at 240 MHz.")));
                }
                events.push(ApplicationEvent::ChatMessage(text));
            },
            Inbound::BlockUpdate(lit) => {
                if lit == Some(true) {
                    events.push(ApplicationEvent::LampOn);
                } else {
                    events.push(ApplicationEvent::LampOff);
                }
            },
            Inbound::Chunk(c) => {
                events.push(ApplicationEvent::ChunkData(c));
            },
            Inbound::Ignored => {},
        }
        proof {
            let v = react(old(self).state, old(self).threshold, p@);
            assert(events_view(events@) =~= v.events);
        }
        Reaction { events, reply, end }
    }
}

} // verus!
