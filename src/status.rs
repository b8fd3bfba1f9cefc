use vstd::prelude::*;
use vstd::string::*;
use crate::events::ApplicationEvent;

verus! {

/// What a consumer shows of the connection: a status line and whether the
/// connection is up.
pub struct ConnectionStatus {
    pub message: String,
    pub connected: bool,
}

/// The status line while the first event is awaited.
pub open spec fn connecting_message() -> Seq<char> {
    "Connecting..."@
}

/// The status line once the connection is up.
pub open spec fn connected_message() -> Seq<char> {
    "Connected!"@
}

/// The status line after the connection has ended for `reason`.
pub open spec fn failed_message(reason: Seq<char>) -> Seq<char> {
    "Connection failed: "@ + reason
}

impl ConnectionStatus {
    pub fn new() -> (s: ConnectionStatus)
        ensures
            s.message@ == connecting_message(),
            !s.connected,
    {
        ConnectionStatus { message: String::from_str("Connecting..."), connected: false }
    }

    /// Applies one event: `Connected` and `Disconnected` set the line and the
    /// flag, a chat text becomes the line, and the other events leave the
    /// status as it is.
    pub fn apply(&mut self, event: &ApplicationEvent)
        ensures
            match event {
                ApplicationEvent::Connected => final(self).message@ == connected_message()
                    && final(self).connected,
                ApplicationEvent::ChatMessage(t) => final(self).message@ == t@
                    && final(self).connected == old(self).connected,
                ApplicationEvent::Disconnected(r) => final(self).message@ == failed_message(r@)
                    && !final(self).connected,
                _ => final(self).message@ == old(self).message@ && final(self).connected
                    == old(self).connected,
            },
    {
        match event {
            ApplicationEvent::Connected => {
                self.message = String::from_str("Connected!");
                self.connected = true;
            },
            ApplicationEvent::ChatMessage(t) => {
                self.message = t.clone();
            },
            ApplicationEvent::Disconnected(r) => {
                self.message = String::from_str("Connection failed: ").concat(r.as_str());
                self.connected = false;
            },
            _ => {},
        }
    }
}

} // verus!
