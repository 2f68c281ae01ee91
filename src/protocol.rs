//! The in-band control protocol carried on each live connection: a
//! keepalive literal, or a JSON object naming the session to join.

use vstd::prelude::*;
use crate::registry::{has_id, moved, unregistered, EntryView, Registry};

verus! {

/// A request to move the connection to another session.
#[derive(PartialEq, Eq, Structural, Clone, Copy, Debug)]
pub struct GamesRequest {
    pub game_id: usize,
}

/// One decoded control frame. Keepalives are ignored silently (no reply);
/// malformed frames are reported to the caller and otherwise ignored.
#[derive(PartialEq, Eq, Structural, Clone, Copy, Debug)]
pub enum ControlMessage {
    Keepalive,
    JoinSession(GamesRequest),
    Malformed,
}

/// The `game_id` member that serde_json reads from `text`, if `text` is a
/// JSON object holding one that is a non-negative integer within `u64`.
pub uninterp spec fn json_game_id(text: Seq<char>) -> Option<u64>;

/// Relies on `serde_json::from_str` into a `serde_json::Value`, then
/// `Value::get("game_id")` and `Value::as_u64`: the result depends on the
/// text alone.
#[verifier::external_body]
fn read_game_id(text: &str) -> (r: Option<u64>)
    ensures
        r == json_game_id(text@),
{
    serde_json::from_str::<serde_json::Value>(text).ok().and_then(
        |v| v.get("game_id").and_then(serde_json::Value::as_u64),
    )
}

/// The keepalive literal, with or without a trailing newline.
pub open spec fn is_keepalive(text: Seq<char>) -> bool {
    text == "ping"@ || text == "ping\n"@
}

/// The control message for a frame that is not a keepalive, given the
/// session member read from it.
pub open spec fn join_of(field: Option<u64>) -> ControlMessage {
    match field {
        Some(n) => if n <= usize::MAX {
            ControlMessage::JoinSession(GamesRequest { game_id: n as usize })
        } else {
            ControlMessage::Malformed
        },
        None => ControlMessage::Malformed,
    }
}

/// The decoding of a whole frame.
pub open spec fn control_of(text: Seq<char>) -> ControlMessage {
    if is_keepalive(text) {
        ControlMessage::Keepalive
    } else {
        join_of(json_game_id(text))
    }
}

/// Decides the control message of a non-keepalive frame from the session
/// member read from it.
pub fn join_request(field: Option<u64>) -> (r: ControlMessage)
    ensures
        r == join_of(field),
{
    match field {
        Some(n) => if n <= usize::MAX as u64 {
            ControlMessage::JoinSession(GamesRequest { game_id: n as usize })
        } else {
            ControlMessage::Malformed
        },
        None => ControlMessage::Malformed,
    }
}

/// Whether `text` is the keepalive literal.
pub fn keepalive(text: &str) -> (r: bool)
    ensures
        r == is_keepalive(text@),
{
    let t = text.to_owned();
    t == "ping".to_owned() || t == "ping\n".to_owned()
}

/// Decodes one text frame.
pub fn parse_control(text: &str) -> (r: ControlMessage)
    ensures
        r == control_of(text@),
        is_keepalive(text@) ==> r == ControlMessage::Keepalive,
{
    if keepalive(text) {
        ControlMessage::Keepalive
    } else {
        join_request(read_game_id(text))
    }
}

/// The registry after frame `c` arrives on the connection of `id`: only a
/// join request changes it, moving that one entry.
pub open spec fn after_control<H>(
    s: Seq<EntryView<H>>,
    id: Seq<char>,
    c: ControlMessage,
) -> Seq<EntryView<H>> {
    match c {
        ControlMessage::JoinSession(req) => moved(s, id, req.game_id),
        _ => s,
    }
}

/// What the read side of a live connection produced next.
pub enum Inbound {
    /// A text frame.
    Text(String),
    /// A frame that does not decode as text: binary data, or a websocket
    /// ping, pong or close frame.
    NotText,
    /// The stream ended, or reading failed.
    Closed,
}

/// What the connection does after one inbound event.
#[derive(PartialEq, Eq, Structural, Clone, Copy, Debug)]
pub enum Step {
    /// A text frame was handled as this control message; keep reading.
    Handled(ControlMessage),
    /// The connection is over and its entry has been removed.
    Ended,
}

impl<H> Registry<H> {
    /// Handles one text frame received on the connection registered under
    /// `id`, and returns how it was decoded. A keepalive or a malformed
    /// frame leaves the registry as it was; a join request moves the
    /// connection's entry to the requested session.
    pub fn client_msg(&mut self, id: &String, text: &str) -> (r: ControlMessage)
        requires
            old(self).wf(),
        ensures
            final(self).wf(),
            r == control_of(text@),
            final(self)@ == after_control(old(self)@, id@, r),
            is_keepalive(text@) ==> r == ControlMessage::Keepalive && final(self)@ == old(self)@,
    {
        let c = parse_control(text);
        match c {
            ControlMessage::JoinSession(req) => {
                let _ = self.set_session(id, req.game_id);
            },
            _ => {},
        }
        c
    }

    /// Handles one inbound event of the live connection registered under
    /// `id`. A text frame goes through the control protocol; a frame that
    /// does not decode as text, a read failure or the end of the stream ends
    /// the connection and removes its entry.
    pub fn client_frame(&mut self, id: &String, event: Inbound) -> (r: Step)
        requires
            old(self).wf(),
        ensures
            final(self).wf(),
            match event {
                Inbound::Text(t) => r == Step::Handled(control_of(t@))
                    && final(self)@ == after_control(old(self)@, id@, control_of(t@)),
                _ => r == Step::Ended && final(self)@ == unregistered(old(self)@, id@)
                    && !has_id(final(self)@, id@),
            },
    {
        match event {
            Inbound::Text(t) => Step::Handled(self.client_msg(id, t.as_str())),
            _ => {
                self.unregister(id);
                Step::Ended
            },
        }
    }
}

} // verus!
