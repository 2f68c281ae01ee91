//! Control-plane operations on the registry: registering a client,
//! unregistering it, admitting its connection upgrade, and planning a
//! broadcast together with its bus mirror.

use vstd::prelude::*;
use crate::pubsub::{bus_channel, is_simple_v4, Message, Payload};
use crate::registry::{has_id, lists_targets, registered, unregistered, Registry};

verus! {

/// Request body of a registration.
pub struct RegisterRequest {
    pub user_id: usize,
    pub game_id: usize,
}

/// Response body of a registration: the path on which the client opens its
/// live connection.
pub struct RegisterResponse {
    pub url: String,
}

/// Request body of a move.
pub struct MakeMoveRequest {
    pub san: String,
    pub fen: String,
}

/// Response body of a move.
pub struct MakeMoveResponse {
    pub move_made: bool,
}

/// A message to relay to a session; when `user_id` is given, only that
/// user's connections in the session receive it.
pub struct Event {
    pub game_id: usize,
    pub user_id: Option<usize>,
    pub message: String,
}

/// What one broadcast does: push the event's text to the clients at
/// `targets`, and publish `bus` once on the bus.
pub struct BroadcastPlan {
    pub targets: Vec<usize>,
    pub bus: Message,
}

/// The path prefix of connection upgrades.
pub open spec fn ws_prefix() -> Seq<char> {
    "/ws/"@
}

/// Relies on `uuid::Uuid::new_v4` and its `as_simple` text form: the 32
/// lowercase digits of a random version 4 uuid.
#[verifier::external_body]
fn new_token() -> (r: String)
    ensures
        is_simple_v4(r@),
{
    uuid::Uuid::new_v4().as_simple().to_string()
}

/// Registers a pending client under a fresh random token, and answers with
/// the upgrade path that carries the token.
pub fn register_handler<H>(clients: &mut Registry<H>, body: &RegisterRequest) -> (r: RegisterResponse)
    requires
        old(clients).wf(),
    ensures
        final(clients).wf(),
        exists|token: Seq<char>|
            is_simple_v4(token) && final(clients)@ == registered(old(clients)@, token, body.user_id, body.game_id)
                && r.url@ == ws_prefix() + token,
{
    let token = new_token();
    let mut url = "/ws/".to_owned();
    url.append(token.as_str());
    let ghost t = token@;
    clients.register_client(token, body.user_id, body.game_id);
    assert(is_simple_v4(t) && final(clients)@ == registered(old(clients)@, t, body.user_id, body.game_id)
        && url@ == ws_prefix() + t);
    RegisterResponse { url }
}

/// Removes the client registered under `id`, if any.
pub fn unregister_handler<H>(clients: &mut Registry<H>, id: &String)
    requires
        old(clients).wf(),
    ensures
        final(clients).wf(),
        final(clients)@ == unregistered(old(clients)@, id@),
{
    clients.unregister(id)
}

/// Whether a connection upgrade on token `id` is admitted: only a
/// registered token is.
pub fn ws_handler<H>(clients: &Registry<H>, id: &String) -> (r: bool)
    requires
        clients.wf(),
    ensures
        r == has_id(clients@, id@),
{
    clients.contains(id)
}

/// Plans one broadcast: the attached clients of the event's session (of its
/// user only, when one is named) receive the text, and exactly one bus
/// message carries the session and the text on the fixed channel, however
/// many clients matched.
pub fn broadcast_handler<H>(clients: &Registry<H>, body: &Event) -> (r: BroadcastPlan)
    ensures
        lists_targets(r.targets@, clients@, body.game_id, body.user_id),
        r.bus.channel@ == bus_channel(),
        r.bus.payload.fen@ == body.message@,
        r.bus.payload.game_id == body.game_id,
{
    let targets = clients.targets(body.game_id, body.user_id);
    let bus = Message::new(Payload { fen: body.message.clone(), game_id: body.game_id });
    BroadcastPlan { targets, bus }
}

/// The status code of a broadcast: 200 when the bus publish succeeded, 400
/// when it failed; local delivery never decides it.
pub fn broadcast_status(published: bool) -> (r: u16)
    ensures
        r == (if published { 200u16 } else { 400u16 }),
{
    if published {
        200
    } else {
        400
    }
}

} // verus!
