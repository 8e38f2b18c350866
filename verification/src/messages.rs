//! The message types the registry speaks, and the exact text of every
//! outbound payload.

use vstd::prelude::*;
use vstd::string::StringExecFns;

use crate::text::dec_str;

verus! {

/// One outbound text payload, piped through to a client verbatim.
#[derive(Debug, Clone)]
pub struct WsMessage(pub String);

/// A connection asks the registry to put it in a room.
#[derive(Debug, Clone, Copy, PartialEq, Eq, Structural)]
pub struct Connect {
    pub lobby_id: u128,
    pub self_id: u128,
}

/// A connection asks the registry to take it out of a room.
#[derive(Debug, Clone, Copy, PartialEq, Eq, Structural)]
pub struct Disconnect {
    pub room_id: u128,
    pub id: u128,
}

/// A client's raw inbound text, to be routed by the registry.
#[derive(Debug, Clone)]
pub struct ClientActorMessage {
    pub id: u128,
    pub msg: String,
    pub room_id: u128,
}

/// One delivery the registry asks for: which session gets which payload.
#[derive(Debug, Clone)]
pub struct Delivery {
    pub to: u128,
    pub body: WsMessage,
}

/// The plain content of a delivery list: recipient and payload text.
pub open spec fn deliveries_view(ds: Seq<Delivery>) -> Seq<(u128, Seq<char>)> {
    ds.map(|i: int, d: Delivery| (d.to, d.body.0@))
}

/// Announcement to the rest of the room when a session joins.
pub open spec fn joined_msg(id: u128) -> Seq<char> {
    dec_str(id as nat) + " just joined!"@
}

/// Announcement to the rest of the room when a session leaves.
pub open spec fn disconnected_msg(id: u128) -> Seq<char> {
    dec_str(id as nat) + " disconnected."@
}

/// What a fresh session is told about itself.
pub open spec fn your_id_msg(id: u128) -> Seq<char> {
    "your id is "@ + dec_str(id as nat)
}

/// A whisper as the target sees it: the sender's tag, then the rest of the
/// input from the second space on.
pub open spec fn whisper_msg(sender: u128, rest: Seq<char>) -> Seq<char> {
    "Whisper["@ + dec_str(sender as nat) + "]"@ + rest
}

/// The reply to a ready command: whether a player record was found.
pub open spec fn ready_msg(r: bool) -> Seq<char> {
    if r {
        "ready: true"@
    } else {
        "ready: false"@
    }
}

/// Announcement to the whole room when a first input creates a bird.
pub open spec fn new_bird_msg(bird_id: u128, player_id: u128) -> Seq<char> {
    "new Bird with id ["@ + dec_str(bird_id as nat)
        + "]; joined the game with player_id["@ + dec_str(player_id as nat) + "]!"@
}

/// Builds `joined_msg` as a string.
pub fn make_joined_msg(id: u128) -> (s: String)
    ensures
        s@ == joined_msg(id),
{
    let mut s = crate::text::u128_to_dec(id);
    s.append(" just joined!");
    s
}

/// Builds `disconnected_msg` as a string.
pub fn make_disconnected_msg(id: u128) -> (s: String)
    ensures
        s@ == disconnected_msg(id),
{
    let mut s = crate::text::u128_to_dec(id);
    s.append(" disconnected.");
    s
}

/// Builds `your_id_msg` as a string.
pub fn make_your_id_msg(id: u128) -> (s: String)
    ensures
        s@ == your_id_msg(id),
{
    let mut s = "your id is ".to_owned();
    let n = crate::text::u128_to_dec(id);
    s.append(n.as_str());
    s
}

/// Builds the tag a whisper starts with: `whisper_msg` up to its `rest`.
pub fn make_whisper_prefix(sender: u128) -> (s: String)
    ensures
        s@ == "Whisper["@ + dec_str(sender as nat) + "]"@,
{
    let mut s = "Whisper[".to_owned();
    let n = crate::text::u128_to_dec(sender);
    s.append(n.as_str());
    s.append("]");
    s
}

/// Builds `ready_msg` as a string.
pub fn make_ready_msg(r: bool) -> (s: String)
    ensures
        s@ == ready_msg(r),
{
    if r {
        "ready: true".to_owned()
    } else {
        "ready: false".to_owned()
    }
}

/// Builds `new_bird_msg` as a string.
pub fn make_new_bird_msg(bird_id: u128, player_id: u128) -> (s: String)
    ensures
        s@ == new_bird_msg(bird_id, player_id),
{
    let mut s = "new Bird with id [".to_owned();
    let b = crate::text::u128_to_dec(bird_id);
    s.append(b.as_str());
    s.append("]; joined the game with player_id[");
    let p = crate::text::u128_to_dec(player_id);
    s.append(p.as_str());
    s.append("]!");
    s
}

} // verus!
