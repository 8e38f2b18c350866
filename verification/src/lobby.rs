//! The session/room registry: the single serialized coordinator that owns
//! every room, every session id, and each room's simulation.
//!
//! No delivery happens here. Every operation returns the exact list of
//! deliveries it asks for, as (recipient, payload) pairs; the transport
//! around the library performs them and is free to drop any of them
//! (delivery is best-effort and failures are ignored by design).

use vstd::prelude::*;

use crate::fixed::DT_MAX;
use crate::game::{
    add_player_post, has_bird, has_player, ready_post, set_input_post, tick_post, Game,
};
use crate::messages::{
    deliveries_view, disconnected_msg, joined_msg, make_disconnected_msg, make_joined_msg,
    make_new_bird_msg, make_ready_msg, make_whisper_prefix, make_your_id_msg, new_bird_msg,
    ready_msg, whisper_msg, your_id_msg, ClientActorMessage, Connect, Delivery, Disconnect,
    WsMessage,
};
use crate::player::Player;
use crate::text::{
    find_space, parse_bool, parse_bool_spec, parse_u128, parse_u128_spec, str_starts_with,
};
use vstd::string::{StrSliceExecFns, StringExecFns};

verus! {

/// One room: its id, its current member sessions, and its simulation.
#[derive(Debug)]
pub struct Room {
    pub id: u128,
    pub members: Vec<u128>,
    pub game: Game,
}

impl Room {
    /// Members pairwise distinct, game sound.
    pub open spec fn wf(self) -> bool {
        &&& forall|i: int, j: int|
            0 <= i < j < self.members@.len() ==> self.members@[i] != self.members@[j]
        &&& self.game.wf()
    }
}

/// The registry.
#[derive(Debug)]
pub struct Lobby {
    /// Every session currently able to receive a delivery.
    pub sessions: Vec<u128>,
    /// Every live room, in creation order.
    pub rooms: Vec<Room>,
}

/// Whether some room in `rooms` carries `rid`.
pub open spec fn has_room(rooms: Seq<Room>, rid: u128) -> bool {
    exists|i: int| 0 <= i < rooms.len() && rooms[i].id == rid
}

/// The delivery list for one text sent to a member list: one delivery per
/// member, in member order, skipping the excepted session and every member
/// without a live session.
pub open spec fn notify_view(
    members: Seq<u128>,
    sessions: Seq<u128>,
    except: Option<u128>,
    text: Seq<char>,
) -> Seq<(u128, Seq<char>)>
    decreases members.len(),
{
    if members.len() == 0 {
        Seq::empty()
    } else {
        let rest = notify_view(members.drop_last(), sessions, except, text);
        let m = members.last();
        if (match except {
            Some(e) => m != e,
            None => true,
        }) && sessions.contains(m) {
            rest.push((m, text))
        } else {
            rest
        }
    }
}

/// The registry's rooms after an operation that may touch one room's game
/// and nothing else: same rooms, same ids, same members, same games but
/// possibly at position `i`.
pub open spec fn rooms_same_but_game(pre: Seq<Room>, post: Seq<Room>, i: int) -> bool {
    &&& post.len() == pre.len()
    &&& 0 <= i < pre.len()
    &&& forall|j: int| 0 <= j < pre.len() && j != i ==> post[j] == pre[j]
    &&& post[i].id == pre[i].id
    &&& post[i].members@ == pre[i].members@
}

/// The effect of `connect`. The session can then be delivered to; the room
/// exists (created empty if it was absent) and holds the session; everybody
/// else already in the room and deliverable is told about the join, in
/// member order; and the new session alone is told its id. It never fails.
pub open spec fn connect_post(
    pre: Lobby,
    post: Lobby,
    sid: u128,
    rid: u128,
    dv: Seq<(u128, Seq<char>)>,
) -> bool {
    &&& post.sessions@ == (if pre.sessions@.contains(sid) {
        pre.sessions@
    } else {
        pre.sessions@.push(sid)
    })
    &&& exists|i: int|
        {
            &&& connect_rooms_ok(pre.rooms@, post.rooms@, i, sid, rid)
            &&& dv == notify_view(
                (#[trigger] post.rooms@[i]).members@,
                pre.sessions@,
                Some(sid),
                joined_msg(sid),
            ).push((sid, your_id_msg(sid)))
        }
}

/// How `connect` reshapes the room list: the joined room gains the session
/// (if it was not already a member), a missing room is created holding only
/// the session and an idle, empty game; no other room changes.
pub open spec fn connect_rooms_ok(
    pre: Seq<Room>,
    post: Seq<Room>,
    i: int,
    sid: u128,
    rid: u128,
) -> bool {
    if has_room(pre, rid) {
        &&& post.len() == pre.len()
        &&& 0 <= i < pre.len()
        &&& pre[i].id == rid
        &&& forall|j: int| 0 <= j < pre.len() && j != i ==> post[j] == pre[j]
        &&& post[i].id == rid
        &&& post[i].game == pre[i].game
        &&& post[i].members@ == (if pre[i].members@.contains(sid) {
            pre[i].members@
        } else {
            pre[i].members@.push(sid)
        })
    } else {
        &&& post.len() == pre.len() + 1
        &&& i == pre.len()
        &&& forall|j: int| 0 <= j < pre.len() ==> post[j] == pre[j]
        &&& post[i].id == rid
        &&& post[i].members@ == seq![sid]
        &&& !post[i].game.running
        &&& post[i].game.players@.len() == 0
        &&& post[i].game.birds@.len() == 0
        &&& post[i].game.walls@.len() == 0
    }
}

/// The effect of `disconnect`. An unknown session changes nothing. A known
/// one stops being deliverable first; then, if the room exists, every
/// remaining deliverable member is told about the leave, the session leaves
/// the room's member list, and a room left empty is deleted whole.
pub open spec fn disconnect_post(
    pre: Lobby,
    post: Lobby,
    sid: u128,
    rid: u128,
    dv: Seq<(u128, Seq<char>)>,
) -> bool {
    if !pre.sessions@.contains(sid) {
        &&& post.sessions@ == pre.sessions@
        &&& post.rooms@ == pre.rooms@
        &&& dv == Seq::<(u128, Seq<char>)>::empty()
    } else {
        &&& exists|k: int|
            0 <= k < pre.sessions@.len() && pre.sessions@[k] == sid && post.sessions@
                == pre.sessions@.remove(k)
        &&& if has_room(pre.rooms@, rid) {
            exists|i: int|
                {
                    &&& 0 <= i < pre.rooms@.len()
                    &&& (#[trigger] pre.rooms@[i]).id == rid
                    &&& dv == notify_view(
                        pre.rooms@[i].members@,
                        post.sessions@,
                        Some(sid),
                        disconnected_msg(sid),
                    )
                    &&& disconnect_rooms_ok(pre.rooms@, post.rooms@, i, sid)
                }
        } else {
            &&& post.rooms@ == pre.rooms@
            &&& dv == Seq::<(u128, Seq<char>)>::empty()
        }
    }
}

/// How `disconnect` reshapes the room list at the found room `i`: the
/// session leaves the member list (first occurrence), and the room is
/// removed exactly when that leaves it empty.
pub open spec fn disconnect_rooms_ok(pre: Seq<Room>, post: Seq<Room>, i: int, sid: u128) -> bool {
    let pm = pre[i].members@;
    let nm = if pm.contains(sid) {
        pm.remove(first_index_of(pm, sid))
    } else {
        pm
    };
    if nm.len() == 0 {
        post == pre.remove(i)
    } else {
        &&& post.len() == pre.len()
        &&& forall|j: int| 0 <= j < pre.len() && j != i ==> post[j] == pre[j]
        &&& post[i].id == pre[i].id
        &&& post[i].game == pre[i].game
        &&& post[i].members@ == nm
    }
}

/// Whether the input is a whisper command: it begins with the whisper
/// marker.
pub open spec fn is_whisper(text: Seq<char>) -> bool {
    text.len() >= "\\w"@.len() && text.subrange(0, "\\w"@.len() as int) == "\\w"@
}

/// Whether the input is a command: it begins with the command marker.
pub open spec fn is_bang(text: Seq<char>) -> bool {
    text.len() >= "!"@.len() && text.subrange(0, "!"@.len() as int) == "!"@
}

/// Whether a command input is the ready command: after the marker it
/// begins with the word ready.
pub open spec fn is_ready_cmd(text: Seq<char>) -> bool {
    let rest = text.subrange(1, text.len() as int);
    rest.len() >= "ready"@.len() && rest.subrange(0, "ready"@.len() as int) == "ready"@
}

/// The index of the first space at or after `from`, or the length when
/// there is none.
pub open spec fn first_space_from(s: Seq<char>, from: int) -> int
    decreases s.len() - from,
{
    if from < 0 || from >= s.len() {
        s.len() as int
    } else if s[from] == ' ' {
        from
    } else {
        first_space_from(s, from + 1)
    }
}

/// Pins `first_space_from` down from a scan: no space before `i`, and a
/// space at `i` unless the scan ran off the end.
pub proof fn lemma_first_space_from(s: Seq<char>, from: int, i: int)
    requires
        0 <= from <= i <= s.len(),
        forall|k: int| from <= k < i ==> s[k] != ' ',
        i < s.len() ==> s[i] == ' ',
    ensures
        first_space_from(s, from) == if i < s.len() {
            i
        } else {
            s.len() as int
        },
    decreases i - from,
{
    if from < i {
        lemma_first_space_from(s, from + 1, i);
    }
}

/// What a whisper asks to be delivered: nothing unless the input has a
/// space followed by a parsable target id; then the tagged remainder (from
/// the second space on) to that target alone, and only if the target is a
/// live session.
pub open spec fn whisper_deliveries(sessions: Seq<u128>, id: u128, text: Seq<char>) -> Seq<
    (u128, Seq<char>),
> {
    let i = first_space_from(text, 0);
    if i == text.len() {
        Seq::empty()
    } else {
        let j = first_space_from(text, i + 1);
        match parse_u128_spec(text.subrange(i + 1, j)) {
            Option::None => Seq::empty(),
            Option::Some(t) => if sessions.contains(t) {
                seq![(t, whisper_msg(id, text.subrange(j, text.len() as int)))]
            } else {
                Seq::empty()
            },
        }
    }
}

/// The effect of `route`, by the input's shape, in this priority order.
/// A whisper changes nothing and asks for `whisper_deliveries`. A command
/// input that reads ready marks the sender ready in the room's game and
/// reports the result to the sender alone (any other command, or a missing
/// room, is a silent no-op). Everything else is read as a boolean jump
/// input: unparsable input and a missing room change nothing; a parsed
/// input sets the sender's bird's jump intent if the bird exists, and
/// otherwise registers the sender and announces the new bird to the whole
/// deliverable membership. Sessions and memberships never change here.
pub open spec fn route_post(
    pre: Lobby,
    post: Lobby,
    id: u128,
    rid: u128,
    text: Seq<char>,
    dv: Seq<(u128, Seq<char>)>,
) -> bool {
    &&& post.sessions@ == pre.sessions@
    &&& if is_whisper(text) {
        &&& post.rooms@ == pre.rooms@
        &&& dv == whisper_deliveries(pre.sessions@, id, text)
    } else if is_bang(text) {
        if is_ready_cmd(text) && has_room(pre.rooms@, rid) {
            exists|i: int|
                {
                    &&& rooms_same_but_game(pre.rooms@, post.rooms@, i)
                    &&& (#[trigger] pre.rooms@[i]).id == rid
                    &&& ready_post(pre.rooms@[i].game, post.rooms@[i].game, id)
                    &&& dv == (if pre.sessions@.contains(id) {
                        seq![(id, ready_msg(has_player(pre.rooms@[i].game.players@, id)))]
                    } else {
                        Seq::<(u128, Seq<char>)>::empty()
                    })
                }
        } else {
            &&& post.rooms@ == pre.rooms@
            &&& dv == Seq::<(u128, Seq<char>)>::empty()
        }
    } else {
        match parse_bool_spec(text) {
            Option::None => post.rooms@ == pre.rooms@ && dv == Seq::<(u128, Seq<char>)>::empty(),
            Option::Some(b) => if !has_room(pre.rooms@, rid) {
                post.rooms@ == pre.rooms@ && dv == Seq::<(u128, Seq<char>)>::empty()
            } else {
                exists|i: int|
                    {
                        &&& rooms_same_but_game(pre.rooms@, post.rooms@, i)
                        &&& (#[trigger] pre.rooms@[i]).id == rid
                        &&& if has_bird(pre.rooms@[i].game.birds@, id) {
                            &&& set_input_post(pre.rooms@[i].game, post.rooms@[i].game, id, b)
                            &&& dv == Seq::<(u128, Seq<char>)>::empty()
                        } else {
                            exists|u: u128|
                                {
                                    &&& #[trigger] add_player_post(
                                        pre.rooms@[i].game,
                                        post.rooms@[i].game,
                                        Player { id: id, ready: false },
                                        u,
                                    )
                                    &&& dv == notify_view(
                                        pre.rooms@[i].members@,
                                        pre.sessions@,
                                        Option::None,
                                        new_bird_msg(u, id),
                                    )
                                }
                        }
                    }
            },
        }
    }
}

/// The first index at which `x` occurs in `s` (meaningful when it occurs).
pub open spec fn first_index_of(s: Seq<u128>, x: u128) -> int
    decreases s.len(),
{
    if s.len() == 0 {
        0
    } else if s[0] == x {
        0
    } else {
        1 + first_index_of(s.drop_first(), x)
    }
}

/// When `x` occurs in `s`, `first_index_of` really is its first position.
pub proof fn lemma_first_index_of(s: Seq<u128>, x: u128)
    requires
        s.contains(x),
    ensures
        0 <= first_index_of(s, x) < s.len(),
        s[first_index_of(s, x)] == x,
        forall|j: int| 0 <= j < first_index_of(s, x) ==> s[j] != x,
    decreases s.len(),
{
    if s.len() > 0 && s[0] != x {
        assert(s.drop_first().contains(x)) by {
            let w = choose|w: int| 0 <= w < s.len() && s[w] == x;
            assert(s.drop_first()[w - 1] == x);
        }
        lemma_first_index_of(s.drop_first(), x);
        let fi = first_index_of(s.drop_first(), x);
        assert(s[1 + fi] == s.drop_first()[fi]);
        assert forall|j: int| 0 <= j < 1 + fi implies s[j] != x by {
            if j > 0 {
                assert(s.drop_first()[j - 1] == s[j]);
            }
        }
    }
}

impl Lobby {
    /// Session ids pairwise distinct, room ids pairwise distinct, every
    /// room sound.
    pub open spec fn wf(self) -> bool {
        &&& forall|i: int, j: int|
            0 <= i < j < self.sessions@.len() ==> self.sessions@[i] != self.sessions@[j]
        &&& forall|i: int, j: int|
            0 <= i < j < self.rooms@.len() ==> self.rooms@[i].id != self.rooms@[j].id
        &&& forall|i: int| 0 <= i < self.rooms@.len() ==> (#[trigger] self.rooms@[i]).wf()
    }

    /// Puts a session into a room, creating the room if needed; returns
    /// the deliveries this asks for. Never fails.
    pub fn connect(&mut self, msg: Connect) -> (dv: Vec<Delivery>)
        requires
            old(self).wf(),
        ensures
            final(self).wf(),
            connect_post(
                *old(self),
                *final(self),
                msg.self_id,
                msg.lobby_id,
                deliveries_view(dv@),
            ),
    {
        let sid = msg.self_id;
        let rid = msg.lobby_id;
        let ghost pre = *old(self);
        let ri: usize = match self.find_room(rid) {
            Some(i) => i,
            None => {
                self.rooms.push(Room { id: rid, members: Vec::new(), game: Game::new() });
                self.rooms.len() - 1
            },
        };
        let mut room = self.rooms.remove(ri);
        if !contains_id(&room.members, sid) {
            room.members.push(sid);
        }
        let text = make_joined_msg(sid);
        let mut dv = notify(&room.members, &self.sessions, Some(sid), &text);
        let ghost room_snap = room;
        self.rooms.insert(ri, room);
        proof {
            if has_room(pre.rooms@, rid) {
                assert(self.rooms@ =~= pre.rooms@.update(ri as int, room_snap));
            } else {
                assert(self.rooms@ =~= pre.rooms@.push(room_snap));
            }
            assert(connect_rooms_ok(pre.rooms@, self.rooms@, ri as int, sid, rid));
        }
        if !contains_id(&self.sessions, sid) {
            self.sessions.push(sid);
        }
        let text2 = make_your_id_msg(sid);
        dv.push(Delivery { to: sid, body: WsMessage(text2) });
        proof {
            assert(deliveries_view(dv@) =~= deliveries_view(dv@.drop_last()).push(
                (sid, your_id_msg(sid)),
            ));
            assert(deliveries_view(dv@) == notify_view(
                self.rooms@[ri as int].members@,
                pre.sessions@,
                Some(sid),
                joined_msg(sid),
            ).push((sid, your_id_msg(sid))));
        }
        dv
    }

    /// Takes a session out of a room; returns the deliveries this asks
    /// for. Unknown sessions and unknown rooms are quietly ignored.
    pub fn disconnect(&mut self, msg: Disconnect) -> (dv: Vec<Delivery>)
        requires
            old(self).wf(),
        ensures
            final(self).wf(),
            disconnect_post(*old(self), *final(self), msg.id, msg.room_id, deliveries_view(dv@)),
    {
        let sid = msg.id;
        let rid = msg.room_id;
        match remove_first(&mut self.sessions, sid) {
            None => Vec::new(),
            Some(_) => {
                match self.find_room(rid) {
                    None => {
                        proof {
                            assert(deliveries_view(Seq::<Delivery>::empty()) =~= Seq::<
                                (u128, Seq<char>),
                            >::empty());
                        }
                        Vec::new()
                    },
                    Some(ri) => {
                        let mut room = self.rooms.remove(ri);
                        let text = make_disconnected_msg(sid);
                        let dv = notify(&room.members, &self.sessions, Some(sid), &text);
                        proof {
                            if room.members@.contains(sid) {
                                lemma_first_index_of(room.members@, sid);
                            }
                        }
                        let _ = remove_first(&mut room.members, sid);
                        if room.members.len() > 0 {
                            self.rooms.insert(ri, room);
                        }
                        dv
                    },
                }
            },
        }
    }

    /// Routes one inbound client text: exactly `route_post`.
    pub fn route(&mut self, msg: ClientActorMessage) -> (dv: Vec<Delivery>)
        requires
            old(self).wf(),
        ensures
            final(self).wf(),
            route_post(*old(self), *final(self), msg.id, msg.room_id, msg.msg@, deliveries_view(dv@)),
    {
        let ghost pre = *old(self);
        let id = msg.id;
        let rid = msg.room_id;
        let text: &str = msg.msg.as_str();
        let ghost tv = text@;
        if str_starts_with(text, "\\w") {
            let len = text.unicode_len();
            match find_space(text, 0) {
                None => {
                    proof {
                        lemma_first_space_from(tv, 0, tv.len() as int);
                        assert(deliveries_view(Seq::<Delivery>::empty()) =~= Seq::<
                            (u128, Seq<char>),
                        >::empty());
                    }
                    Vec::new()
                },
                Some(i) => {
                    proof {
                        lemma_first_space_from(tv, 0, i as int);
                    }
                    let j: usize = match find_space(text, i + 1) {
                        Some(j) => {
                            proof {
                                lemma_first_space_from(tv, i + 1 as int, j as int);
                            }
                            j
                        },
                        None => {
                            proof {
                                lemma_first_space_from(tv, i + 1 as int, tv.len() as int);
                            }
                            len
                        },
                    };
                    let target_str = text.substring_char(i + 1, j);
                    match parse_u128(target_str) {
                        None => {
                            proof {
                                assert(deliveries_view(Seq::<Delivery>::empty()) =~= Seq::<
                                    (u128, Seq<char>),
                                >::empty());
                            }
                            Vec::new()
                        },
                        Some(t) => {
                            if contains_id(&self.sessions, t) {
                                let mut m = make_whisper_prefix(id);
                                m.append(text.substring_char(j, len));
                                let mut dv: Vec<Delivery> = Vec::new();
                                dv.push(Delivery { to: t, body: WsMessage(m) });
                                proof {
                                    assert(deliveries_view(dv@) =~= seq![
                                        (t, whisper_msg(id, tv.subrange(j as int, tv.len() as int))),
                                    ]);
                                }
                                dv
                            } else {
                                proof {
                                    assert(deliveries_view(Seq::<Delivery>::empty()) =~= Seq::<
                                        (u128, Seq<char>),
                                    >::empty());
                                }
                                Vec::new()
                            }
                        },
                    }
                },
            }
        } else if str_starts_with(text, "!") {
            proof {
                reveal_strlit("!");
            }
            let len = text.unicode_len();
            let rest = text.substring_char(1, len);
            if str_starts_with(rest, "ready") {
                match self.find_room(rid) {
                    None => {
                        proof {
                            assert(deliveries_view(Seq::<Delivery>::empty()) =~= Seq::<
                                (u128, Seq<char>),
                            >::empty());
                        }
                        Vec::new()
                    },
                    Some(ri) => {
                        let mut room = self.rooms.remove(ri);
                        let r = room.game.ready(id);
                        let ghost room_snap = room;
                        self.rooms.insert(ri, room);
                        proof {
                            assert(self.rooms@ =~= pre.rooms@.update(ri as int, room_snap));
                        }
                        if contains_id(&self.sessions, id) {
                            let t = make_ready_msg(r);
                            let mut dv: Vec<Delivery> = Vec::new();
                            dv.push(Delivery { to: id, body: WsMessage(t) });
                            proof {
                                assert(deliveries_view(dv@) =~= seq![(id, ready_msg(r))]);
                            }
                            dv
                        } else {
                            proof {
                                assert(deliveries_view(Seq::<Delivery>::empty()) =~= Seq::<
                                    (u128, Seq<char>),
                                >::empty());
                            }
                            Vec::new()
                        }
                    },
                }
            } else {
                proof {
                    assert(deliveries_view(Seq::<Delivery>::empty()) =~= Seq::<
                        (u128, Seq<char>),
                    >::empty());
                }
                Vec::new()
            }
        } else {
            match parse_bool(text) {
                None => {
                    proof {
                        assert(deliveries_view(Seq::<Delivery>::empty()) =~= Seq::<
                            (u128, Seq<char>),
                        >::empty());
                    }
                    Vec::new()
                },
                Some(b) => {
                    match self.find_room(rid) {
                        None => {
                            proof {
                                assert(deliveries_view(Seq::<Delivery>::empty()) =~= Seq::<
                                    (u128, Seq<char>),
                                >::empty());
                            }
                            Vec::new()
                        },
                        Some(ri) => {
                            let mut room = self.rooms.remove(ri);
                            let ghost g_pre = room.game;
                            let ghost mut u_g: u128 = 0;
                            let dv: Vec<Delivery> = match room.game.set_input(id, b) {
                                Some(_) => {
                                    proof {
                                        assert(deliveries_view(Seq::<Delivery>::empty()) =~= Seq::<
                                            (u128, Seq<char>),
                                        >::empty());
                                    }
                                    Vec::new()
                                },
                                None => {
                                    proof {
                                        assert(room.game.birds@ =~= g_pre.birds@);
                                    }
                                    let u = room.game.add_player(Player::new(id));
                                    proof {
                                        u_g = u;
                                    }
                                    let t = make_new_bird_msg(u, id);
                                    notify(&room.members, &self.sessions, None, &t)
                                },
                            };
                            let ghost room_snap = room;
                            self.rooms.insert(ri, room);
                            proof {
                                assert(self.rooms@ =~= pre.rooms@.update(ri as int, room_snap));
                                let gi = ri as int;
                                assert(rooms_same_but_game(pre.rooms@, self.rooms@, gi));
                                if has_bird(g_pre.birds@, id) {
                                    assert(set_input_post(
                                        pre.rooms@[gi].game,
                                        self.rooms@[gi].game,
                                        id,
                                        b,
                                    ));
                                } else {
                                    assert(add_player_post(
                                        pre.rooms@[gi].game,
                                        self.rooms@[gi].game,
                                        Player { id: id, ready: false },
                                        u_g,
                                    ));
                                }
                            }
                            dv
                        },
                    }
                },
            }
        }
    }

    /// The deliveries that send `text` to every deliverable member of the
    /// room, in member order; an unknown room yields none.
    pub fn broadcast(&self, room_id: u128, text: &str) -> (dv: Vec<Delivery>)
        requires
            self.wf(),
        ensures
            has_room(self.rooms@, room_id) ==> exists|i: int|
                0 <= i < self.rooms@.len() && (#[trigger] self.rooms@[i]).id == room_id
                    && deliveries_view(dv@) == notify_view(
                    self.rooms@[i].members@,
                    self.sessions@,
                    None,
                    text@,
                ),
            !has_room(self.rooms@, room_id) ==> deliveries_view(dv@) == Seq::<
                (u128, Seq<char>),
            >::empty(),
    {
        match self.find_room(room_id) {
            None => {
                proof {
                    assert(deliveries_view(Seq::<Delivery>::empty()) =~= Seq::<
                        (u128, Seq<char>),
                    >::empty());
                }
                Vec::new()
            },
            Some(ri) => {
                let owned = text.to_owned();
                notify(&self.rooms[ri].members, &self.sessions, None, &owned)
            },
        }
    }

    /// One simulation step of `dt` for the room, if it exists; nothing
    /// else changes.
    pub fn tick_room(&mut self, room_id: u128, dt: i64)
        requires
            old(self).wf(),
            0 < dt <= DT_MAX,
        ensures
            final(self).wf(),
            final(self).sessions@ == old(self).sessions@,
            has_room(old(self).rooms@, room_id) ==> exists|i: int|
                {
                    &&& rooms_same_but_game(old(self).rooms@, final(self).rooms@, i)
                    &&& (#[trigger] old(self).rooms@[i]).id == room_id
                    &&& tick_post(old(self).rooms@[i].game, final(self).rooms@[i].game, dt)
                },
            !has_room(old(self).rooms@, room_id) ==> final(self).rooms@ == old(self).rooms@,
    {
        match self.find_room(room_id) {
            None => {},
            Some(ri) => {
                let mut room = self.rooms.remove(ri);
                room.game.update(dt);
                self.rooms.insert(ri, room);
            },
        }
    }

    /// The ids of every live room, in order.
    pub fn room_ids(&self) -> (r: Vec<u128>)
        ensures
            r@ == self.rooms@.map(|i: int, room: Room| room.id),
    {
        let mut r: Vec<u128> = Vec::new();
        let mut i: usize = 0;
        while i < self.rooms.len()
            invariant
                0 <= i <= self.rooms@.len(),
                r@ =~= self.rooms@.subrange(0, i as int).map(|k: int, room: Room| room.id),
            decreases self.rooms@.len() - i,
        {
            r.push(self.rooms[i].id);
            proof {
                assert(self.rooms@.subrange(0, i + 1 as int) =~= self.rooms@.subrange(
                    0,
                    i as int,
                ).push(self.rooms@[i as int]));
                assert(r@ =~= self.rooms@.subrange(0, i + 1 as int).map(
                    |k: int, room: Room| room.id,
                ));
            }
            i = i + 1;
        }
        proof {
            assert(self.rooms@.subrange(0, self.rooms@.len() as int) =~= self.rooms@);
        }
        r
    }

    /// A borrow of the room's simulation for serialization, if the room
    /// exists.
    pub fn snapshot(&self, room_id: u128) -> (r: Option<&Game>)
        ensures
            match r {
                Some(g) => exists|i: int|
                    0 <= i < self.rooms@.len() && (#[trigger] self.rooms@[i]).id == room_id
                        && *g == self.rooms@[i].game,
                None => !has_room(self.rooms@, room_id),
            },
    {
        match self.find_room(room_id) {
            None => None,
            Some(ri) => Some(&self.rooms[ri].game),
        }
    }

    /// First index of the room carrying `rid`, if any.
    fn find_room(&self, rid: u128) -> (r: Option<usize>)
        ensures
            match r {
                Some(i) => i < self.rooms@.len() && self.rooms@[i as int].id == rid,
                None => !has_room(self.rooms@, rid),
            },
    {
        let mut i: usize = 0;
        while i < self.rooms.len()
            invariant
                0 <= i <= self.rooms@.len(),
                forall|j: int| 0 <= j < i ==> self.rooms@[j].id != rid,
            decreases self.rooms@.len() - i,
        {
            if self.rooms[i].id == rid {
                return Some(i);
            }
            i = i + 1;
        }
        None
    }
}

impl Default for Lobby {
    /// The starting registry: no sessions, and the one pre-existing room
    /// with id 0, empty and idle.
    fn default() -> (r: Lobby)
        ensures
            r.sessions@.len() == 0,
            r.rooms@.len() == 1,
            r.rooms@[0].id == 0,
            r.rooms@[0].members@.len() == 0,
            !r.rooms@[0].game.running,
            r.rooms@[0].game.players@.len() == 0,
            r.rooms@[0].game.birds@.len() == 0,
            r.rooms@[0].game.walls@.len() == 0,
            r.wf(),
    {
        let mut rooms: Vec<Room> = Vec::new();
        rooms.push(Room { id: 0, members: Vec::new(), game: Game::new() });
        Lobby { sessions: Vec::new(), rooms }
    }
}

/// Whether `x` occurs in the vector.
fn contains_id(v: &Vec<u128>, x: u128) -> (r: bool)
    ensures
        r == v@.contains(x),
{
    let mut i: usize = 0;
    while i < v.len()
        invariant
            0 <= i <= v@.len(),
            forall|j: int| 0 <= j < i ==> v@[j] != x,
        decreases v@.len() - i,
    {
        if v[i] == x {
            return true;
        }
        i = i + 1;
    }
    false
}

/// Removes the first occurrence of `x`, returning its former index.
fn remove_first(v: &mut Vec<u128>, x: u128) -> (r: Option<usize>)
    ensures
        match r {
            None => !old(v)@.contains(x) && final(v)@ == old(v)@,
            Some(i) => {
                &&& i < old(v)@.len()
                &&& old(v)@[i as int] == x
                &&& forall|j: int| 0 <= j < i ==> old(v)@[j] != x
                &&& final(v)@ == old(v)@.remove(i as int)
            },
        },
{
    let mut i: usize = 0;
    while i < v.len()
        invariant
            v@ == old(v)@,
            0 <= i <= v@.len(),
            forall|j: int| 0 <= j < i ==> v@[j] != x,
        decreases v@.len() - i,
    {
        if v[i] == x {
            let _ = v.remove(i);
            return Some(i);
        }
        i = i + 1;
    }
    None
}

/// Builds the delivery list `notify_view` describes, one fresh copy of the
/// text per recipient.
fn notify(members: &Vec<u128>, sessions: &Vec<u128>, except: Option<u128>, text: &String) -> (dv:
    Vec<Delivery>)
    ensures
        deliveries_view(dv@) == notify_view(members@, sessions@, except, text@),
{
    let mut dv: Vec<Delivery> = Vec::new();
    let mut i: usize = 0;
    while i < members.len()
        invariant
            0 <= i <= members@.len(),
            deliveries_view(dv@) =~= notify_view(
                members@.subrange(0, i as int),
                sessions@,
                except,
                text@,
            ),
        decreases members@.len() - i,
    {
        let m = members[i];
        let excepted: bool = match except {
            Some(e) => m == e,
            None => false,
        };
        proof {
            assert(members@.subrange(0, i + 1 as int).drop_last() =~= members@.subrange(
                0,
                i as int,
            ));
        }
        if !excepted && contains_id(sessions, m) {
            dv.push(Delivery { to: m, body: WsMessage(text.clone()) });
            proof {
                assert(deliveries_view(dv@) =~= deliveries_view(dv@.drop_last()).push(
                    (m, text@),
                ));
            }
        }
        i = i + 1;
    }
    proof {
        assert(members@.subrange(0, members@.len() as int) =~= members@);
    }
    dv
}

} // verus!
