//! The library's laws: properties that hold across operations, stated over
//! the same spec predicates the operations' own contracts use, and proved
//! here once and for all.

use vstd::prelude::*;

use crate::game::{
    all_ready, cull_walls, hits_any, ready_post, tick_bird, tick_post, walls_moved, Game,
    WALL_CULL_X,
};
use crate::lobby::{
    connect_post, disconnect_post, first_space_from, has_room, notify_view, whisper_deliveries,
    Lobby, Room,
};
use crate::messages::whisper_msg;
use crate::text::parse_u128_spec;
use crate::wall::Wall;

verus! {

/// A whisper reaches at most one session: the parsed target, with the
/// tagged remainder of the input, and only while that target is a live
/// session. Every other session receives nothing from it.
pub proof fn lemma_whisper_only_target(sessions: Seq<u128>, id: u128, text: Seq<char>)
    ensures
        whisper_deliveries(sessions, id, text).len() <= 1,
        forall|k: int|
            0 <= k < whisper_deliveries(sessions, id, text).len() ==> {
                let i = first_space_from(text, 0);
                let j = first_space_from(text, i + 1);
                &&& parse_u128_spec(text.subrange(i + 1, j)) == Option::Some(
                    (#[trigger] whisper_deliveries(sessions, id, text)[k]).0,
                )
                &&& sessions.contains(whisper_deliveries(sessions, id, text)[k].0)
                &&& whisper_deliveries(sessions, id, text)[k].1 == whisper_msg(
                    id,
                    text.subrange(j, text.len() as int),
                )
            },
{
}

/// Marking players ready never stops a running game: `running` is
/// monotone under `ready`.
pub proof fn lemma_ready_keeps_running(pre: Game, post: Game, id: u128)
    requires
        ready_post(pre, post, id),
        pre.running,
    ensures
        post.running,
{
}

/// `running` becomes true under `ready` exactly when it already was, or
/// when at least one player is registered and every registered player is
/// ready afterwards.
pub proof fn lemma_running_iff_all_ready(pre: Game, post: Game, id: u128)
    requires
        ready_post(pre, post, id),
    ensures
        post.running <==> (pre.running || (post.players@.len() > 0 && all_ready(post.players@))),
{
}

/// A chain of `ready` calls, in order: each link is one `ready_post` step.
pub open spec fn ready_chain(pre: Game, post: Game, ids: Seq<u128>) -> bool
    decreases ids.len(),
{
    if ids.len() == 0 {
        post == pre
    } else {
        exists|mid: Game|
            #[trigger] ready_post(mid, post, ids.last()) && ready_chain(pre, mid, ids.drop_last())
    }
}

/// Once `running` is true, no sequence of further `ready` calls ever
/// clears it.
pub proof fn lemma_running_monotone(pre: Game, post: Game, ids: Seq<u128>)
    requires
        ready_chain(pre, post, ids),
        pre.running,
    ensures
        post.running,
    decreases ids.len(),
{
    if ids.len() > 0 {
        let mid = choose|mid: Game|
            #[trigger] ready_post(mid, post, ids.last()) && ready_chain(
                pre,
                mid,
                ids.drop_last(),
            );
        lemma_running_monotone(pre, mid, ids.drop_last());
    }
}

/// A bird that is already inactive is untouched by a tick: same position,
/// same velocity, same everything, forever after.
pub proof fn lemma_tick_keeps_dead_birds(pre: Game, post: Game, dt: i64, i: int)
    requires
        tick_post(pre, post, dt),
        0 <= i < pre.birds@.len(),
        !pre.birds@[i].1.active,
    ensures
        post.birds@[i] == pre.birds@[i],
{
    if pre.running {
        assert(post.birds@[i] == tick_bird(pre.birds@[i], walls_moved(pre.walls@, dt), dt));
    }
}

/// A bird whose moved circle touches any moved wall comes out of that tick
/// inactive, at the position the move gave it.
pub proof fn lemma_tick_kills_on_hit(pre: Game, post: Game, dt: i64, i: int)
    requires
        tick_post(pre, post, dt),
        pre.running,
        0 <= i < pre.birds@.len(),
        hits_any(pre.birds@[i].1.stepped(dt), walls_moved(pre.walls@, dt)),
    ensures
        !post.birds@[i].1.active,
        post.birds@[i].1.px == pre.birds@[i].1.stepped(dt).px,
        post.birds@[i].1.py == pre.birds@[i].1.stepped(dt).py,
{
    assert(post.birds@[i] == tick_bird(pre.birds@[i], walls_moved(pre.walls@, dt), dt));
}

/// A bird that stays clear of every moved wall keeps its active flag.
pub proof fn lemma_tick_spares_on_miss(pre: Game, post: Game, dt: i64, i: int)
    requires
        tick_post(pre, post, dt),
        pre.running,
        0 <= i < pre.birds@.len(),
        !hits_any(pre.birds@[i].1.stepped(dt), walls_moved(pre.walls@, dt)),
    ensures
        post.birds@[i].1.active == pre.birds@[i].1.active,
{
    assert(post.birds@[i] == tick_bird(pre.birds@[i], walls_moved(pre.walls@, dt), dt));
}

/// The cull keeps a wall exactly when it sits strictly right of the cull
/// line: a wall is removed if and only if its x position is at or left of
/// it.
pub proof fn lemma_cull_exact(s: Seq<Wall>)
    ensures
        forall|w: Wall|
            #[trigger] cull_walls(s).contains(w) <==> (s.contains(w) && w.px > WALL_CULL_X),
    decreases s.len(),
{
    if s.len() > 0 {
        lemma_cull_exact(s.drop_last());
        assert forall|w: Wall|
            #[trigger] cull_walls(s).contains(w) implies (s.contains(w) && w.px
            > WALL_CULL_X) by {
            let c = cull_walls(s);
            let r = cull_walls(s.drop_last());
            if s.last().px > WALL_CULL_X {
                assert(c == r.push(s.last()));
                let k = choose|k: int| 0 <= k < c.len() && c[k] == w;
                if k < r.len() {
                    assert(r.contains(w));
                    let k2 = choose|k2: int| 0 <= k2 < s.drop_last().len() && s.drop_last()[k2]
                        == w;
                    assert(s[k2] == w);
                } else {
                    assert(w == s.last());
                    assert(s[s.len() - 1] == w);
                }
            } else {
                assert(r.contains(w));
                let k2 = choose|k2: int| 0 <= k2 < s.drop_last().len() && s.drop_last()[k2] == w;
                assert(s[k2] == w);
            }
        }
        assert forall|w: Wall| (s.contains(w) && w.px > WALL_CULL_X) implies #[trigger] cull_walls(
            s,
        ).contains(w) by {
            let k = choose|k: int| 0 <= k < s.len() && s[k] == w;
            let r = cull_walls(s.drop_last());
            if k < s.len() - 1 {
                assert(s.drop_last()[k] == w);
                assert(s.drop_last().contains(w));
                assert(r.contains(w));
                let k2 = choose|k2: int| 0 <= k2 < r.len() && r[k2] == w;
                if s.last().px > WALL_CULL_X {
                    assert(cull_walls(s)[k2] == w);
                } else {
                    assert(cull_walls(s)[k2] == w);
                }
            } else {
                assert(w == s.last());
                assert(cull_walls(s).last() == w);
            }
        }
    }
}

/// After a running tick the wall list is never empty, and it is the culled
/// list plus exactly one spawned wall whenever the cull left fewer than
/// two.
pub proof fn lemma_tick_wall_floor(pre: Game, post: Game, dt: i64)
    requires
        tick_post(pre, post, dt),
        pre.running,
    ensures
        post.walls@.len() >= 1,
        cull_walls(walls_moved(pre.walls@, dt)).len() >= 2 ==> post.walls@.len() >= 2,
{
}

/// Everybody a notification reaches is a member with a live session and is
/// not the excepted one; and every such member is reached.
pub proof fn lemma_notify_recipients(
    members: Seq<u128>,
    sessions: Seq<u128>,
    except: Option<u128>,
    text: Seq<char>,
)
    ensures
        forall|k: int|
            0 <= k < notify_view(members, sessions, except, text).len() ==> {
                let d = #[trigger] notify_view(members, sessions, except, text)[k];
                &&& members.contains(d.0)
                &&& sessions.contains(d.0)
                &&& d.1 == text
                &&& (match except {
                    Option::Some(e) => d.0 != e,
                    Option::None => true,
                })
            },
        forall|m: u128|
            #[trigger] members.contains(m) && sessions.contains(m) && (match except {
                Option::Some(e) => m != e,
                Option::None => true,
            }) ==> exists|k: int|
                0 <= k < notify_view(members, sessions, except, text).len() && notify_view(
                    members,
                    sessions,
                    except,
                    text,
                )[k].0 == m,
    decreases members.len(),
{
    if members.len() > 0 {
        lemma_notify_recipients(members.drop_last(), sessions, except, text);
        let nv = notify_view(members, sessions, except, text);
        let rest = notify_view(members.drop_last(), sessions, except, text);
        assert forall|k: int| 0 <= k < nv.len() implies {
            let d = #[trigger] nv[k];
            &&& members.contains(d.0)
            &&& sessions.contains(d.0)
            &&& d.1 == text
            &&& (match except {
                Option::Some(e) => d.0 != e,
                Option::None => true,
            })
        } by {
            if k < rest.len() {
                assert(nv[k] == rest[k]);
                let w = choose|w: int|
                    0 <= w < members.drop_last().len() && members.drop_last()[w] == rest[k].0;
                assert(members[w] == rest[k].0);
            } else {
                assert(nv[k].0 == members.last());
                assert(members[members.len() - 1] == members.last());
            }
        }
        assert forall|m: u128|
            #[trigger] members.contains(m) && sessions.contains(m) && (match except {
                Option::Some(e) => m != e,
                Option::None => true,
            }) implies exists|k: int| 0 <= k < nv.len() && nv[k].0 == m by {
            if m == members.last() {
                assert(nv[nv.len() - 1].0 == m);
            } else {
                let w = choose|w: int| 0 <= w < members.len() && members[w] == m;
                assert(members.drop_last()[w] == m);
                assert(members.drop_last().contains(m));
                let k = choose|k: int| 0 <= k < rest.len() && rest[k].0 == m;
                assert(nv[k].0 == m);
            }
        }
    }
}

/// In a duplicate-free sequence, removing the element at `k` removes that
/// value from the contents, and every other value stays.
pub proof fn lemma_remove_distinct_contains(s: Seq<u128>, k: int)
    requires
        forall|i: int, j: int| 0 <= i < j < s.len() ==> s[i] != s[j],
        0 <= k < s.len(),
    ensures
        !s.remove(k).contains(s[k]),
        forall|a: u128| a != s[k] ==> (s.remove(k).contains(a) <==> s.contains(a)),
{
    let r = s.remove(k);
    if r.contains(s[k]) {
        let w = choose|w: int| 0 <= w < r.len() && r[w] == s[k];
        if w < k {
            assert(s[w] == s[k]);
        } else {
            assert(s[w + 1] == s[k]);
        }
    }
    assert forall|a: u128| a != s[k] implies (r.contains(a) <==> s.contains(a)) by {
        if r.contains(a) {
            let w = choose|w: int| 0 <= w < r.len() && r[w] == a;
            if w < k {
                assert(s[w] == a);
            } else {
                assert(s[w + 1] == a);
            }
        }
        if s.contains(a) {
            let w = choose|w: int| 0 <= w < s.len() && s[w] == a;
            if w < k {
                assert(r[w] == a);
            } else {
                assert(r[w - 1] == a);
            }
        }
    }
}

/// Once a session's disconnect has been processed, no notification in the
/// new state reaches it, whatever room, exception and text are used.
pub proof fn lemma_no_delivery_after_disconnect(
    pre: Lobby,
    post: Lobby,
    sid: u128,
    rid: u128,
    dv: Seq<(u128, Seq<char>)>,
    members: Seq<u128>,
    except: Option<u128>,
    text: Seq<char>,
)
    requires
        pre.wf(),
        pre.sessions@.contains(sid),
        disconnect_post(pre, post, sid, rid, dv),
    ensures
        !post.sessions@.contains(sid),
        forall|k: int|
            0 <= k < notify_view(members, post.sessions@, except, text).len() ==> (
            #[trigger] notify_view(members, post.sessions@, except, text)[k]).0 != sid,
{
    let k = choose|k: int|
        0 <= k < pre.sessions@.len() && pre.sessions@[k] == sid && post.sessions@
            == pre.sessions@.remove(k);
    lemma_remove_distinct_contains(pre.sessions@, k);
    lemma_notify_recipients(members, post.sessions@, except, text);
}

/// The first index of the room carrying `rid` (meaningful when one does).
pub open spec fn room_index_of(rooms: Seq<Room>, rid: u128) -> int
    decreases rooms.len(),
{
    if rooms.len() == 0 {
        0
    } else if rooms[0].id == rid {
        0
    } else {
        1 + room_index_of(rooms.drop_first(), rid)
    }
}

/// When the room exists, `room_index_of` points at it.
pub proof fn lemma_room_index_of(rooms: Seq<Room>, rid: u128)
    requires
        has_room(rooms, rid),
    ensures
        0 <= room_index_of(rooms, rid) < rooms.len(),
        rooms[room_index_of(rooms, rid)].id == rid,
    decreases rooms.len(),
{
    if rooms.len() > 0 && rooms[0].id != rid {
        assert(has_room(rooms.drop_first(), rid)) by {
            let w = choose|w: int| 0 <= w < rooms.len() && rooms[w].id == rid;
            assert(rooms.drop_first()[w - 1].id == rid);
        }
        lemma_room_index_of(rooms.drop_first(), rid);
        assert(rooms[1 + room_index_of(rooms.drop_first(), rid)] == rooms.drop_first()[
            room_index_of(rooms.drop_first(), rid)
        ]);
    }
}

/// The membership of room `rid` as a set: empty when the room is absent.
pub open spec fn members_set_of(l: Lobby, rid: u128) -> Set<u128> {
    if has_room(l.rooms@, rid) {
        l.rooms@[room_index_of(l.rooms@, rid)].members@.to_set()
    } else {
        Set::empty()
    }
}

/// One connect or disconnect aimed at one room: true marks a connect of
/// the session, false a disconnect.
pub open spec fn apply_member_event(s: Set<u128>, ev: (bool, u128)) -> Set<u128> {
    if ev.0 {
        s.insert(ev.1)
    } else {
        s.remove(ev.1)
    }
}

/// The membership a history of connects and disconnects leaves behind:
/// exactly the sessions that have connected and not disconnected since.
pub open spec fn fold_member_events(evs: Seq<(bool, u128)>) -> Set<u128>
    decreases evs.len(),
{
    if evs.len() == 0 {
        Set::empty()
    } else {
        apply_member_event(fold_member_events(evs.drop_last()), evs.last())
    }
}

/// One verified registry step against room `rid`: a connect when the flag
/// is set, a disconnect otherwise.
pub open spec fn step_post(
    mid: Lobby,
    post: Lobby,
    is_connect: bool,
    sid: u128,
    rid: u128,
    dv: Seq<(u128, Seq<char>)>,
) -> bool {
    if is_connect {
        connect_post(mid, post, sid, rid, dv)
    } else {
        disconnect_post(mid, post, sid, rid, dv)
    }
}

/// A registry history over one room: each event is one verified `connect`
/// or `disconnect` against that room, with every intermediate state sound.
pub open spec fn evolves(pre: Lobby, post: Lobby, rid: u128, evs: Seq<(bool, u128)>) -> bool
    decreases evs.len(),
{
    if evs.len() == 0 {
        post == pre
    } else {
        exists|mid: Lobby, dv: Seq<(u128, Seq<char>)>|
            {
                &&& #[trigger] step_post(mid, post, evs.last().0, evs.last().1, rid, dv)
                &&& evolves(pre, mid, rid, evs.drop_last())
                &&& mid.wf()
                &&& post.wf()
            }
    }
}

/// One verified `connect` adds exactly the session to the room's
/// membership set, and the room exists afterwards.
pub proof fn lemma_connect_members_set(
    pre: Lobby,
    post: Lobby,
    sid: u128,
    rid: u128,
    dv: Seq<(u128, Seq<char>)>,
)
    requires
        pre.wf(),
        post.wf(),
        connect_post(pre, post, sid, rid, dv),
    ensures
        has_room(post.rooms@, rid),
        members_set_of(post, rid) == members_set_of(pre, rid).insert(sid),
        forall|m: u128|
            #[trigger] post.sessions@.contains(m) <==> (pre.sessions@.contains(m) || m == sid),
{
    let i = choose|i: int|
        crate::lobby::connect_rooms_ok(pre.rooms@, post.rooms@, i, sid, rid) && dv == notify_view(
            (#[trigger] post.rooms@[i]).members@,
            pre.sessions@,
            Option::Some(sid),
            crate::messages::joined_msg(sid),
        ).push((sid, crate::messages::your_id_msg(sid)));
    assert(post.rooms@[i].id == rid);
    assert(has_room(post.rooms@, rid));
    lemma_room_index_of(post.rooms@, rid);
    let pi = room_index_of(post.rooms@, rid);
    assert(pi == i);
    let pm_post = post.rooms@[i].members@;
    if has_room(pre.rooms@, rid) {
        lemma_room_index_of(pre.rooms@, rid);
        let qi = room_index_of(pre.rooms@, rid);
        assert(qi == i);
        let pm_pre = pre.rooms@[i].members@;
        if pm_pre.contains(sid) {
            assert(pm_post.to_set() =~= pm_pre.to_set().insert(sid));
        } else {
            assert forall|a: u128| #[trigger] pm_post.contains(a) implies (pm_pre.contains(a) || a
                == sid) by {
                let w = choose|w: int| 0 <= w < pm_post.len() && pm_post[w] == a;
                if w < pm_pre.len() {
                    assert(pm_pre[w] == a);
                }
            }
            assert forall|a: u128| pm_pre.contains(a) implies #[trigger] pm_post.contains(a) by {
                let w = choose|w: int| 0 <= w < pm_pre.len() && pm_pre[w] == a;
                assert(pm_post[w] == a);
            }
            assert(pm_post.contains(sid)) by {
                assert(pm_post[pm_post.len() - 1] == sid);
            }
            assert(pm_post.to_set() =~= pm_pre.to_set().insert(sid));
        }
    } else {
        assert(pm_post =~= seq![sid]);
        assert(pm_post.contains(sid)) by {
            assert(pm_post[0] == sid);
        }
        assert forall|a: u128| #[trigger] pm_post.contains(a) implies a == sid by {
            let w = choose|w: int| 0 <= w < pm_post.len() && pm_post[w] == a;
        }
        assert(pm_post.to_set() =~= Set::empty().insert(sid));
    }
    assert forall|m: u128| #[trigger] post.sessions@.contains(m) implies (pre.sessions@.contains(m)
        || m == sid) by {
        if !pre.sessions@.contains(sid) {
            let w = choose|w: int| 0 <= w < post.sessions@.len() && post.sessions@[w] == m;
            if w < pre.sessions@.len() {
                assert(pre.sessions@[w] == m);
            }
        }
    }
    assert forall|m: u128| (pre.sessions@.contains(m) || m == sid) implies #[trigger] post.sessions@.contains(m) by {
        if pre.sessions@.contains(m) {
            let w = choose|w: int| 0 <= w < pre.sessions@.len() && pre.sessions@[w] == m;
            assert(post.sessions@[w] == m);
        } else {
            if !pre.sessions@.contains(sid) {
                assert(post.sessions@[post.sessions@.len() - 1] == sid);
            }
        }
    }
}

/// One verified `disconnect` removes exactly the session from the room's
/// membership set; the room survives exactly when members remain; and a
/// session can only be lost, never gained.
pub proof fn lemma_disconnect_members_set(
    pre: Lobby,
    post: Lobby,
    sid: u128,
    rid: u128,
    dv: Seq<(u128, Seq<char>)>,
)
    requires
        pre.wf(),
        post.wf(),
        disconnect_post(pre, post, sid, rid, dv),
        pre.sessions@.contains(sid) || !members_set_of(pre, rid).contains(sid),
        has_room(pre.rooms@, rid) ==> members_set_of(pre, rid) != Set::<u128>::empty(),
    ensures
        members_set_of(post, rid) == members_set_of(pre, rid).remove(sid),
        has_room(post.rooms@, rid) <==> members_set_of(post, rid) != Set::<u128>::empty(),
        forall|m: u128|
            #[trigger] post.sessions@.contains(m) <==> (pre.sessions@.contains(m) && (
            !pre.sessions@.contains(sid) || m != sid)),
{
    if !pre.sessions@.contains(sid) {
        assert(members_set_of(post, rid) =~= members_set_of(pre, rid).remove(sid));
        if has_room(pre.rooms@, rid) {
            assert(!(members_set_of(pre, rid) =~= Set::<u128>::empty()));
            let w = choose|a: u128|
                members_set_of(pre, rid).contains(a) != Set::<u128>::empty().contains(a);
            assert(members_set_of(post, rid).contains(w));
        }
    } else {
        let k = choose|k: int|
            0 <= k < pre.sessions@.len() && pre.sessions@[k] == sid && post.sessions@
                == pre.sessions@.remove(k);
        lemma_remove_distinct_contains(pre.sessions@, k);
        if !has_room(pre.rooms@, rid) {
            assert(members_set_of(post, rid) =~= members_set_of(pre, rid).remove(sid));
        } else {
            lemma_room_index_of(pre.rooms@, rid);
            let i = choose|i: int|
                {
                    &&& 0 <= i < pre.rooms@.len()
                    &&& (#[trigger] pre.rooms@[i]).id == rid
                    &&& dv == notify_view(
                        pre.rooms@[i].members@,
                        post.sessions@,
                        Option::Some(sid),
                        crate::messages::disconnected_msg(sid),
                    )
                    &&& crate::lobby::disconnect_rooms_ok(pre.rooms@, post.rooms@, i, sid)
                };
            let qi = room_index_of(pre.rooms@, rid);
            assert(qi == i);
            let pm = pre.rooms@[i].members@;
            let nm = if pm.contains(sid) {
                pm.remove(crate::lobby::first_index_of(pm, sid))
            } else {
                pm
            };
            if pm.contains(sid) {
                crate::lobby::lemma_first_index_of(pm, sid);
                lemma_remove_distinct_contains(pm, crate::lobby::first_index_of(pm, sid));
                assert(nm.to_set() =~= pm.to_set().remove(sid));
            } else {
                assert(nm.to_set() =~= pm.to_set().remove(sid));
            }
            if nm.len() == 0 {
                assert(post.rooms@ == pre.rooms@.remove(i));
                if has_room(post.rooms@, rid) {
                    let w = choose|w: int| 0 <= w < post.rooms@.len() && post.rooms@[w].id == rid;
                    if w < i {
                        assert(pre.rooms@[w].id == rid);
                    } else {
                        assert(pre.rooms@[w + 1].id == rid);
                    }
                }
                assert(members_set_of(post, rid) =~= Set::<u128>::empty());
                assert(nm.to_set() =~= Set::<u128>::empty());
                assert(members_set_of(post, rid) =~= members_set_of(pre, rid).remove(sid));
            } else {
                assert(post.rooms@[i].id == rid);
                assert(has_room(post.rooms@, rid));
                lemma_room_index_of(post.rooms@, rid);
                assert(room_index_of(post.rooms@, rid) == i);
                assert(members_set_of(post, rid) == nm.to_set());
                assert(members_set_of(post, rid) =~= members_set_of(pre, rid).remove(sid));
                assert(nm.to_set().contains(nm[0]));
            }
        }
    }
}

/// The room-membership law. Starting from any sound registry in which the
/// room does not yet exist, after any history of connects and disconnects
/// against that room: the room's membership is exactly the set of sessions
/// that have connected and not disconnected since; the room exists exactly
/// when that set is non-empty; and every member is a live session.
pub proof fn lemma_membership_matches_history(
    pre: Lobby,
    post: Lobby,
    rid: u128,
    evs: Seq<(bool, u128)>,
)
    requires
        pre.wf(),
        !has_room(pre.rooms@, rid),
        evolves(pre, post, rid, evs),
    ensures
        members_set_of(post, rid) == fold_member_events(evs),
        has_room(post.rooms@, rid) <==> fold_member_events(evs) != Set::<u128>::empty(),
        forall|m: u128|
            #[trigger] fold_member_events(evs).contains(m) ==> post.sessions@.contains(m),
    decreases evs.len(),
{
    if evs.len() == 0 {
        assert(members_set_of(post, rid) =~= Set::<u128>::empty());
    } else {
        let (mid, dv) = choose|mid: Lobby, dv: Seq<(u128, Seq<char>)>|
            {
                &&& #[trigger] step_post(mid, post, evs.last().0, evs.last().1, rid, dv)
                &&& evolves(pre, mid, rid, evs.drop_last())
                &&& mid.wf()
                &&& post.wf()
            };
        lemma_membership_matches_history(pre, mid, rid, evs.drop_last());
        let folded = fold_member_events(evs.drop_last());
        let sid = evs.last().1;
        if evs.last().0 {
            lemma_connect_members_set(mid, post, sid, rid, dv);
            assert(fold_member_events(evs) == folded.insert(sid));
            assert(folded.insert(sid).contains(sid));
            assert(folded.insert(sid) != Set::<u128>::empty()) by {
                assert(!Set::<u128>::empty().contains(sid));
            }
        } else {
            lemma_disconnect_members_set(mid, post, sid, rid, dv);
            assert(fold_member_events(evs) == folded.remove(sid));
        }
    }
}

} // verus!
