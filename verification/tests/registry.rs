use birdlobby::lobby::Lobby;
use birdlobby::messages::{ClientActorMessage, Connect, Disconnect};

const DT: i64 = 16_667;

fn connect(l: &mut Lobby, id: u128, room: u128) -> Vec<(u128, String)> {
    let dv = l.connect(Connect { lobby_id: room, self_id: id });
    dv.into_iter().map(|d| (d.to, d.body.0)).collect()
}

fn disconnect(l: &mut Lobby, id: u128, room: u128) -> Vec<(u128, String)> {
    let dv = l.disconnect(Disconnect { room_id: room, id });
    dv.into_iter().map(|d| (d.to, d.body.0)).collect()
}

fn route(l: &mut Lobby, id: u128, room: u128, text: &str) -> Vec<(u128, String)> {
    let dv = l.route(ClientActorMessage { id, msg: text.to_string(), room_id: room });
    dv.into_iter().map(|d| (d.to, d.body.0)).collect()
}

#[test]
fn default_lobby_has_room_zero() {
    let l = Lobby::default();
    assert_eq!(l.room_ids(), vec![0]);
    let g = l.snapshot(0).unwrap();
    assert!(!g.running);
    assert!(g.players.is_empty());
}

#[test]
fn connect_announces_join_and_hands_out_id() {
    let mut l = Lobby::default();
    let dv = connect(&mut l, 1, 0);
    assert_eq!(dv, vec![(1, "your id is 1".to_string())]);
    let dv = connect(&mut l, 2, 0);
    assert_eq!(
        dv,
        vec![
            (1, "2 just joined!".to_string()),
            (2, "your id is 2".to_string()),
        ]
    );
}

#[test]
fn connect_creates_missing_rooms() {
    let mut l = Lobby::default();
    let dv = connect(&mut l, 9, 77);
    assert_eq!(dv, vec![(9, "your id is 9".to_string())]);
    assert_eq!(l.room_ids(), vec![0, 77]);
    assert!(l.snapshot(77).is_some());
}

#[test]
fn whisper_reaches_only_its_target() {
    let mut l = Lobby::default();
    connect(&mut l, 1, 5);
    connect(&mut l, 2, 5);
    let dv = route(&mut l, 1, 5, "\\w 2 hello");
    assert_eq!(dv, vec![(2, "Whisper[1] hello".to_string())]);
}

#[test]
fn whisper_keeps_extra_words_and_spacing() {
    let mut l = Lobby::default();
    connect(&mut l, 1, 0);
    connect(&mut l, 2, 0);
    let dv = route(&mut l, 1, 0, "\\w 2 hello there  you");
    assert_eq!(dv, vec![(2, "Whisper[1] hello there  you".to_string())]);
    let dv = route(&mut l, 1, 0, "\\w 2");
    assert_eq!(dv, vec![(2, "Whisper[1]".to_string())]);
}

#[test]
fn malformed_whispers_are_dropped() {
    let mut l = Lobby::default();
    connect(&mut l, 1, 0);
    connect(&mut l, 2, 0);
    assert!(route(&mut l, 1, 0, "\\w").is_empty());
    assert!(route(&mut l, 1, 0, "\\w abc hi").is_empty());
    assert!(route(&mut l, 1, 0, "\\w  2 hi").is_empty());
    // An unknown target is a silent no-op.
    assert!(route(&mut l, 1, 0, "\\w 42 hi").is_empty());
}

#[test]
fn ready_command_reports_to_sender_only() {
    let mut l = Lobby::default();
    connect(&mut l, 1, 0);
    connect(&mut l, 2, 0);
    // No player registered yet for 1: not found.
    let dv = route(&mut l, 1, 0, "!ready");
    assert_eq!(dv, vec![(1, "ready: false".to_string())]);
    // Any other command is ignored.
    assert!(route(&mut l, 1, 0, "!restart").is_empty());
}

#[test]
fn unparsable_input_is_dropped() {
    let mut l = Lobby::default();
    connect(&mut l, 1, 0);
    assert!(route(&mut l, 1, 0, "jump").is_empty());
    assert!(route(&mut l, 1, 0, "True").is_empty());
    let g = l.snapshot(0).unwrap();
    assert!(g.players.is_empty());
}

#[test]
fn first_input_creates_player_and_announces_bird() {
    let mut l = Lobby::default();
    connect(&mut l, 1, 0);
    connect(&mut l, 2, 0);
    let dv = route(&mut l, 1, 0, "false");
    // Every member, the sender included, hears about the new bird.
    assert_eq!(dv.len(), 2);
    let g = l.snapshot(0).unwrap();
    let eid = g.birds[0].1.id;
    let expected = format!("new Bird with id [{}]; joined the game with player_id[1]!", eid);
    assert_eq!(dv[0], (1, expected.clone()));
    assert_eq!(dv[1], (2, expected));
    assert_eq!(g.players.len(), 1);
    // A second input only moves the jump intent: no announcement.
    let dv = route(&mut l, 1, 0, "true");
    assert!(dv.is_empty());
    let g = l.snapshot(0).unwrap();
    assert!(g.birds[0].1.jump);
    assert_eq!(g.players.len(), 1);
}

#[test]
fn lone_player_ready_starts_the_game_and_gravity_acts() {
    let mut l = Lobby::default();
    connect(&mut l, 1, 0);
    route(&mut l, 1, 0, "false");
    let dv = route(&mut l, 1, 0, "!ready");
    assert_eq!(dv, vec![(1, "ready: true".to_string())]);
    assert!(l.snapshot(0).unwrap().running);
    l.tick_room(0, DT);
    let g = l.snapshot(0).unwrap();
    let b = g.birds[0].1;
    assert_eq!(b.vy, -16_667);
    assert_eq!(b.px, 200_000);
    assert_eq!(b.py, 500_000 - 277);
}

#[test]
fn disconnect_notifies_survivors_and_deletes_empty_rooms() {
    let mut l = Lobby::default();
    connect(&mut l, 1, 3);
    connect(&mut l, 2, 3);
    connect(&mut l, 3, 3);
    let dv = disconnect(&mut l, 1, 3);
    assert_eq!(
        dv,
        vec![
            (2, "1 disconnected.".to_string()),
            (3, "1 disconnected.".to_string()),
        ]
    );
    assert!(l.snapshot(3).is_some());
    let dv = disconnect(&mut l, 2, 3);
    assert_eq!(dv, vec![(3, "2 disconnected.".to_string())]);
    assert!(l.snapshot(3).is_some());
    let dv = disconnect(&mut l, 3, 3);
    assert!(dv.is_empty());
    assert!(l.snapshot(3).is_none());
}

#[test]
fn disconnected_sessions_receive_nothing_further() {
    let mut l = Lobby::default();
    connect(&mut l, 1, 0);
    connect(&mut l, 2, 0);
    disconnect(&mut l, 2, 0);
    let dv = l.broadcast(0, "snapshot");
    let tos: Vec<u128> = dv.iter().map(|d| d.to).collect();
    assert_eq!(tos, vec![1]);
    let dv = route(&mut l, 1, 0, "\\w 2 psst");
    assert!(dv.is_empty());
}

#[test]
fn unknown_sessions_and_rooms_are_harmless() {
    let mut l = Lobby::default();
    connect(&mut l, 1, 0);
    assert!(disconnect(&mut l, 99, 0).is_empty());
    assert!(disconnect(&mut l, 1, 42).is_empty());
    assert!(route(&mut l, 1, 42, "false").is_empty());
    assert!(l.broadcast(42, "x").is_empty());
    l.tick_room(42, DT);
}

#[test]
fn broadcast_reaches_current_membership() {
    let mut l = Lobby::default();
    connect(&mut l, 1, 0);
    connect(&mut l, 2, 0);
    connect(&mut l, 3, 7);
    let dv = l.broadcast(0, "state");
    let pairs: Vec<(u128, String)> = dv.into_iter().map(|d| (d.to, d.body.0)).collect();
    assert_eq!(
        pairs,
        vec![(1, "state".to_string()), (2, "state".to_string())]
    );
}

#[test]
fn reconnect_of_a_known_session_is_idempotent() {
    let mut l = Lobby::default();
    connect(&mut l, 1, 0);
    connect(&mut l, 2, 0);
    // The same session connecting again does not duplicate membership;
    // the rest of the room hears the join announcement again.
    let dv = connect(&mut l, 1, 0);
    assert_eq!(
        dv,
        vec![
            (2, "1 just joined!".to_string()),
            (1, "your id is 1".to_string()),
        ]
    );
    assert_eq!(l.rooms.len(), 1);
    assert_eq!(l.rooms[0].members, vec![1, 2]);
    assert_eq!(l.sessions, vec![1, 2]);
}

#[test]
fn whisper_crosses_rooms_by_session_id() {
    let mut l = Lobby::default();
    connect(&mut l, 1, 0);
    connect(&mut l, 2, 7);
    // Whisper targets are looked up among all live sessions, not only the
    // sender's room.
    let dv = route(&mut l, 1, 0, "\\w 2 over here");
    assert_eq!(dv, vec![(2, "Whisper[1] over here".to_string())]);
}
