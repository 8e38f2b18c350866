//! The per-connection lifecycle: what one client's connection does with
//! each inbound frame, each heartbeat, and its close.
//!
//! The connection itself (the transport, the timers, the clock) lives
//! outside the library. This state machine takes the decisions: the caller
//! hands it each event, with idle time already measured in seconds, and
//! performs the actions it returns.

use vstd::prelude::*;

use crate::entropy::fresh_id;
use crate::messages::{ClientActorMessage, Connect, Disconnect};

verus! {

/// Seconds between two heartbeats.
pub const HEARTBEAT_SECS: u64 = 10;

/// A connection idle for longer than this many seconds is dead.
pub const CLIENT_TIMEOUT_SECS: u64 = 120;

/// One inbound event on a connection: a transport frame, or a transport
/// failure.
#[derive(Debug)]
pub enum WsEvent {
    Ping(Vec<u8>),
    Pong,
    Text(String),
    Binary(Vec<u8>),
    CloseFrame,
    Continuation,
    Nop,
    TransportError,
}

/// One action the connection asks its transport to perform.
#[derive(Debug)]
pub enum WsAction {
    /// Record that the peer is alive now.
    MarkActivity,
    /// Answer a ping, echoing its payload.
    SendPong(Vec<u8>),
    /// Send a ping.
    SendPing,
    /// Echo a binary frame back unchanged.
    EchoBinary(Vec<u8>),
    /// Hand an inbound text to the registry for routing.
    Forward(ClientActorMessage),
    /// Tell the registry this session is gone.
    NotifyDisconnect(Disconnect),
    /// Close the transport.
    CloseConn,
}

/// One client connection's state: its room, its session id, whether it is
/// still open, and whether its disconnect has already been announced.
#[derive(Debug)]
pub struct WsConn {
    pub room: u128,
    pub id: u128,
    pub open: bool,
    pub disconnect_sent: bool,
}

impl WsConn {
    /// A fresh connection: a random session id, the given room (the
    /// pre-existing room 0 when none is named), open, disconnect still
    /// owed.
    pub fn new(room: Option<u128>) -> (c: WsConn)
        ensures
            c.room == (match room {
                Option::Some(r) => r,
                Option::None => 0,
            }),
            c.open,
            !c.disconnect_sent,
    {
        WsConn {
            room: match room {
                Some(r) => r,
                None => 0,
            },
            id: fresh_id(),
            open: true,
            disconnect_sent: false,
        }
    }

    /// The join request this connection sends the registry when it opens.
    pub fn connect_request(&self) -> (r: Connect)
        ensures
            r == (Connect { lobby_id: self.room, self_id: self.id }),
    {
        Connect { lobby_id: self.room, self_id: self.id }
    }

    /// One inbound event. A ping marks activity and is answered with a
    /// pong carrying the same payload; a pong only marks activity; text is
    /// forwarded verbatim to the registry under this session and room;
    /// binary is echoed back unchanged; a close frame, a continuation
    /// frame and a transport failure all close the connection; a no-op
    /// frame does nothing. Nothing but those three closes the connection.
    pub fn handle(&mut self, ev: WsEvent) -> (actions: Vec<WsAction>)
        ensures
            final(self).room == old(self).room,
            final(self).id == old(self).id,
            final(self).disconnect_sent == old(self).disconnect_sent,
            match ev {
                WsEvent::Ping(p) => actions@ == seq![
                    WsAction::MarkActivity,
                    WsAction::SendPong(p),
                ] && final(self).open == old(self).open,
                WsEvent::Pong => actions@ == seq![WsAction::MarkActivity] && final(self).open
                    == old(self).open,
                WsEvent::Text(s) => actions@ == seq![
                    WsAction::Forward(
                        ClientActorMessage {
                            id: old(self).id,
                            msg: s,
                            room_id: old(self).room,
                        },
                    ),
                ] && final(self).open == old(self).open,
                WsEvent::Binary(b) => actions@ == seq![WsAction::EchoBinary(b)]
                    && final(self).open == old(self).open,
                WsEvent::CloseFrame => actions@ == seq![WsAction::CloseConn] && !final(self).open,
                WsEvent::Continuation => actions@ == seq![WsAction::CloseConn]
                    && !final(self).open,
                WsEvent::Nop => actions@ == Seq::<WsAction>::empty()
                    && final(self).open == old(self).open,
                WsEvent::TransportError => actions@ == seq![WsAction::CloseConn]
                    && !final(self).open,
            },
    {
        let mut actions: Vec<WsAction> = Vec::new();
        match ev {
            WsEvent::Ping(p) => {
                actions.push(WsAction::MarkActivity);
                actions.push(WsAction::SendPong(p));
            },
            WsEvent::Pong => {
                actions.push(WsAction::MarkActivity);
            },
            WsEvent::Text(s) => {
                actions.push(
                    WsAction::Forward(
                        ClientActorMessage { id: self.id, msg: s, room_id: self.room },
                    ),
                );
            },
            WsEvent::Binary(b) => {
                actions.push(WsAction::EchoBinary(b));
            },
            WsEvent::CloseFrame => {
                self.open = false;
                actions.push(WsAction::CloseConn);
            },
            WsEvent::Continuation => {
                self.open = false;
                actions.push(WsAction::CloseConn);
            },
            WsEvent::Nop => {},
            WsEvent::TransportError => {
                self.open = false;
                actions.push(WsAction::CloseConn);
            },
        }
        actions
    }

    /// One heartbeat, given the seconds since the last peer activity: a
    /// dead peer (idle strictly longer than the timeout) gets the
    /// disconnect announced and the connection closed; a live one gets a
    /// ping.
    pub fn heartbeat(&mut self, idle_secs: u64) -> (actions: Vec<WsAction>)
        ensures
            final(self).room == old(self).room,
            final(self).id == old(self).id,
            final(self).disconnect_sent == old(self).disconnect_sent,
            if idle_secs > CLIENT_TIMEOUT_SECS {
                actions@ == seq![
                    WsAction::NotifyDisconnect(
                        Disconnect { id: old(self).id, room_id: old(self).room },
                    ),
                    WsAction::CloseConn,
                ] && !final(self).open
            } else {
                actions@ == seq![WsAction::SendPing] && final(self).open == old(self).open
            },
    {
        let mut actions: Vec<WsAction> = Vec::new();
        if idle_secs > CLIENT_TIMEOUT_SECS {
            actions.push(
                WsAction::NotifyDisconnect(Disconnect { id: self.id, room_id: self.room }),
            );
            actions.push(WsAction::CloseConn);
            self.open = false;
        } else {
            actions.push(WsAction::SendPing);
        }
        actions
    }

    /// The connection is going away, whatever the cause: the registry is
    /// told exactly once. The first call yields the disconnect notice;
    /// every later call yields nothing.
    pub fn stopping(&mut self) -> (r: Option<Disconnect>)
        ensures
            final(self).room == old(self).room,
            final(self).id == old(self).id,
            !final(self).open,
            final(self).disconnect_sent,
            r == (if old(self).disconnect_sent {
                Option::<Disconnect>::None
            } else {
                Option::Some(Disconnect { id: old(self).id, room_id: old(self).room })
            }),
    {
        self.open = false;
        if self.disconnect_sent {
            None
        } else {
            self.disconnect_sent = true;
            Some(Disconnect { id: self.id, room_id: self.room })
        }
    }
}

} // verus!
