//! A room-scoped participant record: a session id plus a readiness flag.

use vstd::prelude::*;

verus! {

/// One participant in a room's game. `id` is the session id of the
/// connection that owns it; `ready` records whether the participant has
/// asked for the game to start.
#[derive(Debug, Clone, Copy, PartialEq, Eq, Structural)]
pub struct Player {
    pub id: u128,
    pub ready: bool,
}

impl Player {
    /// A fresh participant starts out not ready.
    pub fn new(id: u128) -> (p: Player)
        ensures
            p.id == id,
            !p.ready,
    {
        Player { id, ready: false }
    }

    /// Overwrites the readiness flag and returns the new value.
    pub fn set_ready(&mut self, ready: bool) -> (r: bool)
        ensures
            final(self).id == old(self).id,
            final(self).ready == ready,
            r == ready,
    {
        self.ready = ready;
        self.ready
    }
}

} // verus!
