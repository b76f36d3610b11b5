//! The state that all connections share, and the events that change it.

use vstd::prelude::*;

verus! {

/// The server-wide record: how many players are online.
#[derive(Debug)]
pub struct Server {
    pub num_players: u16,
}

/// What a connection tells the main loop.
#[derive(Debug, Clone, Copy, PartialEq, Eq, Structural)]
pub enum ServerEvent {
    PlayerConnected,
    PlayerDisconnected,
}

/// The player count after one event.
pub open spec fn spec_count_after(count: int, event: ServerEvent) -> int {
    match event {
        ServerEvent::PlayerConnected => count + 1,
        ServerEvent::PlayerDisconnected => count - 1,
    }
}

/// The player count after a run of events, taken in order.
pub open spec fn spec_count_after_all(count: int, events: Seq<ServerEvent>) -> int
    decreases events.len(),
{
    if events.len() == 0 {
        count
    } else {
        spec_count_after(spec_count_after_all(count, events.drop_last()), events.last())
    }
}

impl Server {
    /// A server with nobody online.
    pub fn new() -> (server: Server)
        ensures
            server.num_players == 0,
    {
        Server { num_players: 0 }
    }

    /// Whether the count can take `event`: there is room for one more
    /// player, or a player to take off.
    pub open spec fn spec_accepts(&self, event: ServerEvent) -> bool {
        0 <= spec_count_after(self.num_players as int, event) <= u16::MAX
    }

    /// Tells whether the count can take `event`.
    #[verifier::when_used_as_spec(spec_accepts)]
    pub fn accepts(&self, event: ServerEvent) -> (ok: bool)
        ensures
            ok == self.spec_accepts(event),
    {
        match event {
            ServerEvent::PlayerConnected => self.num_players < u16::MAX,
            ServerEvent::PlayerDisconnected => self.num_players > 0,
        }
    }

    /// Counts one event: a connect adds a player, a disconnect takes one off.
    pub fn apply(&mut self, event: ServerEvent)
        requires
            old(self).spec_accepts(event),
        ensures
            final(self).num_players == spec_count_after(old(self).num_players as int, event),
    {
        match event {
            ServerEvent::PlayerConnected => {
                self.num_players = self.num_players + 1;
            },
            ServerEvent::PlayerDisconnected => {
                self.num_players = self.num_players - 1;
            },
        }
    }
}

} // verus!
