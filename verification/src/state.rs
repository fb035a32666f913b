//! The observed state of a server and the life cycle that moves it.

use vstd::prelude::*;
use crate::text::{ascii, bytes_of, same_bytes};

verus! {

/// The state of a server's process as the daemon last observed it.
#[derive(Clone, Copy, Debug, PartialEq, Eq, Hash, Structural)]
pub enum ServerState {
    Offline,
    Starting,
    Running,
    Stopping,
}

impl Default for ServerState {
    /// A server about which nothing is known is offline.
    fn default() -> (r: Self)
        ensures
            r == ServerState::Offline,
    {
        ServerState::Offline
    }
}

/// The name under which a state is persisted and sent to the panel.
pub open spec fn state_name(state: ServerState) -> Seq<u8> {
    match state {
        ServerState::Offline => ascii("offline"),
        ServerState::Starting => ascii("starting"),
        ServerState::Running => ascii("running"),
        ServerState::Stopping => ascii("stopping"),
    }
}

/// The state that a name stands for; none for every other text.
pub open spec fn state_named(name: Seq<u8>) -> Option<ServerState> {
    if name == ascii("offline") {
        Some(ServerState::Offline)
    } else if name == ascii("starting") {
        Some(ServerState::Starting)
    } else if name == ascii("running") {
        Some(ServerState::Running)
    } else if name == ascii("stopping") {
        Some(ServerState::Stopping)
    } else {
        None
    }
}

impl ServerState {
    /// Whether the server is up or on its way up.
    pub open spec fn active(self) -> bool {
        self == ServerState::Running || self == ServerState::Starting
    }

    /// Whether the server is up or on its way up.
    pub fn is_active(self) -> (r: bool)
        ensures
            r == self.active(),
    {
        match self {
            ServerState::Running => true,
            ServerState::Starting => true,
            _ => false,
        }
    }

    /// The state's persisted name.
    pub fn name(self) -> (r: &'static str)
        ensures
            r.is_ascii(),
            ascii(r) == state_name(self),
    {
        proof {
            reveal_strlit("offline");
            reveal_strlit("starting");
            reveal_strlit("running");
            reveal_strlit("stopping");
        }
        match self {
            ServerState::Offline => "offline",
            ServerState::Starting => "starting",
            ServerState::Running => "running",
            ServerState::Stopping => "stopping",
        }
    }

    /// Reads a persisted name back.
    pub fn from_name(name: &[u8]) -> (r: Option<ServerState>)
        ensures
            r == state_named(name@),
    {
        proof {
            reveal_strlit("offline");
            reveal_strlit("starting");
            reveal_strlit("running");
            reveal_strlit("stopping");
        }
        if same_bytes(name, bytes_of("offline")) {
            Some(ServerState::Offline)
        } else if same_bytes(name, bytes_of("starting")) {
            Some(ServerState::Starting)
        } else if same_bytes(name, bytes_of("running")) {
            Some(ServerState::Running)
        } else if same_bytes(name, bytes_of("stopping")) {
            Some(ServerState::Stopping)
        } else {
            None
        }
    }
}

/// Every state is read back from its own name, and no two states share one.
pub proof fn lemma_state_name_round_trip(state: ServerState)
    ensures
        state_named(state_name(state)) == Some(state),
{
    reveal_strlit("offline");
    reveal_strlit("starting");
    reveal_strlit("running");
    reveal_strlit("stopping");
    let offline = ascii("offline");
    let starting = ascii("starting");
    let running = ascii("running");
    let stopping = ascii("stopping");
    assert(offline.len() == 7 && starting.len() == 8 && running.len() == 7 && stopping.len() == 8);
    assert(offline[0] == 'o' as u8 && running[0] == 'r' as u8);
    assert(starting[2] == 'a' as u8 && stopping[2] == 'o' as u8);
}

} // verus!
