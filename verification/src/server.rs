//! One server of the fleet: its identity, its observed state, and the rules
//! by which that state moves.
//!
//! ```text
//! Offline --start--> Starting --ready--> Running
//! Running --stop--> Stopping --exited--> Offline
//! Starting --failed--> Offline
//! any --restart--> Stopping, then Starting
//! ```
//!
//! A stop is taken in every state, so that a server can be stopped while
//! it starts. A restart leads to Stopping and, once the container has
//! exited, on to Starting. A destroyed server takes no further event; a
//! suspended one takes every event but a start and a restart.

use vstd::prelude::*;
use crate::path::views;
use crate::state::ServerState;
use crate::text::same_bytes;

verus! {

/// What can happen to a server's process.
#[derive(Clone, Copy, Debug, PartialEq, Eq, Structural)]
pub enum LifecycleEvent {
    /// A start was asked for.
    Start,
    /// The console showed one of the lines that mark a finished start.
    Ready,
    /// A stop was asked for and the stop signal sent.
    Stop,
    /// The container exited.
    Exited,
    /// The container could not be created or started.
    Failed,
    /// A restart was asked for: a stop, and a start once it has stopped.
    Restart,
}

/// Why an event left a server as it was.
#[derive(Clone, Copy, Debug, PartialEq, Eq, Structural)]
pub enum Refusal {
    /// The server has been destroyed.
    Destroyed,
    /// The server is suspended and may not be started.
    Suspended,
    /// A start was asked for while the server was not offline.
    AlreadyRunning,
    /// The event has no meaning in the server's present state.
    OutOfOrder,
}

/// The mathematical content of a [`Server`].
pub ghost struct ServerView {
    pub uuid: u128,
    pub state: ServerState,
    pub suspended: bool,
    pub destroyed: bool,
    /// A restart is under way: the server is to start again once its
    /// container has exited.
    pub restarting: bool,
}

/// What `event` does to a server: the state it enters, or why it stays as it
/// is.
pub open spec fn outcome(server: ServerView, event: LifecycleEvent) -> Result<ServerState, Refusal> {
    if server.destroyed {
        Err(Refusal::Destroyed)
    } else {
        match event {
            LifecycleEvent::Start => if server.suspended {
                Err(Refusal::Suspended)
            } else if server.state != ServerState::Offline {
                Err(Refusal::AlreadyRunning)
            } else {
                Ok(ServerState::Starting)
            },
            LifecycleEvent::Restart => if server.suspended {
                Err(Refusal::Suspended)
            } else {
                Ok(ServerState::Stopping)
            },
            LifecycleEvent::Stop => Ok(ServerState::Stopping),
            LifecycleEvent::Ready => if server.state == ServerState::Starting {
                Ok(ServerState::Running)
            } else {
                Err(Refusal::OutOfOrder)
            },
            LifecycleEvent::Failed => if server.state == ServerState::Starting {
                Ok(ServerState::Offline)
            } else {
                Err(Refusal::OutOfOrder)
            },
            LifecycleEvent::Exited => if server.state != ServerState::Stopping {
                Err(Refusal::OutOfOrder)
            } else if server.restarting && !server.suspended {
                Ok(ServerState::Starting)
            } else {
                Ok(ServerState::Offline)
            },
        }
    }
}

/// The server after `event`: in the state that the event leads to, with a
/// restart under way exactly after a restart was taken; as it was where the
/// event is refused.
pub open spec fn moved(server: ServerView, event: LifecycleEvent) -> ServerView {
    match outcome(server, event) {
        Ok(next) => ServerView {
            state: next,
            restarting: match event {
                LifecycleEvent::Restart => true,
                LifecycleEvent::Stop => false,
                LifecycleEvent::Exited => false,
                _ => server.restarting,
            },
            ..server
        },
        Err(_) => server,
    }
}

/// A server as the manager keeps it.
#[derive(Clone, Copy, Debug, PartialEq, Eq)]
pub struct Server {
    uuid: u128,
    state: ServerState,
    suspended: bool,
    destroyed: bool,
    restarting: bool,
}

impl View for Server {
    type V = ServerView;

    closed spec fn view(&self) -> ServerView {
        ServerView {
            uuid: self.uuid,
            state: self.state,
            suspended: self.suspended,
            destroyed: self.destroyed,
            restarting: self.restarting,
        }
    }
}

impl Server {
    /// A new server: offline, neither suspended nor destroyed.
    pub fn new(uuid: u128) -> (r: Server)
        ensures
            r@ == (ServerView {
                uuid,
                state: ServerState::Offline,
                suspended: false,
                destroyed: false,
                restarting: false,
            }),
    {
        Server {
            uuid,
            state: ServerState::Offline,
            suspended: false,
            destroyed: false,
            restarting: false,
        }
    }

    pub fn uuid(&self) -> (r: u128)
        ensures
            r == self@.uuid,
    {
        self.uuid
    }

    /// The state as last observed.
    pub fn get_state(&self) -> (r: ServerState)
        ensures
            r == self@.state,
    {
        self.state
    }

    pub fn is_suspended(&self) -> (r: bool)
        ensures
            r == self@.suspended,
    {
        self.suspended
    }

    pub fn is_destroyed(&self) -> (r: bool)
        ensures
            r == self@.destroyed,
    {
        self.destroyed
    }

    /// Whether a restart is under way.
    pub fn is_restarting(&self) -> (r: bool)
        ensures
            r == self@.restarting,
    {
        self.restarting
    }

    /// Applies `event`. On success the server is in the returned state; on
    /// refusal nothing has changed.
    pub fn apply(&mut self, event: LifecycleEvent) -> (r: Result<ServerState, Refusal>)
        ensures
            r == outcome(old(self)@, event),
            final(self)@ == moved(old(self)@, event),
    {
        if self.destroyed {
            return Err(Refusal::Destroyed);
        }
        let next = match event {
            LifecycleEvent::Start => {
                if self.suspended {
                    return Err(Refusal::Suspended);
                }
                if self.state != ServerState::Offline {
                    return Err(Refusal::AlreadyRunning);
                }
                ServerState::Starting
            },
            LifecycleEvent::Restart => {
                if self.suspended {
                    return Err(Refusal::Suspended);
                }
                self.restarting = true;
                ServerState::Stopping
            },
            LifecycleEvent::Stop => {
                self.restarting = false;
                ServerState::Stopping
            },
            LifecycleEvent::Ready => {
                if self.state != ServerState::Starting {
                    return Err(Refusal::OutOfOrder);
                }
                ServerState::Running
            },
            LifecycleEvent::Failed => {
                if self.state != ServerState::Starting {
                    return Err(Refusal::OutOfOrder);
                }
                ServerState::Offline
            },
            LifecycleEvent::Exited => {
                if self.state != ServerState::Stopping {
                    return Err(Refusal::OutOfOrder);
                }
                let again = self.restarting && !self.suspended;
                self.restarting = false;
                if again {
                    ServerState::Starting
                } else {
                    ServerState::Offline
                }
            },
        };
        self.state = next;
        Ok(next)
    }

    /// Suspends the server: it keeps its state and refuses to start.
    pub fn suspend(&mut self)
        ensures
            final(self)@ == (ServerView { suspended: true, ..old(self)@ }),
    {
        self.suspended = true;
    }

    /// Lifts a suspension.
    pub fn unsuspend(&mut self)
        ensures
            final(self)@ == (ServerView { suspended: false, ..old(self)@ }),
    {
        self.suspended = false;
    }

    /// Marks the server destroyed and offline. Nothing moves it afterwards.
    pub fn destroy(&mut self)
        ensures
            final(self)@ == (ServerView {
                state: ServerState::Offline,
                destroyed: true,
                restarting: false,
                ..old(self)@
            }),
    {
        self.state = ServerState::Offline;
        self.destroyed = true;
        self.restarting = false;
    }
}

/// The `len` bytes of `line` from position `at` on.
pub open spec fn window(line: Seq<u8>, at: int, len: int) -> Seq<u8> {
    line.subrange(at, at + len)
}

/// The text `needle` stands somewhere in `line`.
pub open spec fn occurs_in(needle: Seq<u8>, line: Seq<u8>) -> bool {
    exists|i: int|
        0 <= i <= line.len() - needle.len() && #[trigger] window(line, i, needle.len() as int)
            == needle
}

/// The console line holds one of the texts that mark a finished start.
pub open spec fn marks_ready(line: Seq<u8>, done: Seq<Seq<u8>>) -> bool {
    exists|k: int| 0 <= k < done.len() && occurs_in(#[trigger] done[k], line)
}

/// Whether `needle` stands somewhere in `line`.
pub fn contains(line: &[u8], needle: &[u8]) -> (r: bool)
    ensures
        r == occurs_in(needle@, line@),
{
    if needle.len() > line.len() {
        return false;
    }
    let width = needle.len();
    let last = line.len() - width;
    let mut i: usize = 0;
    loop
        invariant
            width == needle@.len(),
            last + width == line@.len(),
            last + width <= usize::MAX,
            i <= last,
            forall|j: int| 0 <= j < i ==> #[trigger] window(line@, j, width as int) != needle@,
        decreases last - i,
    {
        if same_bytes(&line[i..i + width], needle) {
            assert(window(line@, i as int, width as int) == needle@);
            return true;
        }
        if i == last {
            return false;
        }
        i += 1;
    }
}

/// Whether a console line promotes a starting server to running: it holds
/// one of the texts in `done`.
pub fn is_ready_line(line: &[u8], done: &Vec<Vec<u8>>) -> (r: bool)
    ensures
        r == marks_ready(line@, views(done@)),
{
    let mut k: usize = 0;
    while k < done.len()
        invariant
            k <= done@.len(),
            forall|j: int| 0 <= j < k ==> !occurs_in(#[trigger] views(done@)[j], line@),
        decreases done@.len() - k,
    {
        if contains(line, done[k].as_slice()) {
            assert(occurs_in(views(done@)[k as int], line@));
            return true;
        }
        k += 1;
    }
    false
}

/// No event moves a destroyed server.
pub proof fn lemma_destroyed_is_final(server: ServerView, event: LifecycleEvent)
    requires
        server.destroyed,
    ensures
        outcome(server, event) is Err,
        moved(server, event) == server,
{
}

/// A suspended server is never started, whatever its state: neither by a
/// start, nor by a restart, nor by the end of a restart that was under way
/// when it was suspended.
pub proof fn lemma_suspended_refuses_start(server: ServerView, event: LifecycleEvent)
    requires
        server.suspended,
    ensures
        outcome(server, event) != Ok::<ServerState, Refusal>(ServerState::Starting),
{
}

/// A restart leads from every state to Stopping and, when the container
/// has exited, on to Starting.
pub proof fn lemma_restart_from_any_state(server: ServerView)
    requires
        !server.destroyed,
        !server.suspended,
    ensures
        outcome(server, LifecycleEvent::Restart) == Ok::<ServerState, Refusal>(
            ServerState::Stopping,
        ),
        outcome(moved(server, LifecycleEvent::Restart), LifecycleEvent::Exited) == Ok::<
            ServerState,
            Refusal,
        >(ServerState::Starting),
        !moved(moved(server, LifecycleEvent::Restart), LifecycleEvent::Exited).restarting,
{
}

/// A stop leads from every state to Stopping and, when the container has
/// exited, to Offline, from where a start leads to Starting: a restart can
/// as well be made of a stop and a start.
pub proof fn lemma_stop_then_start(server: ServerView)
    requires
        !server.destroyed,
        !server.suspended,
    ensures
        ({
            let stopping = moved(server, LifecycleEvent::Stop);
            let offline = moved(stopping, LifecycleEvent::Exited);
            &&& stopping.state == ServerState::Stopping
            &&& offline.state == ServerState::Offline
            &&& moved(offline, LifecycleEvent::Start).state == ServerState::Starting
        }),
{
}

} // verus!
