//! The fleet of servers on this node: loading it against the last
//! checkpoint, adding and removing servers, and taking the next checkpoint.

use std::collections::HashMap;
use vstd::prelude::*;
use crate::boot::{BootGate, BootGateView};
use crate::path::{join, joined};
use crate::server::{moved, outcome, LifecycleEvent, Refusal, Server, ServerView};
use crate::state::ServerState;
use crate::text::{ascii, bytes_of};

verus! {

broadcast use vstd::std_specs::hash::group_hash_axioms;

/// The time that a freshly attached container is given to report its state
/// before boot decides whether to start the server, in seconds.
pub const BOOT_GRACE_SECS: u64 = 5;

/// The time between two checkpoints, in seconds.
pub const CHECKPOINT_INTERVAL_SECS: u64 = 10;

/// The path of the checkpoint: `states.json` in the daemon's root
/// directory.
pub fn states_path(root_directory: &[u8]) -> (r: Vec<u8>)
    ensures
        r@ == joined(root_directory@, ascii("states.json")),
{
    proof {
        reveal_strlit("states.json");
    }
    join(root_directory, bytes_of("states.json"))
}

/// The state that the checkpoint holds for the server at position `i` of
/// `uuids`. Each entry of the checkpoint is used once: where a uuid stands
/// twice in the list, only its first position sees the entry. A server that
/// the checkpoint does not know was offline.
pub open spec fn previous_state(uuids: Seq<u128>, states: Map<u128, ServerState>, i: int) -> ServerState {
    if states.contains_key(uuids[i]) && !uuids.take(i).contains(uuids[i]) {
        states[uuids[i]]
    } else {
        ServerState::Offline
    }
}

/// Whether a server whose checkpointed state was `previous` and whose
/// container is now seen in state `live` is to be started on boot.
pub open spec fn wants_start(previous: ServerState, live: ServerState) -> bool {
    previous.active() && !live.active()
}

/// The work that boot leaves for one server once its container has been
/// attached and has had time to report.
#[derive(Clone, Copy, Debug, PartialEq, Eq, Structural)]
pub struct BootTask {
    pub uuid: u128,
    /// The state that the last checkpoint recorded for the server.
    pub previous: ServerState,
}

impl BootTask {
    /// Whether the server is to be started, given the state in which its
    /// container was found.
    pub fn should_start(&self, live: ServerState) -> (r: bool)
        ensures
            r == wants_start(self.previous, live),
    {
        self.previous.is_active() && !live.is_active()
    }
}

/// The views of a list of servers.
pub open spec fn fleet_of(servers: Seq<Server>) -> Seq<ServerView> {
    Seq::new(servers.len(), |i: int| servers[i]@)
}

/// The checkpoint of a fleet: each server's state under its uuid. Where a
/// uuid stands twice, the later server counts.
pub open spec fn state_map(fleet: Seq<ServerView>) -> Map<u128, ServerState>
    decreases fleet.len(),
{
    if fleet.len() == 0 {
        Map::empty()
    } else {
        state_map(fleet.drop_last()).insert(fleet.last().uuid, fleet.last().state)
    }
}

/// The first position in `fleet` of a server with the given uuid.
pub open spec fn position_of(fleet: Seq<ServerView>, uuid: u128) -> Option<int>
    decreases fleet.len(),
{
    if fleet.len() == 0 {
        None
    } else {
        match position_of(fleet.drop_last(), uuid) {
            Some(i) => Some(i),
            None => if fleet.last().uuid == uuid {
                Some(fleet.len() - 1)
            } else {
                None
            },
        }
    }
}

/// `position_of` finds the first server with the uuid, and only fails where
/// there is none.
pub proof fn lemma_position_of(fleet: Seq<ServerView>, uuid: u128)
    ensures
        match position_of(fleet, uuid) {
            Some(i) => 0 <= i < fleet.len() && fleet[i].uuid == uuid && forall|j: int|
                0 <= j < i ==> fleet[j].uuid != uuid,
            None => forall|j: int| 0 <= j < fleet.len() ==> fleet[j].uuid != uuid,
        },
    decreases fleet.len(),
{
    if fleet.len() > 0 {
        let init = fleet.drop_last();
        lemma_position_of(init, uuid);
        assert forall|j: int| 0 <= j < init.len() implies init[j] == fleet[j] by {}
    }
}

/// The uuids of a fleet, in order.
pub open spec fn uuids_of(fleet: Seq<ServerView>) -> Seq<u128> {
    Seq::new(fleet.len(), |i: int| fleet[i].uuid)
}

/// No two servers of the fleet share a uuid.
pub open spec fn distinct(fleet: Seq<ServerView>) -> bool {
    forall|i: int, j: int|
        0 <= i < j < fleet.len() ==> (#[trigger] fleet[i]).uuid != (#[trigger] fleet[j]).uuid
}

proof fn lemma_state_map_holds(fleet: Seq<ServerView>, i: int)
    requires
        distinct(fleet),
        0 <= i < fleet.len(),
    ensures
        state_map(fleet).contains_key(fleet[i].uuid),
        state_map(fleet)[fleet[i].uuid] == fleet[i].state,
    decreases fleet.len(),
{
    let init = fleet.drop_last();
    if i < fleet.len() - 1 {
        assert(distinct(init)) by {
            assert forall|a: int, b: int| 0 <= a < b < init.len() implies (#[trigger] init[a]).uuid
                != (#[trigger] init[b]).uuid by {
                assert(init[a] == fleet[a] && init[b] == fleet[b]);
            }
        }
        assert(init[i] == fleet[i]);
        lemma_state_map_holds(init, i);
        assert(fleet[i].uuid != fleet[fleet.len() - 1].uuid);
    }
}

/// A checkpoint is read back as it was taken: a fleet in which every uuid
/// stands once, checkpointed and then loaded again in the same order, finds
/// for every server the state it was in.
pub proof fn lemma_checkpoint_round_trip(fleet: Seq<ServerView>, i: int)
    requires
        distinct(fleet),
        0 <= i < fleet.len(),
    ensures
        previous_state(uuids_of(fleet), state_map(fleet), i) == fleet[i].state,
{
    lemma_state_map_holds(fleet, i);
    let uuids = uuids_of(fleet);
    if uuids.take(i).contains(uuids[i]) {
        let j = choose|j: int| 0 <= j < uuids.take(i).len() && uuids.take(i)[j] == uuids[i];
        assert(fleet[j].uuid != fleet[i].uuid);
    }
}

/// What is to follow the creation of a server.
#[derive(Clone, Copy, Debug, PartialEq, Eq, Structural)]
pub enum FollowUp {
    Nothing,
    /// Run the installation; if it succeeds, ask
    /// [`start_after_install`] whether to start the server.
    Install,
}

/// Whether a freshly installed server is started at once: only after a
/// successful installation, and only where its configuration says so.
pub fn start_after_install(installed: bool, start_on_completion: Option<bool>) -> (r: bool)
    ensures
        r == (installed && start_on_completion == Some(true)),
{
    match start_on_completion {
        Some(flag) => installed && flag,
        None => false,
    }
}

/// The servers of this node, in the order in which they were added.
pub struct Manager {
    servers: Vec<Server>,
    boot_servers_per_page: u64,
}

impl Manager {
    /// The fleet, as a list of server contents.
    pub closed spec fn fleet(&self) -> Seq<ServerView> {
        fleet_of(self.servers@)
    }

    /// The number of servers that may be starting at once during boot.
    pub closed spec fn boot_limit(&self) -> u64 {
        self.boot_servers_per_page
    }

    /// Builds the fleet from the panel's list of servers and the last
    /// checkpoint.
    ///
    /// Every server begins offline. Unless the boot limit is zero there is
    /// one boot task per server, in the panel's order, carrying the state
    /// that the checkpoint held for it.
    pub fn new(
        boot_servers_per_page: u64,
        raw_servers: &Vec<u128>,
        states: HashMap<u128, ServerState>,
    ) -> (r: (Manager, Vec<BootTask>))
        ensures
            r.0.boot_limit() == boot_servers_per_page,
            r.0.fleet().len() == raw_servers@.len(),
            forall|i: int|
                0 <= i < raw_servers@.len() ==> #[trigger] r.0.fleet()[i] == (ServerView {
                    uuid: raw_servers@[i],
                    state: ServerState::Offline,
                    suspended: false,
                    destroyed: false,
                    restarting: false,
                }),
            boot_servers_per_page == 0 ==> r.1@.len() == 0,
            boot_servers_per_page > 0 ==> r.1@.len() == raw_servers@.len(),
            boot_servers_per_page > 0 ==> forall|i: int|
                0 <= i < raw_servers@.len() ==> #[trigger] r.1@[i] == (BootTask {
                    uuid: raw_servers@[i],
                    previous: previous_state(raw_servers@, states@, i),
                }),
    {
        let mut states = states;
        let ghost initial = states@;
        let mut servers: Vec<Server> = Vec::new();
        let mut tasks: Vec<BootTask> = Vec::new();
        let mut i: usize = 0;
        while i < raw_servers.len()
            invariant
                i <= raw_servers@.len(),
                servers@.len() == i,
                forall|j: int|
                    0 <= j < i ==> #[trigger] servers@[j]@ == (ServerView {
                        uuid: raw_servers@[j],
                        state: ServerState::Offline,
                        suspended: false,
                        destroyed: false,
                    restarting: false,
                    }),
                boot_servers_per_page == 0 ==> tasks@.len() == 0,
                boot_servers_per_page > 0 ==> tasks@.len() == i,
                boot_servers_per_page > 0 ==> forall|j: int|
                    0 <= j < i ==> #[trigger] tasks@[j] == (BootTask {
                        uuid: raw_servers@[j],
                        previous: previous_state(raw_servers@, initial, j),
                    }),
                forall|k: u128|
                    #![trigger states@.contains_key(k)]
                    #![trigger initial.contains_key(k)]
                    states@.contains_key(k) <==> initial.contains_key(k) && !raw_servers@.take(
                        i as int,
                    ).contains(k),
                forall|k: u128|
                    #![trigger states@.contains_key(k)]
                    states@.contains_key(k) ==> states@[k] == initial[k],
            decreases raw_servers@.len() - i,
        {
            let uuid = raw_servers[i];
            let server = Server::new(uuid);
            let ghost before = states@;
            let taken = states.remove(&uuid);
            let previous = match taken {
                Some(state) => state,
                None => ServerState::default(),
            };
            proof {
                assert(states@ == before.remove(uuid));
                assert(taken is Some <==> before.contains_key(uuid));
                assert(taken is Some ==> taken->0 == before[uuid]);
                let seen = raw_servers@.take(i as int);
                let seen_next = raw_servers@.take(i + 1);
                assert(seen_next =~= seen.push(uuid));
                assert forall|k: u128| seen_next.contains(k) <==> seen.contains(k) || k
                    == uuid by {
                    if seen.contains(k) {
                        let at = choose|at: int| 0 <= at < seen.len() && seen[at] == k;
                        assert(seen_next[at] == k);
                    }
                    if k == uuid {
                        assert(seen_next[i as int] == k);
                    }
                }
                assert(previous == previous_state(raw_servers@, initial, i as int));
            }
            if boot_servers_per_page > 0 {
                tasks.push(BootTask { uuid, previous });
            }
            servers.push(server);
            i += 1;
        }
        let manager = Manager { servers, boot_servers_per_page };
        assert(manager.fleet().len() == raw_servers@.len());
        (manager, tasks)
    }

    /// The servers of the fleet.
    pub fn get_servers(&self) -> (r: &Vec<Server>)
        ensures
            fleet_of(r@) == self.fleet(),
    {
        &self.servers
    }

    /// The number of servers that may be starting at once during boot.
    pub fn boot_servers_per_page(&self) -> (r: u64)
        ensures
            r == self.boot_limit(),
    {
        self.boot_servers_per_page
    }

    /// The permits for the starts that boot makes: as many as the boot limit,
    /// none of them taken yet. A boot task that is to start its server asks
    /// for one first and gives it back when the start has finished.
    pub fn boot_gate(&self) -> (r: BootGate)
        ensures
            r.wf(),
            r@ == (BootGateView {
                capacity: self.boot_limit() as nat,
                in_flight: 0,
                waiting: Seq::empty(),
            }),
    {
        BootGate::new(self.boot_servers_per_page)
    }

    /// Adds a new, offline server to the end of the fleet and says whether
    /// it is to be installed.
    pub fn create_server(&mut self, uuid: u128, install_server: bool) -> (r: (Server, FollowUp))
        ensures
            final(self).boot_limit() == old(self).boot_limit(),
            final(self).fleet() == old(self).fleet().push(r.0@),
            r.0@ == (ServerView {
                uuid,
                state: ServerState::Offline,
                suspended: false,
                destroyed: false,
                    restarting: false,
            }),
            r.1 == if install_server {
                FollowUp::Install
            } else {
                FollowUp::Nothing
            },
    {
        let server = Server::new(uuid);
        self.servers.push(server);
        assert(fleet_of(self.servers@) =~= fleet_of(old(self).servers@).push(server@));
        let follow_up = if install_server {
            FollowUp::Install
        } else {
            FollowUp::Nothing
        };
        (server, follow_up)
    }

    fn find(&self, uuid: u128) -> (r: Option<usize>)
        ensures
            match r {
                Some(i) => position_of(self.fleet(), uuid) == Some(i as int) && i
                    < self.servers@.len(),
                None => position_of(self.fleet(), uuid) is None,
            },
    {
        let mut i: usize = 0;
        while i < self.servers.len()
            invariant
                i <= self.servers@.len(),
                forall|j: int| 0 <= j < i ==> self.servers@[j]@.uuid != uuid,
            decreases self.servers@.len() - i,
        {
            if self.servers[i].uuid() == uuid {
                proof {
                    lemma_position_of(self.fleet(), uuid);
                    assert(self.fleet()[i as int].uuid == uuid);
                }
                return Some(i);
            }
            i += 1;
        }
        proof {
            lemma_position_of(self.fleet(), uuid);
            assert forall|j: int| 0 <= j < self.fleet().len() implies self.fleet()[j].uuid
                != uuid by {
                assert(self.servers@[j]@.uuid != uuid);
            }
        }
        None
    }

    /// Takes the first server with the given uuid out of the fleet and
    /// hands it back suspended, for its container to be torn down. The other
    /// servers keep their order. Where no server has the uuid, nothing
    /// changes.
    pub fn delete_server(&mut self, uuid: u128) -> (r: Option<Server>)
        ensures
            final(self).boot_limit() == old(self).boot_limit(),
            match position_of(old(self).fleet(), uuid) {
                Some(pos) => {
                    &&& final(self).fleet() == old(self).fleet().remove(pos)
                    &&& r is Some
                    &&& r->0@ == (ServerView { suspended: true, ..old(self).fleet()[pos] })
                },
                None => final(self).fleet() == old(self).fleet() && r is None,
            },
    {
        match self.find(uuid) {
            Some(pos) => {
                let mut server = self.servers.remove(pos);
                server.suspend();
                assert(fleet_of(self.servers@) =~= fleet_of(old(self).servers@).remove(
                    pos as int,
                ));
                Some(server)
            },
            None => None,
        }
    }

    /// Applies a life-cycle event to the first server with the given uuid.
    /// Returns nothing where the fleet has no such server.
    pub fn apply(&mut self, uuid: u128, event: LifecycleEvent) -> (r: Option<
        Result<ServerState, Refusal>,
    >)
        ensures
            final(self).boot_limit() == old(self).boot_limit(),
            match position_of(old(self).fleet(), uuid) {
                Some(pos) => {
                    &&& r == Some(outcome(old(self).fleet()[pos], event))
                    &&& final(self).fleet() == old(self).fleet().update(
                        pos,
                        moved(old(self).fleet()[pos], event),
                    )
                },
                None => final(self).fleet() == old(self).fleet() && r is None,
            },
    {
        match self.find(uuid) {
            Some(pos) => {
                let mut server = self.servers[pos];
                let result = server.apply(event);
                self.servers.set(pos, server);
                assert(fleet_of(self.servers@) =~= fleet_of(old(self).servers@).update(
                    pos as int,
                    server@,
                ));
                Some(result)
            },
            None => None,
        }
    }

    /// The checkpoint of the fleet as it stands: every server's state under
    /// its uuid.
    pub fn snapshot(&self) -> (r: HashMap<u128, ServerState>)
        ensures
            r@ == state_map(self.fleet()),
    {
        let mut map: HashMap<u128, ServerState> = HashMap::new();
        let mut i: usize = 0;
        assert(self.fleet().take(0) =~= Seq::<ServerView>::empty());
        while i < self.servers.len()
            invariant
                i <= self.servers@.len(),
                map@ == state_map(self.fleet().take(i as int)),
            decreases self.servers@.len() - i,
        {
            let server = &self.servers[i];
            proof {
                let upto = self.fleet().take(i + 1);
                assert(upto.drop_last() =~= self.fleet().take(i as int));
                assert(upto.last() == self.servers@[i as int]@);
            }
            map.insert(server.uuid(), server.get_state());
            i += 1;
        }
        assert(self.fleet().take(i as int) =~= self.fleet());
        map
    }
}

} // verus!
