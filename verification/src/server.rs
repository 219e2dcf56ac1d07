//! The server: the registry of repositories, the targets in configuration
//! order, and the rule by which their cycles take turns.

use vstd::prelude::*;

use crate::config::{repository_name, repository_name_spec, BuildTarget, Config};
use crate::commit::zero_hash_spec;
use crate::cycle::{cycle_invariant, lemma_step_keeps_cycle_invariant};
use crate::monitor::{
    step_model, Action, ActionModel, Event, Fatal, PhaseModel, TargetModel, TargetState,
};

verus! {

/// What all targets share while the daemon runs.
#[derive(Debug)]
pub struct SharedState {
    /// Path of the build tool.
    pub cargo_path: String,
    /// Base address of the service that receives the binaries.
    pub bin_serve_endpoint: String,
}

/// One checkout the server owns for as long as it runs.
#[derive(Debug)]
pub struct Repository {
    /// Name of the checkout directory, below the configured root.
    pub directory: String,
    /// Where the repository is cloned from if the directory is missing.
    pub url: String,
    /// Path of the SSH private key used to authenticate.
    pub ssh_key: String,
}

/// Why the server could not be set up.
#[derive(Clone, Copy, Debug, PartialEq, Eq, Structural)]
pub enum SpawnError {
    /// The URL of the target at this position names no repository.
    NoRepositoryName { target: usize },
}

/// The server's state.
#[derive(Debug)]
pub struct Server {
    shared: SharedState,
    root: String,
    repositories: Vec<Repository>,
    targets: Vec<TargetState>,
    cursor: usize,
}

/// [`Repository`] over mathematical values.
pub struct RepositoryModel {
    pub directory: Seq<char>,
    pub url: Seq<char>,
    pub ssh_key: Seq<char>,
}

/// [`Server`] over mathematical values.
#[verifier::ext_equal]
pub struct ServerModel {
    /// Path of the build tool.
    pub cargo_path: Seq<char>,
    /// Base address of the service that receives the binaries.
    pub endpoint: Seq<char>,
    /// Directory below which the checkouts live.
    pub root: Seq<char>,
    /// The registry of checkouts; a target refers to its checkout by index.
    pub repositories: Seq<RepositoryModel>,
    /// The targets, in configuration order.
    pub targets: Seq<TargetModel>,
    /// The target whose cycle is under way, or is the next to start.
    pub cursor: nat,
}

impl View for Repository {
    type V = RepositoryModel;

    open spec fn view(&self) -> RepositoryModel {
        RepositoryModel { directory: self.directory@, url: self.url@, ssh_key: self.ssh_key@ }
    }
}

impl View for Server {
    type V = ServerModel;

    closed spec fn view(&self) -> ServerModel {
        ServerModel {
            cargo_path: self.shared.cargo_path@,
            endpoint: self.shared.bin_serve_endpoint@,
            root: self.root@,
            repositories: self.repositories@.map_values(|repository: Repository| repository@),
            targets: self.targets@.map_values(|target: TargetState| target@),
            cursor: self.cursor as nat,
        }
    }
}

/// The registry entry made for a configured target.
pub open spec fn repository_for(target: BuildTarget) -> RepositoryModel {
    RepositoryModel {
        directory: repository_name_spec(target.repository_url@).unwrap(),
        url: target.repository_url@,
        ssh_key: target.ssh_key@,
    }
}

/// The state a configured target starts in: nothing built, between cycles,
/// with the checkout at the target's own position in the registry.
pub open spec fn target_for(position: int, target: BuildTarget) -> TargetModel {
    TargetModel {
        repository: position as nat,
        branch: target.branch@,
        executables: target.executables@,
        last_build: zero_hash_spec(),
        phase: PhaseModel::Idle,
    }
}

/// The server a configuration stands for, where every repository URL of
/// the configuration names a repository: one registry entry and one target
/// per configured target, in configuration order, nothing built yet, and
/// the first target next in turn.
pub open spec fn spawn_model(shared: SharedState, config: Config) -> ServerModel {
    ServerModel {
        cargo_path: shared.cargo_path@,
        endpoint: shared.bin_serve_endpoint@,
        root: config.root@,
        repositories: config.targets@.map_values(|target: BuildTarget| repository_for(target)),
        targets: config.targets@.map(|i: int, target: BuildTarget| target_for(i, target)),
        cursor: 0,
    }
}

/// Whether an action ends the cycle of the target it was decided for.
pub open spec fn ends_cycle(action: ActionModel) -> bool {
    match action {
        ActionModel::Rest { .. } => true,
        ActionModel::Halt { reason } => reason != Fatal::UnexpectedEvent,
        _ => false,
    }
}

/// The position that takes its turn after `cursor` among `count` targets.
pub open spec fn next_in_turn(cursor: nat, count: nat) -> nat {
    if cursor + 1 < count {
        cursor + 1
    } else {
        0
    }
}

/// The server's decision when `event` arrives: the event goes to the
/// target at the cursor, and when that ends the target's cycle the cursor
/// moves on to the next target in configuration order, wrapping round at
/// the end. A server without targets decides nothing.
pub open spec fn handle_model(server: ServerModel, event: Event) -> (
    ServerModel,
    Option<ActionModel>,
) {
    if server.cursor < server.targets.len() {
        let (target, action) = step_model(server.targets[server.cursor as int], event);
        let cursor = if ends_cycle(action) {
            next_in_turn(server.cursor, server.targets.len())
        } else {
            server.cursor
        };
        (
            ServerModel {
                targets: server.targets.update(server.cursor as int, target),
                cursor,
                ..server
            },
            Some(action),
        )
    } else {
        (server, None)
    }
}

/// Whether an action ends the cycle of the target it was decided for.
pub fn action_ends_cycle(action: &Action) -> (ends: bool)
    ensures
        ends == ends_cycle(action@),
{
    match action {
        Action::Rest { .. } => true,
        Action::Halt { reason } => match reason {
            Fatal::UnexpectedEvent => false,
            _ => true,
        },
        _ => false,
    }
}

impl Server {
    /// Sets the server up for a configuration: one registry entry and one
    /// target per configured target, in configuration order, none of them
    /// built yet, and the first target next in turn.
    ///
    /// Fails at the first target whose repository URL names no repository.
    pub fn spawn(shared: SharedState, config: Config) -> (made: Result<Server, SpawnError>)
        ensures
            made is Ok <==> forall|i: int|
                0 <= i < config.targets@.len() ==> repository_name_spec(
                    (#[trigger] config.targets@[i]).repository_url@,
                ) is Some,
            made matches Ok(server) ==> server@ == spawn_model(shared, config) && server_invariant(
                server@,
            ),
            made matches Err(SpawnError::NoRepositoryName { target }) ==> {
                &&& target < config.targets@.len()
                &&& repository_name_spec(config.targets@[target as int].repository_url@) is None
                &&& forall|i: int|
                    0 <= i < target ==> repository_name_spec(
                        (#[trigger] config.targets@[i]).repository_url@,
                    ) is Some
            },
    {
        let Config { root, targets: configured } = config;
        let ghost all = configured@;
        let mut repositories: Vec<Repository> = Vec::new();
        let mut targets: Vec<TargetState> = Vec::new();
        for target in turn: configured
            invariant
                all == config.targets@,
                turn.seq() == all,
                repositories@.len() == turn.index(),
                targets@.len() == turn.index(),
                forall|i: int|
                    0 <= i < turn.index() ==> repository_name_spec(
                        (#[trigger] all[i]).repository_url@,
                    ) is Some,
                forall|i: int|
                    0 <= i < turn.index() ==> (#[trigger] repositories@[i])@ == repository_for(
                        all[i],
                    ),
                forall|i: int|
                    0 <= i < turn.index() ==> (#[trigger] targets@[i])@ == target_for(i, all[i]),
        {
            let position = targets.len();
            let BuildTarget { repository_url, ssh_key, branch, executables } = target;
            match repository_name(repository_url.as_str()) {
                Some(directory) => {
                    repositories.push(Repository { directory, url: repository_url, ssh_key });
                    targets.push(TargetState::new(position, branch, executables));
                },
                None => {
                    assert(repository_name_spec(all[position as int].repository_url@) is None);
                    return Err(SpawnError::NoRepositoryName { target: position });
                },
            }
        }
        let server = Server { shared, root, repositories, targets, cursor: 0 };
        proof {
            let model = spawn_model(shared, config);
            assert(server@.repositories =~= model.repositories);
            assert(server@.targets =~= model.targets);
            lemma_spawned_server_is_sound(shared, config);
        }
        Ok(server)
    }

    /// What all targets share.
    pub fn shared(&self) -> (shared: &SharedState)
        ensures
            shared.cargo_path@ == self@.cargo_path,
            shared.bin_serve_endpoint@ == self@.endpoint,
    {
        &self.shared
    }

    /// Directory below which the checkouts live.
    pub fn root(&self) -> (root: &String)
        ensures
            root@ == self@.root,
    {
        &self.root
    }

    /// Number of targets, which is also the number of registry entries.
    pub fn target_count(&self) -> (count: usize)
        ensures
            count == self@.targets.len(),
    {
        self.targets.len()
    }

    /// The registry entry at `index`, if there is one.
    pub fn repository(&self, index: usize) -> (entry: Option<&Repository>)
        ensures
            entry is Some <==> index < self@.repositories.len(),
            entry matches Some(repository) ==> repository@ == self@.repositories[index as int],
    {
        if index < self.repositories.len() {
            Some(&self.repositories[index])
        } else {
            None
        }
    }

    /// The target at `index`, if there is one.
    pub fn target(&self, index: usize) -> (entry: Option<&TargetState>)
        ensures
            entry is Some <==> index < self@.targets.len(),
            entry matches Some(target) ==> target@ == self@.targets[index as int],
    {
        if index < self.targets.len() {
            Some(&self.targets[index])
        } else {
            None
        }
    }

    /// The target whose cycle is under way or is the next to start; `None`
    /// for a server without targets.
    pub fn current(&self) -> (index: Option<usize>)
        ensures
            index is Some <==> self@.cursor < self@.targets.len(),
            index matches Some(i) ==> i == self@.cursor,
    {
        if self.cursor < self.targets.len() {
            Some(self.cursor)
        } else {
            None
        }
    }

    /// Hands `event` to the target whose turn it is and says what the
    /// caller has to do next for that target. When the answer ends the
    /// target's cycle, the turn passes to the next target.
    pub fn check_target(&mut self, event: Event) -> (action: Option<Action>)
        ensures
            final(self)@ == handle_model(old(self)@, event).0,
            match action {
                Some(decided) => handle_model(old(self)@, event).1 == Some(decided@),
                None => handle_model(old(self)@, event).1 is None,
            },
            server_invariant(old(self)@) ==> server_invariant(final(self)@),
    {
        proof {
            if server_invariant(self@) {
                lemma_handle_keeps_server_invariant(self@, event);
            }
        }
        if self.cursor < self.targets.len() {
            let ghost before = self.targets@;
            let action = self.targets[self.cursor].step(event);
            proof {
                let target = self.targets@[self.cursor as int];
                assert(self.targets@ =~= before.update(self.cursor as int, target));
                assert(self.targets@.map_values(|t: TargetState| t@) =~= before.map_values(
                    |t: TargetState| t@,
                ).update(self.cursor as int, target@));
            }
            if action_ends_cycle(&action) {
                self.cursor = if self.cursor + 1 < self.targets.len() {
                    self.cursor + 1
                } else {
                    0
                };
            }
            Some(action)
        } else {
            None
        }
    }
}

/// The server's state after the events of `events`, taken in order, and
/// the decisions taken on the way.
pub open spec fn serve_model(server: ServerModel, events: Seq<Event>) -> (
    ServerModel,
    Seq<Option<ActionModel>>,
)
    decreases events.len(),
{
    if events.len() == 0 {
        (server, Seq::empty())
    } else {
        let (before, decisions) = serve_model(server, events.drop_last());
        let (after, decision) = handle_model(before, events.last());
        (after, decisions.push(decision))
    }
}

/// How many of the decisions ended a target's cycle.
pub open spec fn cycles_ended(decisions: Seq<Option<ActionModel>>) -> nat
    decreases decisions.len(),
{
    if decisions.len() == 0 {
        0
    } else {
        let earlier = cycles_ended(decisions.drop_last());
        match decisions.last() {
            Some(action) => if ends_cycle(action) {
                earlier + 1
            } else {
                earlier
            },
            None => earlier,
        }
    }
}

/// What holds of a server at every moment: every target has its own entry
/// in the registry, at its own position; a target is in turn unless there
/// is none; every target satisfies [`cycle_invariant`]; and only the target
/// in turn is ever in the middle of a cycle.
pub open spec fn server_invariant(server: ServerModel) -> bool {
    &&& server.repositories.len() == server.targets.len()
    &&& server.targets.len() == 0 || server.cursor < server.targets.len()
    &&& forall|i: int|
        0 <= i < server.targets.len() ==> {
            &&& (#[trigger] server.targets[i]).repository == i
            &&& cycle_invariant(server.targets[i])
            &&& i != server.cursor ==> server.targets[i].phase is Idle
        }
}

/// A server set up from a configuration satisfies [`server_invariant`].
pub proof fn lemma_spawned_server_is_sound(shared: SharedState, config: Config)
    ensures
        server_invariant(spawn_model(shared, config)),
{
}

/// Handling an event keeps [`server_invariant`]. Targets never run side by
/// side: the turn passes on only from a target that is back between cycles.
pub proof fn lemma_handle_keeps_server_invariant(server: ServerModel, event: Event)
    requires
        server_invariant(server),
    ensures
        server_invariant(handle_model(server, event).0),
{
    if server.cursor < server.targets.len() {
        lemma_step_keeps_cycle_invariant(server.targets[server.cursor as int], event);
    }
}

/// [`server_invariant`] holds after any run that starts where it holds.
pub proof fn lemma_serve_keeps_server_invariant(server: ServerModel, events: Seq<Event>)
    requires
        server_invariant(server),
    ensures
        server_invariant(serve_model(server, events).0),
    decreases events.len(),
{
    if events.len() > 0 {
        lemma_serve_keeps_server_invariant(server, events.drop_last());
        lemma_handle_keeps_server_invariant(
            serve_model(server, events.drop_last()).0,
            events.last(),
        );
    }
}

/// One event concerns one target only. It is decided by the target whose
/// turn it is; every other target, the registry and the shared settings
/// stay exactly as they are.
pub proof fn lemma_event_touches_only_the_target_in_turn(server: ServerModel, event: Event)
    ensures
        ({
            let after = handle_model(server, event).0;
            &&& after.targets.len() == server.targets.len()
            &&& forall|i: int|
                0 <= i < server.targets.len() && i != server.cursor ==> #[trigger] after.targets[i]
                    == server.targets[i]
            &&& server.cursor < server.targets.len() ==> after.targets[server.cursor as int]
                == step_model(server.targets[server.cursor as int], event).0
            &&& after.repositories == server.repositories
            &&& after.root == server.root
            &&& after.endpoint == server.endpoint
            &&& after.cargo_path == server.cargo_path
        }),
{
}

/// The turn passes exactly when a cycle ends, and it passes to the next
/// target in configuration order; after the last target comes the first.
pub proof fn lemma_turn_passes_in_configuration_order(server: ServerModel, event: Event)
    requires
        server.cursor < server.targets.len(),
    ensures
        ({
            let (after, decision) = handle_model(server, event);
            &&& decision is Some
            &&& after.cursor < after.targets.len()
            &&& after.cursor as int == if ends_cycle(decision->0) {
                (server.cursor + 1) as int % (server.targets.len() as int)
            } else {
                server.cursor as int
            }
        }),
{
    let count = server.targets.len() as int;
    let cursor = server.cursor as int;
    if cursor + 1 < count {
        assert((cursor + 1) % count == cursor + 1) by {
            vstd::arithmetic::div_mod::lemma_small_mod((cursor + 1) as nat, count as nat);
        }
    } else {
        assert((cursor + 1) % count == 0) by {
            vstd::arithmetic::div_mod::lemma_mod_self_0(count);
        }
    }
}

/// Targets are served round robin. However many events arrive, the target
/// in turn afterwards is the one found by going on from the target in turn
/// before, in configuration order and wrapping round, by as many places as
/// cycles have ended.
pub proof fn lemma_targets_are_served_round_robin(server: ServerModel, events: Seq<Event>)
    requires
        server.cursor < server.targets.len(),
    ensures
        ({
            let (after, decisions) = serve_model(server, events);
            &&& after.targets.len() == server.targets.len()
            &&& decisions.len() == events.len()
            &&& after.cursor as int == (server.cursor + cycles_ended(decisions)) as int % (
            server.targets.len() as int)
        }),
    decreases events.len(),
{
    let count = server.targets.len() as int;
    if events.len() == 0 {
        assert(cycles_ended(Seq::<Option<ActionModel>>::empty()) == 0);
        vstd::arithmetic::div_mod::lemma_small_mod(server.cursor, count as nat);
    } else {
        let (before, earlier) = serve_model(server, events.drop_last());
        let (after, decision) = handle_model(before, events.last());
        lemma_targets_are_served_round_robin(server, events.drop_last());
        lemma_turn_passes_in_configuration_order(before, events.last());
        assert(earlier.push(decision).drop_last() =~= earlier);
        let passed = cycles_ended(earlier) as int;
        if ends_cycle(decision->0) {
            assert(((server.cursor + passed) % count + 1) % count == (server.cursor + passed + 1)
                % count) by {
                vstd::arithmetic::div_mod::lemma_add_mod_noop(
                    server.cursor + passed,
                    1,
                    count,
                );
                if count == 1 {
                    assert(1int % 1 == 0);
                    assert((server.cursor + passed) % count == 0);
                } else {
                    vstd::arithmetic::div_mod::lemma_small_mod(1, count as nat);
                }
            }
        }
    }
}

} // verus!
