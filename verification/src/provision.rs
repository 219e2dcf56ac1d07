//! Getting a repository ready: open the checkout if it is there, clone it
//! if it is not, and after a clone bring in every submodule, however deep
//! they are nested.
//!
//! The caller does the work on disk and on the network. The decisions are
//! taken here: which credential answers an authentication request, and in
//! which order repositories have their submodules synced. That order is
//! kept on an explicit worklist, so nesting depth never becomes call depth.

use vstd::prelude::*;
use vstd::string::*;

verus! {

/// With what an authentication request of the remote is answered.
#[derive(Debug, PartialEq, Eq)]
pub enum Credential {
    /// Only the user name is asked for.
    Username { user: String },
    /// The user's SSH private key is asked for.
    SshKey { user: String },
}

/// [`Credential`] over mathematical values.
pub enum CredentialModel {
    Username { user: Seq<char> },
    SshKey { user: Seq<char> },
}

impl View for Credential {
    type V = CredentialModel;

    open spec fn view(&self) -> CredentialModel {
        match self {
            Credential::Username { user } => CredentialModel::Username { user: user@ },
            Credential::SshKey { user } => CredentialModel::SshKey { user: user@ },
        }
    }
}

/// The user to authenticate as: the one named in the URL if there is one,
/// the suggested one if not.
pub open spec fn user_model(user_from_url: Option<&str>, suggested: Seq<char>) -> Seq<char> {
    match user_from_url {
        Some(user) => user@,
        None => suggested,
    }
}

/// The answer to an authentication request.
pub open spec fn credential_model(
    user_from_url: Option<&str>,
    suggested: Seq<char>,
    username_only: bool,
) -> CredentialModel {
    if username_only {
        CredentialModel::Username { user: user_model(user_from_url, suggested) }
    } else {
        CredentialModel::SshKey { user: user_model(user_from_url, suggested) }
    }
}

/// The answer to an authentication request. `username_only` says whether
/// the remote asks for nothing but a user name.
pub fn choose_credential(
    user_from_url: Option<&str>,
    suggested: &str,
    username_only: bool,
) -> (credential: Credential)
    ensures
        credential@ == credential_model(user_from_url, suggested@, username_only),
{
    let user = match user_from_url {
        Some(user) => String::from_str(user),
        None => String::from_str(suggested),
    };
    if username_only {
        Credential::Username { user }
    } else {
        Credential::SshKey { user }
    }
}

/// Why a repository could not be made ready.
#[derive(Clone, Copy, Debug, PartialEq, Eq, Structural)]
pub enum ProvisionError {
    /// The checkout exists but could not be opened.
    OpenFailed,
    /// The repository could not be cloned.
    CloneFailed,
    /// A submodule could not be updated or opened.
    SubmoduleFailed,
    /// More repositories were opened than can be counted.
    TooManyRepositories,
    /// An event arrived that the current phase does not wait for.
    UnexpectedEvent,
}

/// What the caller has to do next.
#[derive(Clone, Copy, Debug, PartialEq, Eq, Structural)]
pub enum ProvisionAction {
    /// Open the checkout that is on disk.
    OpenExisting,
    /// Clone the repository into the missing directory.
    CloneRepository,
    /// Initialise and update each submodule of the repository with this
    /// handle, then open each of them.
    SyncSubmodules { repository: usize },
    /// The repository is ready.
    Finish,
    /// The repository cannot be used.
    Fail { reason: ProvisionError },
}

/// What the caller reports back.
#[derive(Clone, Copy, Debug, PartialEq, Eq, Structural)]
pub enum ProvisionEvent {
    /// Whether the checkout directory exists.
    PathChecked { exists: bool },
    /// Whether the checkout could be opened.
    Opened { ok: bool },
    /// Whether the repository could be cloned.
    Cloned { ok: bool },
    /// How many submodules were updated and opened, in the order in which
    /// the repository lists them; `None` if one of them failed.
    SubmodulesSynced { found: Option<usize> },
}

/// How far provisioning has come.
#[derive(Clone, Copy, Debug, PartialEq, Eq, Structural)]
pub enum ProvisionPhase {
    /// Waiting to learn whether the checkout exists.
    Start,
    /// Waiting for the checkout to be opened.
    Opening,
    /// Waiting for the clone.
    Cloning,
    /// Waiting for the submodules of this repository.
    Walking { repository: usize },
    /// The repository is ready.
    Ready,
    /// The repository cannot be used.
    Failed,
}

/// The state of provisioning one repository.
///
/// Repositories are known by handles. The cloned repository has handle 0;
/// submodules get the next free handles in the order in which they are
/// reported.
#[derive(Debug)]
pub struct Provisioner {
    phase: ProvisionPhase,
    pending: Vec<usize>,
    opened: usize,
}

/// [`Provisioner`] over mathematical values.
#[verifier::ext_equal]
pub struct ProvisionerModel {
    /// How far provisioning has come.
    pub phase: ProvisionPhase,
    /// Handles of the repositories whose submodules are still to be synced;
    /// the last one is taken first.
    pub pending: Seq<usize>,
    /// Number of handles given out so far.
    pub opened: nat,
}

impl View for Provisioner {
    type V = ProvisionerModel;

    closed spec fn view(&self) -> ProvisionerModel {
        ProvisionerModel { phase: self.phase, pending: self.pending@, opened: self.opened as nat }
    }
}

/// The handles from `first` up to, but not including, `first + count`.
pub open spec fn fresh_handles(first: nat, count: nat) -> Seq<usize> {
    Seq::new(count, |i: int| (first + i) as usize)
}

/// Takes the next repository off the worklist, or finishes if none is left.
pub open spec fn take_next(state: ProvisionerModel) -> (ProvisionerModel, ProvisionAction) {
    if state.pending.len() == 0 {
        (ProvisionerModel { phase: ProvisionPhase::Ready, ..state }, ProvisionAction::Finish)
    } else {
        (
            ProvisionerModel {
                phase: ProvisionPhase::Walking { repository: state.pending.last() },
                pending: state.pending.drop_last(),
                ..state
            },
            ProvisionAction::SyncSubmodules { repository: state.pending.last() },
        )
    }
}

/// Provisioning given up for `reason`.
pub open spec fn failed(state: ProvisionerModel, reason: ProvisionError) -> (
    ProvisionerModel,
    ProvisionAction,
) {
    (
        ProvisionerModel { phase: ProvisionPhase::Failed, ..state },
        ProvisionAction::Fail { reason },
    )
}

/// The decision taken in `state` when `event` arrives.
pub open spec fn provision_model(state: ProvisionerModel, event: ProvisionEvent) -> (
    ProvisionerModel,
    ProvisionAction,
) {
    match (state.phase, event) {
        (ProvisionPhase::Start, ProvisionEvent::PathChecked { exists }) => if exists {
            (
                ProvisionerModel { phase: ProvisionPhase::Opening, ..state },
                ProvisionAction::OpenExisting,
            )
        } else {
            (
                ProvisionerModel { phase: ProvisionPhase::Cloning, ..state },
                ProvisionAction::CloneRepository,
            )
        },
        (ProvisionPhase::Opening, ProvisionEvent::Opened { ok }) => if ok {
            (ProvisionerModel { phase: ProvisionPhase::Ready, ..state }, ProvisionAction::Finish)
        } else {
            failed(state, ProvisionError::OpenFailed)
        },
        (ProvisionPhase::Cloning, ProvisionEvent::Cloned { ok }) => if ok {
            (
                ProvisionerModel {
                    phase: ProvisionPhase::Walking { repository: 0 },
                    pending: Seq::empty(),
                    opened: 1,
                },
                ProvisionAction::SyncSubmodules { repository: 0 },
            )
        } else {
            failed(state, ProvisionError::CloneFailed)
        },
        (ProvisionPhase::Walking { repository }, ProvisionEvent::SubmodulesSynced { found }) => {
            match found {
                Some(count) => if state.opened + count > usize::MAX {
                    failed(state, ProvisionError::TooManyRepositories)
                } else {
                    take_next(
                        ProvisionerModel {
                            pending: state.pending + fresh_handles(state.opened, count as nat),
                            opened: state.opened + count as nat,
                            ..state
                        },
                    )
                },
                None => failed(state, ProvisionError::SubmoduleFailed),
            }
        },
        _ => (state, ProvisionAction::Fail { reason: ProvisionError::UnexpectedEvent }),
    }
}

impl Provisioner {
    /// Provisioning that has not begun. The caller starts by finding out
    /// whether the checkout directory exists.
    pub fn new() -> (state: Self)
        ensures
            state@ == (ProvisionerModel {
                phase: ProvisionPhase::Start,
                pending: Seq::empty(),
                opened: 0,
            }),
    {
        Provisioner { phase: ProvisionPhase::Start, pending: Vec::new(), opened: 0 }
    }

    /// How far provisioning has come.
    pub fn phase(&self) -> (phase: ProvisionPhase)
        ensures
            phase == self@.phase,
    {
        self.phase
    }

    /// Number of handles given out so far.
    pub fn opened(&self) -> (count: usize)
        ensures
            count == self@.opened,
    {
        self.opened
    }

    /// Takes the next repository off the worklist, or finishes.
    fn next(&mut self) -> (action: ProvisionAction)
        ensures
            (final(self)@, action) == take_next(old(self)@),
    {
        match self.pending.pop() {
            Some(repository) => {
                self.phase = ProvisionPhase::Walking { repository };
                ProvisionAction::SyncSubmodules { repository }
            },
            None => {
                self.phase = ProvisionPhase::Ready;
                ProvisionAction::Finish
            },
        }
    }

    /// Gives provisioning up.
    fn fail(&mut self, reason: ProvisionError) -> (action: ProvisionAction)
        ensures
            (final(self)@, action) == failed(old(self)@, reason),
    {
        self.phase = ProvisionPhase::Failed;
        ProvisionAction::Fail { reason }
    }

    /// Takes `event` into account and says what the caller has to do next.
    pub fn step(&mut self, event: ProvisionEvent) -> (action: ProvisionAction)
        ensures
            final(self)@ == provision_model(old(self)@, event).0,
            action == provision_model(old(self)@, event).1,
    {
        match (self.phase, event) {
            (ProvisionPhase::Start, ProvisionEvent::PathChecked { exists }) => {
                if exists {
                    self.phase = ProvisionPhase::Opening;
                    ProvisionAction::OpenExisting
                } else {
                    self.phase = ProvisionPhase::Cloning;
                    ProvisionAction::CloneRepository
                }
            },
            (ProvisionPhase::Opening, ProvisionEvent::Opened { ok }) => {
                if ok {
                    self.phase = ProvisionPhase::Ready;
                    ProvisionAction::Finish
                } else {
                    self.fail(ProvisionError::OpenFailed)
                }
            },
            (ProvisionPhase::Cloning, ProvisionEvent::Cloned { ok }) => {
                if ok {
                    self.phase = ProvisionPhase::Walking { repository: 0 };
                    self.pending = Vec::new();
                    self.opened = 1;
                    ProvisionAction::SyncSubmodules { repository: 0 }
                } else {
                    self.fail(ProvisionError::CloneFailed)
                }
            },
            (
                ProvisionPhase::Walking { repository },
                ProvisionEvent::SubmodulesSynced { found },
            ) => {
                match found {
                    Some(count) => {
                        if count > usize::MAX - self.opened {
                            self.fail(ProvisionError::TooManyRepositories)
                        } else {
                            let first = self.opened;
                            let ghost before = self.pending@;
                            let mut i: usize = 0;
                            while i < count
                                invariant
                                    i <= count,
                                    first + count <= usize::MAX,
                                    self.phase == old(self).phase,
                                    self.opened == first,
                                    self.pending@ == before + fresh_handles(first as nat, i as nat),
                                decreases count - i,
                            {
                                self.pending.push(first + i);
                                i += 1;
                                assert(self.pending@ =~= before + fresh_handles(
                                    first as nat,
                                    i as nat,
                                ));
                            }
                            self.opened = first + count;
                            self.next()
                        }
                    },
                    None => self.fail(ProvisionError::SubmoduleFailed),
                }
            },
            _ => ProvisionAction::Fail { reason: ProvisionError::UnexpectedEvent },
        }
    }
}

/// The state before anything has happened.
pub open spec fn initial_model() -> ProvisionerModel {
    ProvisionerModel { phase: ProvisionPhase::Start, pending: Seq::empty(), opened: 0 }
}

/// The state reached from the start after the events of `events`, taken in
/// order, together with the actions that were asked for on the way.
pub open spec fn provision_run(events: Seq<ProvisionEvent>) -> (
    ProvisionerModel,
    Seq<ProvisionAction>,
)
    decreases events.len(),
{
    if events.len() == 0 {
        (initial_model(), Seq::empty())
    } else {
        let (before, actions) = provision_run(events.drop_last());
        let (after, action) = provision_model(before, events.last());
        (after, actions.push(action))
    }
}

/// The request to sync the submodules of the repository with handle
/// `repository`.
pub open spec fn sync_of(repository: usize) -> ProvisionAction {
    ProvisionAction::SyncSubmodules { repository }
}

/// What holds of the worklist and of the syncs asked for so far, at every
/// moment of provisioning: the worklist holds handles that were given out,
/// in rising order; a sync was asked for exactly the handles that were
/// given out and are no longer on the worklist; and no sync was asked for
/// twice.
pub open spec fn walk_invariant(state: ProvisionerModel, actions: Seq<ProvisionAction>) -> bool {
    &&& state.opened <= usize::MAX
    &&& forall|i: int, j: int|
        0 <= i < j < state.pending.len() ==> state.pending[i] < state.pending[j]
    &&& forall|i: int| 0 <= i < state.pending.len() ==> state.pending[i] < state.opened
    &&& forall|handle: usize| #[trigger]
        actions.contains(sync_of(handle)) <==> handle < state.opened && !state.pending.contains(
            handle,
        )
    &&& forall|i: int, j: int|
        0 <= i < j < actions.len() && actions[i] is SyncSubmodules ==> actions[i] != actions[j]
    &&& (state.phase is Start || state.phase is Opening || state.phase is Cloning)
        ==> state.opened == 0 && state.pending.len() == 0
    &&& state.phase is Ready ==> state.pending.len() == 0
}

/// Taking the next repository off the worklist keeps [`walk_invariant`].
proof fn lemma_take_next_keeps_invariant(state: ProvisionerModel, actions: Seq<ProvisionAction>)
    requires
        walk_invariant(state, actions),
        state.phase is Walking,
    ensures
        walk_invariant(take_next(state).0, actions.push(take_next(state).1)),
{
    let (after, action) = take_next(state);
    let asked = actions.push(action);
    if state.pending.len() == 0 {
        assert forall|handle: usize| #[trigger]
            asked.contains(sync_of(handle)) <==> handle < after.opened && !after.pending.contains(
                handle,
            ) by {
            if asked.contains(sync_of(handle)) {
                let at = choose|at: int| 0 <= at < asked.len() && asked[at] == sync_of(handle);
                assert(actions[at] == sync_of(handle));
                assert(actions.contains(sync_of(handle)));
            }
            if actions.contains(sync_of(handle)) {
                let at = choose|at: int| 0 <= at < actions.len() && actions[at] == sync_of(handle);
                assert(asked[at] == sync_of(handle));
            }
        }
    } else {
        let last = state.pending.len() - 1;
        let taken = state.pending[last];
        assert(state.pending.contains(taken));
        assert(!actions.contains(sync_of(taken)));
        assert forall|handle: usize| #[trigger]
            asked.contains(sync_of(handle)) <==> handle < after.opened && !after.pending.contains(
                handle,
            ) by {
            if asked.contains(sync_of(handle)) {
                let at = choose|at: int| 0 <= at < asked.len() && asked[at] == sync_of(handle);
                if at < actions.len() {
                    assert(actions[at] == sync_of(handle));
                    assert(actions.contains(sync_of(handle)));
                    if after.pending.contains(handle) {
                        let k = choose|k: int|
                            0 <= k < after.pending.len() && after.pending[k] == handle;
                        assert(state.pending[k] == handle);
                        assert(state.pending.contains(handle));
                    }
                } else {
                    assert(handle == taken);
                    if after.pending.contains(handle) {
                        let k = choose|k: int|
                            0 <= k < after.pending.len() && after.pending[k] == handle;
                        assert(state.pending[k] < state.pending[last]);
                    }
                }
            }
            if handle < after.opened && !after.pending.contains(handle) {
                if handle == taken {
                    assert(asked[actions.len() as int] == sync_of(handle));
                } else {
                    if state.pending.contains(handle) {
                        let k = choose|k: int|
                            0 <= k < state.pending.len() && state.pending[k] == handle;
                        assert(after.pending[k] == handle);
                    }
                    assert(actions.contains(sync_of(handle)));
                    let at = choose|at: int|
                        0 <= at < actions.len() && actions[at] == sync_of(handle);
                    assert(asked[at] == sync_of(handle));
                }
            }
        }
        assert forall|i: int, j: int|
            0 <= i < j < asked.len() && asked[i] is SyncSubmodules implies asked[i]
            != asked[j] by {
            if j == actions.len() {
                if asked[i] == asked[j] {
                    assert(actions[i] == sync_of(taken));
                    assert(actions.contains(sync_of(taken)));
                }
            }
        }
    }
}

/// A step keeps [`walk_invariant`].
proof fn lemma_step_keeps_invariant(
    state: ProvisionerModel,
    actions: Seq<ProvisionAction>,
    event: ProvisionEvent,
)
    requires
        walk_invariant(state, actions),
    ensures
        walk_invariant(
            provision_model(state, event).0,
            actions.push(provision_model(state, event).1),
        ),
{
    let (after, action) = provision_model(state, event);
    let asked = actions.push(action);
    let widened = match (state.phase, event) {
        (
            ProvisionPhase::Walking { .. },
            ProvisionEvent::SubmodulesSynced { found: Some(count) },
        ) => { state.opened + count <= usize::MAX },
        _ => false,
    };
    let cloned = state.phase is Cloning && event == (ProvisionEvent::Cloned { ok: true });
    if widened {
        let count = event->found->0;
        let fresh = fresh_handles(state.opened, count as nat);
        let grown = ProvisionerModel {
            pending: state.pending + fresh,
            opened: state.opened + count as nat,
            ..state
        };
        assert forall|handle: usize| #[trigger]
            actions.contains(sync_of(handle)) <==> handle < grown.opened && !grown.pending.contains(
                handle,
            ) by {
            if grown.pending.contains(handle) {
                let k = choose|k: int| 0 <= k < grown.pending.len() && grown.pending[k] == handle;
                if k < state.pending.len() {
                    assert(state.pending[k] == handle);
                    assert(state.pending.contains(handle));
                } else {
                    assert(fresh[k - state.pending.len()] == handle);
                }
            }
            if state.pending.contains(handle) {
                let k = choose|k: int| 0 <= k < state.pending.len() && state.pending[k] == handle;
                assert(grown.pending[k] == handle);
            }
            if state.opened <= handle < grown.opened {
                assert(grown.pending[state.pending.len() + (handle - state.opened)] == handle);
            }
        }
        assert(walk_invariant(grown, actions));
        lemma_take_next_keeps_invariant(grown, actions);
    } else if cloned {
        assert forall|handle: usize| #[trigger]
            asked.contains(sync_of(handle)) <==> handle < after.opened && !after.pending.contains(
                handle,
            ) by {
            if asked.contains(sync_of(handle)) {
                let at = choose|at: int| 0 <= at < asked.len() && asked[at] == sync_of(handle);
                if at < actions.len() {
                    assert(actions[at] == sync_of(handle));
                    assert(actions.contains(sync_of(handle)));
                }
            }
            if handle == 0 {
                assert(asked[actions.len() as int] == sync_of(handle));
            }
        }
        assert forall|i: int, j: int|
            0 <= i < j < asked.len() && asked[i] is SyncSubmodules implies asked[i]
            != asked[j] by {
            if asked[i] is SyncSubmodules {
                assert(actions[i] == sync_of(actions[i]->repository));
                assert(actions.contains(sync_of(actions[i]->repository)));
            }
        }
    } else {
        assert(after.pending == state.pending);
        assert(after.opened == state.opened);
        assert(!(action is SyncSubmodules));
        assert forall|handle: usize| #[trigger]
            asked.contains(sync_of(handle)) <==> handle < after.opened && !after.pending.contains(
                handle,
            ) by {
            if asked.contains(sync_of(handle)) {
                let at = choose|at: int| 0 <= at < asked.len() && asked[at] == sync_of(handle);
                assert(actions[at] == sync_of(handle));
                assert(actions.contains(sync_of(handle)));
            }
            if actions.contains(sync_of(handle)) {
                let at = choose|at: int| 0 <= at < actions.len() && actions[at] == sync_of(handle);
                assert(asked[at] == sync_of(handle));
            }
        }
    }
}

/// [`walk_invariant`] holds at every moment of provisioning.
pub proof fn lemma_walk_invariant_holds(events: Seq<ProvisionEvent>)
    ensures
        walk_invariant(provision_run(events).0, provision_run(events).1),
    decreases events.len(),
{
    if events.len() == 0 {
        let none = Seq::<ProvisionAction>::empty();
        assert forall|handle: usize| !(#[trigger] none.contains(sync_of(handle))) by {}
    } else {
        lemma_walk_invariant_holds(events.drop_last());
        lemma_step_keeps_invariant(
            provision_run(events.drop_last()).0,
            provision_run(events.drop_last()).1,
            events.last(),
        );
    }
}

/// The submodule walk is complete and never repeats itself. Whatever the
/// caller reports, no repository is asked to sync its submodules twice, and
/// when provisioning ends ready, every repository that was opened on the
/// way, at whatever depth, has been asked to sync its submodules.
pub proof fn lemma_every_repository_is_synced_once(events: Seq<ProvisionEvent>)
    ensures
        ({
            let (end, actions) = provision_run(events);
            &&& forall|i: int, j: int|
                0 <= i < j < actions.len() && actions[i] is SyncSubmodules ==> actions[i]
                    != actions[j]
            &&& forall|handle: usize| #[trigger]
                actions.contains(sync_of(handle)) ==> handle < end.opened
            &&& end.phase is Ready ==> forall|handle: usize|
                handle < end.opened ==> #[trigger] actions.contains(sync_of(handle))
        }),
{
    lemma_walk_invariant_holds(events);
    let (end, actions) = provision_run(events);
    if end.phase is Ready {
        assert forall|handle: usize| handle < end.opened implies #[trigger] actions.contains(
            sync_of(handle),
        ) by {
            assert(!end.pending.contains(handle));
        }
    }
}

} // verus!
