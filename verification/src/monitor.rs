//! The poll cycle of one target: fetch, reset, compare, and on a new commit
//! purge, build and publish.
//!
//! The cycle is a state machine. The caller performs each [`Action`] and
//! reports what came of it as an [`Event`]; [`TargetState::step`] decides
//! what happens next. [`step_model`] is the same decision over mathematical
//! values, and the laws at the end of this module are stated over it.

use vstd::prelude::*;

use crate::artifact::{candidate_names, read_executables, DirectoryEntry};
use crate::commit::{same_hash, zero_hash, zero_hash_spec};
use crate::cycle::{cycle_invariant, lemma_step_keeps_cycle_invariant};
use crate::executables::ExecutableSet;
use crate::text::texts_of;
use crate::upload::{plan_uploads, planned_uploads, upload_accepted, upload_file_name, upload_name};

verus! {

/// Why a cycle must not simply be retried.
#[derive(Clone, Copy, Debug, PartialEq, Eq, Structural)]
pub enum Fatal {
    /// The working tree could not be reset to the remote branch.
    ResetFailed,
    /// The build tool reported failure.
    BuildFailed,
    /// An event arrived that the current phase does not wait for.
    UnexpectedEvent,
}

/// How a cycle ended when nothing fatal happened.
#[derive(Debug, PartialEq, Eq)]
pub enum Outcome {
    /// The remote could not be fetched; the next cycle tries again.
    FetchFailed,
    /// The branch still points at the commit that was built last.
    Unchanged,
    /// The build succeeded but its output could not be listed; the same
    /// commit is built again in the next cycle.
    ListingFailed,
    /// The commit was built and every planned upload was attempted.
    /// `failed` names the binaries the endpoint did not accept.
    Published { failed: Vec<String> },
}

/// What the caller has to do next for the target.
#[derive(Debug, PartialEq, Eq)]
pub enum Action {
    /// Update the remote-tracking refs.
    Fetch,
    /// Force working tree and index to the tip of the remote branch.
    ResetHard,
    /// Read the hash of the commit that is checked out.
    ReadHead,
    /// List the build-output directory as it is before the build.
    ListStale,
    /// Delete these files from the build-output directory.
    RemoveStale { names: Vec<String> },
    /// Run the build tool.
    Build,
    /// List the build-output directory as the build left it.
    ListArtifacts,
    /// Publish the file `binary` under the name `file_name`.
    Upload { binary: String, file_name: String },
    /// The cycle is over; nothing is to be done until the target is woken
    /// again.
    Rest { outcome: Outcome },
    /// The cycle was abandoned for a reason that retrying will not mend.
    Halt { reason: Fatal },
}

/// What the caller reports back.
#[derive(Debug)]
pub enum Event {
    /// It is this target's turn.
    Wake,
    /// The fetch ended. `None` stands for an end without an exit code.
    FetchFinished { exit_code: Option<i32> },
    /// The reset ended. `None` stands for an end without an exit code.
    ResetFinished { exit_code: Option<i32> },
    /// The checked-out commit was read.
    HeadRead { hash: [u8; 20] },
    /// The build-output directory was listed before the build. `None`
    /// stands for a directory that could not be read.
    StaleListed { entries: Option<Vec<DirectoryEntry>> },
    /// The stale files are gone.
    StaleRemoved,
    /// The build tool ended. `None` stands for an end without an exit code.
    BuildFinished { exit_code: Option<i32> },
    /// The build-output directory was listed after the build. `None`
    /// stands for a directory that could not be read.
    ArtifactsListed { entries: Option<Vec<DirectoryEntry>> },
    /// The endpoint answered an upload with this status.
    UploadFinished { status: u16 },
}

/// Where in its cycle a target is.
#[derive(Debug)]
pub enum Phase {
    /// Between cycles.
    Idle,
    /// Waiting for the fetch to end.
    Fetching,
    /// Waiting for the reset to end.
    Resetting,
    /// Waiting for the checked-out commit's hash.
    Comparing,
    /// Waiting for the listing of stale artifacts.
    Purging { head: [u8; 20] },
    /// Waiting for the stale artifacts to be deleted.
    Removing { head: [u8; 20] },
    /// Waiting for the build tool to end.
    Building { head: [u8; 20] },
    /// Waiting for the listing of fresh artifacts.
    Scanning { head: [u8; 20] },
    /// Waiting for the answer to the upload of `queue[next]`.
    Uploading { head: [u8; 20], queue: Vec<String>, next: usize, failed: Vec<String> },
}

/// One monitored target and the state of its cycle.
#[derive(Debug)]
pub struct TargetState {
    repository: usize,
    branch: String,
    executables: ExecutableSet,
    last_build: [u8; 20],
    phase: Phase,
}

/// [`Outcome`] over mathematical values.
#[verifier::ext_equal]
pub enum OutcomeModel {
    FetchFailed,
    Unchanged,
    ListingFailed,
    Published { failed: Seq<Seq<char>> },
}

/// [`Action`] over mathematical values.
#[verifier::ext_equal]
pub enum ActionModel {
    Fetch,
    ResetHard,
    ReadHead,
    ListStale,
    RemoveStale { names: Seq<Seq<char>> },
    Build,
    ListArtifacts,
    Upload { binary: Seq<char>, file_name: Seq<char> },
    Rest { outcome: OutcomeModel },
    Halt { reason: Fatal },
}

/// [`Phase`] over mathematical values.
#[verifier::ext_equal]
pub enum PhaseModel {
    Idle,
    Fetching,
    Resetting,
    Comparing,
    Purging { head: Seq<u8> },
    Removing { head: Seq<u8> },
    Building { head: Seq<u8> },
    Scanning { head: Seq<u8> },
    Uploading { head: Seq<u8>, queue: Seq<Seq<char>>, next: nat, failed: Seq<Seq<char>> },
}

/// [`TargetState`] over mathematical values.
#[verifier::ext_equal]
pub struct TargetModel {
    /// Index of the target's repository in the server's registry.
    pub repository: nat,
    /// The branch that is followed.
    pub branch: Seq<char>,
    /// The names of the binaries that are published.
    pub executables: Set<Seq<char>>,
    /// The commit that was built last; all zero before the first build.
    pub last_build: Seq<u8>,
    /// Where in its cycle the target is.
    pub phase: PhaseModel,
}

impl View for Outcome {
    type V = OutcomeModel;

    open spec fn view(&self) -> OutcomeModel {
        match self {
            Outcome::FetchFailed => OutcomeModel::FetchFailed,
            Outcome::Unchanged => OutcomeModel::Unchanged,
            Outcome::ListingFailed => OutcomeModel::ListingFailed,
            Outcome::Published { failed } => OutcomeModel::Published { failed: texts_of(failed@) },
        }
    }
}

impl View for Action {
    type V = ActionModel;

    open spec fn view(&self) -> ActionModel {
        match self {
            Action::Fetch => ActionModel::Fetch,
            Action::ResetHard => ActionModel::ResetHard,
            Action::ReadHead => ActionModel::ReadHead,
            Action::ListStale => ActionModel::ListStale,
            Action::RemoveStale { names } => ActionModel::RemoveStale { names: texts_of(names@) },
            Action::Build => ActionModel::Build,
            Action::ListArtifacts => ActionModel::ListArtifacts,
            Action::Upload { binary, file_name } => ActionModel::Upload {
                binary: binary@,
                file_name: file_name@,
            },
            Action::Rest { outcome } => ActionModel::Rest { outcome: outcome@ },
            Action::Halt { reason } => ActionModel::Halt { reason: *reason },
        }
    }
}

impl View for Phase {
    type V = PhaseModel;

    open spec fn view(&self) -> PhaseModel {
        match self {
            Phase::Idle => PhaseModel::Idle,
            Phase::Fetching => PhaseModel::Fetching,
            Phase::Resetting => PhaseModel::Resetting,
            Phase::Comparing => PhaseModel::Comparing,
            Phase::Purging { head } => PhaseModel::Purging { head: head@ },
            Phase::Removing { head } => PhaseModel::Removing { head: head@ },
            Phase::Building { head } => PhaseModel::Building { head: head@ },
            Phase::Scanning { head } => PhaseModel::Scanning { head: head@ },
            Phase::Uploading { head, queue, next, failed } => PhaseModel::Uploading {
                head: head@,
                queue: texts_of(queue@),
                next: *next as nat,
                failed: texts_of(failed@),
            },
        }
    }
}

impl View for TargetState {
    type V = TargetModel;

    closed spec fn view(&self) -> TargetModel {
        TargetModel {
            repository: self.repository as nat,
            branch: self.branch@,
            executables: self.executables@,
            last_build: self.last_build@,
            phase: self.phase@,
        }
    }
}

/// Whether a process ended with exit code zero.
pub open spec fn exited_cleanly(exit_code: Option<i32>) -> bool {
    exit_code == Some(0i32)
}

/// The names to delete before a build: the candidate binaries of the
/// listing, or nothing where the directory could not be read.
pub open spec fn stale_names(entries: Option<Vec<DirectoryEntry>>) -> Seq<Seq<char>> {
    match entries {
        Some(listing) => candidate_names(listing@),
        None => Seq::empty(),
    }
}

/// The action that publishes the binary at position `at` of a queue.
pub open spec fn upload_action(queue: Seq<Seq<char>>, at: nat, head: Seq<u8>) -> ActionModel {
    ActionModel::Upload {
        binary: queue[at as int],
        file_name: upload_name(queue[at as int], head),
    }
}

/// The end of a cycle in which `head` was built: the target is idle again
/// and remembers `head` as built.
pub open spec fn published(state: TargetModel, head: Seq<u8>, failed: Seq<Seq<char>>) -> (
    TargetModel,
    ActionModel,
) {
    (
        TargetModel { phase: PhaseModel::Idle, last_build: head, ..state },
        ActionModel::Rest { outcome: OutcomeModel::Published { failed } },
    )
}

/// The target back between cycles, with what it remembers untouched.
pub open spec fn at_rest(state: TargetModel) -> TargetModel {
    TargetModel { phase: PhaseModel::Idle, ..state }
}

/// The decision taken in `state` when `event` arrives: the state that
/// follows and the action the caller is asked for.
pub open spec fn step_model(state: TargetModel, event: Event) -> (TargetModel, ActionModel) {
    match (state.phase, event) {
        (PhaseModel::Idle, Event::Wake) => (
            TargetModel { phase: PhaseModel::Fetching, ..state },
            ActionModel::Fetch,
        ),
        (PhaseModel::Fetching, Event::FetchFinished { exit_code }) => if exited_cleanly(
            exit_code,
        ) {
            (TargetModel { phase: PhaseModel::Resetting, ..state }, ActionModel::ResetHard)
        } else {
            (at_rest(state), ActionModel::Rest { outcome: OutcomeModel::FetchFailed })
        },
        (PhaseModel::Resetting, Event::ResetFinished { exit_code }) => if exited_cleanly(
            exit_code,
        ) {
            (TargetModel { phase: PhaseModel::Comparing, ..state }, ActionModel::ReadHead)
        } else {
            (at_rest(state), ActionModel::Halt { reason: Fatal::ResetFailed })
        },
        (PhaseModel::Comparing, Event::HeadRead { hash }) => if hash@ == state.last_build {
            (at_rest(state), ActionModel::Rest { outcome: OutcomeModel::Unchanged })
        } else {
            (
                TargetModel { phase: PhaseModel::Purging { head: hash@ }, ..state },
                ActionModel::ListStale,
            )
        },
        (PhaseModel::Purging { head }, Event::StaleListed { entries }) => (
            TargetModel { phase: PhaseModel::Removing { head }, ..state },
            ActionModel::RemoveStale { names: stale_names(entries) },
        ),
        (PhaseModel::Removing { head }, Event::StaleRemoved) => (
            TargetModel { phase: PhaseModel::Building { head }, ..state },
            ActionModel::Build,
        ),
        (PhaseModel::Building { head }, Event::BuildFinished { exit_code }) => if exited_cleanly(
            exit_code,
        ) {
            (
                TargetModel { phase: PhaseModel::Scanning { head }, ..state },
                ActionModel::ListArtifacts,
            )
        } else {
            (at_rest(state), ActionModel::Halt { reason: Fatal::BuildFailed })
        },
        (PhaseModel::Scanning { head }, Event::ArtifactsListed { entries }) => match entries {
            Some(listing) => {
                let queue = planned_uploads(listing@, state.executables);
                if queue.len() == 0 {
                    published(state, head, Seq::empty())
                } else {
                    (
                        TargetModel {
                            phase: PhaseModel::Uploading {
                                head,
                                queue,
                                next: 0,
                                failed: Seq::empty(),
                            },
                            ..state
                        },
                        upload_action(queue, 0, head),
                    )
                }
            },
            None => (at_rest(state), ActionModel::Rest { outcome: OutcomeModel::ListingFailed }),
        },
        (
            PhaseModel::Uploading { head, queue, next, failed },
            Event::UploadFinished { status },
        ) => {
            let failed = if status == 200 || next >= queue.len() {
                failed
            } else {
                failed.push(queue[next as int])
            };
            if next + 1 < queue.len() {
                (
                    TargetModel {
                        phase: PhaseModel::Uploading { head, queue, next: next + 1, failed },
                        ..state
                    },
                    upload_action(queue, next + 1, head),
                )
            } else {
                published(state, head, failed)
            }
        },
        _ => (state, ActionModel::Halt { reason: Fatal::UnexpectedEvent }),
    }
}

/// Whether a process ended with exit code zero.
pub fn exit_ok(exit_code: Option<i32>) -> (ok: bool)
    ensures
        ok == exited_cleanly(exit_code),
{
    match exit_code {
        Some(code) => code == 0,
        None => false,
    }
}

impl TargetState {
    /// A target that has not built anything yet and is between cycles.
    pub fn new(repository: usize, branch: String, executables: ExecutableSet) -> (state: Self)
        ensures
            state@ == (TargetModel {
                repository: repository as nat,
                branch: branch@,
                executables: executables@,
                last_build: zero_hash_spec(),
                phase: PhaseModel::Idle,
            }),
            cycle_invariant(state@),
    {
        TargetState { repository, branch, executables, last_build: zero_hash(), phase: Phase::Idle }
    }

    /// Index of the target's repository in the server's registry.
    pub fn repository(&self) -> (index: usize)
        ensures
            index == self@.repository,
    {
        self.repository
    }

    /// The branch that is followed.
    pub fn branch(&self) -> (branch: &String)
        ensures
            branch@ == self@.branch,
    {
        &self.branch
    }

    /// The names of the binaries that are published.
    pub fn executables(&self) -> (executables: &ExecutableSet)
        ensures
            executables@ == self@.executables,
    {
        &self.executables
    }

    /// The commit that was built last; all zero before the first build.
    pub fn last_build(&self) -> (hash: [u8; 20])
        ensures
            hash@ == self@.last_build,
    {
        self.last_build
    }

    /// Whether the target is between cycles.
    pub fn is_idle(&self) -> (idle: bool)
        ensures
            idle == (self@.phase is Idle),
    {
        match &self.phase {
            Phase::Idle => true,
            _ => false,
        }
    }

    /// Takes `event` into account and says what the caller has to do next.
    pub fn step(&mut self, event: Event) -> (action: Action)
        ensures
            final(self)@ == step_model(old(self)@, event).0,
            action@ == step_model(old(self)@, event).1,
            cycle_invariant(old(self)@) ==> cycle_invariant(final(self)@),
    {
        proof {
            if cycle_invariant(self@) {
                lemma_step_keeps_cycle_invariant(self@, event);
            }
        }
        let mut phase = Phase::Idle;
        std::mem::swap(&mut self.phase, &mut phase);
        match (phase, event) {
            (Phase::Idle, Event::Wake) => {
                self.phase = Phase::Fetching;
                Action::Fetch
            },
            (Phase::Fetching, Event::FetchFinished { exit_code }) => {
                if exit_ok(exit_code) {
                    self.phase = Phase::Resetting;
                    Action::ResetHard
                } else {
                    Action::Rest { outcome: Outcome::FetchFailed }
                }
            },
            (Phase::Resetting, Event::ResetFinished { exit_code }) => {
                if exit_ok(exit_code) {
                    self.phase = Phase::Comparing;
                    Action::ReadHead
                } else {
                    Action::Halt { reason: Fatal::ResetFailed }
                }
            },
            (Phase::Comparing, Event::HeadRead { hash }) => {
                if same_hash(&hash, &self.last_build) {
                    Action::Rest { outcome: Outcome::Unchanged }
                } else {
                    self.phase = Phase::Purging { head: hash };
                    Action::ListStale
                }
            },
            (Phase::Purging { head }, Event::StaleListed { entries }) => {
                self.phase = Phase::Removing { head };
                let names = match &entries {
                    Some(listing) => read_executables(listing),
                    None => Vec::new(),
                };
                assert(texts_of(names@) =~= stale_names(entries));
                Action::RemoveStale { names }
            },
            (Phase::Removing { head }, Event::StaleRemoved) => {
                self.phase = Phase::Building { head };
                Action::Build
            },
            (Phase::Building { head }, Event::BuildFinished { exit_code }) => {
                if exit_ok(exit_code) {
                    self.phase = Phase::Scanning { head };
                    Action::ListArtifacts
                } else {
                    Action::Halt { reason: Fatal::BuildFailed }
                }
            },
            (Phase::Scanning { head }, Event::ArtifactsListed { entries }) => {
                match &entries {
                    Some(listing) => {
                        let queue = plan_uploads(listing, &self.executables);
                        if queue.len() == 0 {
                            self.last_build = head;
                            let failed: Vec<String> = Vec::new();
                            assert(texts_of(failed@) =~= Seq::<Seq<char>>::empty());
                            Action::Rest { outcome: Outcome::Published { failed } }
                        } else {
                            let binary = queue[0].clone();
                            let file_name = upload_file_name(queue[0].as_str(), &head);
                            let failed: Vec<String> = Vec::new();
                            assert(texts_of(failed@) =~= Seq::<Seq<char>>::empty());
                            self.phase = Phase::Uploading { head, queue, next: 0, failed };
                            Action::Upload { binary, file_name }
                        }
                    },
                    None => Action::Rest { outcome: Outcome::ListingFailed },
                }
            },
            (Phase::Uploading { head, queue, next, failed }, Event::UploadFinished { status }) => {
                let mut failed = failed;
                if !upload_accepted(status) && next < queue.len() {
                    let ghost before = failed@;
                    failed.push(queue[next].clone());
                    assert(texts_of(failed@) =~= texts_of(before).push(queue@[next as int]@));
                }
                if next < queue.len() && next + 1 < queue.len() {
                    let binary = queue[next + 1].clone();
                    let file_name = upload_file_name(queue[next + 1].as_str(), &head);
                    self.phase = Phase::Uploading { head, queue, next: next + 1, failed };
                    Action::Upload { binary, file_name }
                } else {
                    self.last_build = head;
                    Action::Rest { outcome: Outcome::Published { failed } }
                }
            },
            (other, _) => {
                self.phase = other;
                Action::Halt { reason: Fatal::UnexpectedEvent }
            },
        }
    }
}

} // verus!
