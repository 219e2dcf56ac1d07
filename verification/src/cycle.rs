//! Whole cycles of a target, as runs of the state machine, and the laws
//! that hold of them.

use vstd::prelude::*;

use crate::artifact::{is_candidate, lemma_candidate_names_contains, DirectoryEntry};
use crate::monitor::{
    at_rest, exited_cleanly, stale_names, step_model, upload_action, ActionModel, Event, Fatal,
    OutcomeModel, PhaseModel, TargetModel,
};
use crate::upload::{lemma_planned_uploads_are_listed, planned_uploads, upload_name};

verus! {

/// The state reached from `state` after the events of `events`, taken in
/// order, together with the actions that were asked for on the way.
pub open spec fn run_model(state: TargetModel, events: Seq<Event>) -> (
    TargetModel,
    Seq<ActionModel>,
)
    decreases events.len(),
{
    if events.len() == 0 {
        (state, Seq::empty())
    } else {
        let (before, actions) = run_model(state, events.drop_last());
        let (after, action) = step_model(before, events.last());
        (after, actions.push(action))
    }
}

/// The events of a cycle up to the point where the branch tip is known:
/// woken, fetched, reset, head read.
pub open spec fn poll_events(head: [u8; 20]) -> Seq<Event> {
    seq![
        Event::Wake,
        Event::FetchFinished { exit_code: Some(0i32) },
        Event::ResetFinished { exit_code: Some(0i32) },
        Event::HeadRead { hash: head },
    ]
}

/// The events of a cycle that finds a new commit and builds it, up to the
/// listing of the fresh artifacts.
pub open spec fn build_events(
    head: [u8; 20],
    stale: Option<Vec<DirectoryEntry>>,
    built: Vec<DirectoryEntry>,
) -> Seq<Event> {
    poll_events(head).push(Event::StaleListed { entries: stale }).push(Event::StaleRemoved).push(
        Event::BuildFinished { exit_code: Some(0i32) },
    ).push(Event::ArtifactsListed { entries: Some(built) })
}

/// One answer of the endpoint per status, in order.
pub open spec fn upload_events(statuses: Seq<u16>) -> Seq<Event> {
    statuses.map_values(|status: u16| Event::UploadFinished { status })
}

/// The actions of a cycle from waking up to the request for the listing of
/// fresh artifacts.
pub open spec fn build_actions(stale: Option<Vec<DirectoryEntry>>) -> Seq<ActionModel> {
    seq![
        ActionModel::Fetch,
        ActionModel::ResetHard,
        ActionModel::ReadHead,
        ActionModel::ListStale,
        ActionModel::RemoveStale { names: stale_names(stale) },
        ActionModel::Build,
        ActionModel::ListArtifacts,
    ]
}

/// One upload per binary of the queue, in queue order.
pub open spec fn upload_actions(queue: Seq<Seq<char>>, count: nat, head: Seq<u8>) -> Seq<
    ActionModel,
> {
    Seq::new(count, |i: int| upload_action(queue, i as nat, head))
}

/// The binaries of the queue whose upload was answered with a status other
/// than 200, in queue order. Only the first `statuses.len()` binaries have
/// an answer.
pub open spec fn failed_uploads(queue: Seq<Seq<char>>, statuses: Seq<u16>) -> Seq<Seq<char>>
    decreases statuses.len(),
{
    if statuses.len() == 0 {
        Seq::empty()
    } else {
        let earlier = failed_uploads(queue, statuses.drop_last());
        if statuses.last() == 200 {
            earlier
        } else {
            earlier.push(queue[statuses.len() - 1])
        }
    }
}

/// Running one more event is one more step.
pub proof fn lemma_run_push(state: TargetModel, events: Seq<Event>, event: Event)
    ensures
        run_model(state, events.push(event)) == (
            step_model(run_model(state, events).0, event).0,
            run_model(state, events).1.push(step_model(run_model(state, events).0, event).1),
        ),
{
    assert(events.push(event).drop_last() =~= events);
    assert(events.push(event).last() == event);
}

/// Idempotence, as one step: when the commit that is checked out after the
/// reset is the one that was built last, the cycle ends at once. The target
/// is idle again, remembers the same commit, and the caller is asked to
/// rest: neither a build nor an upload is requested.
pub proof fn lemma_unchanged_head_ends_cycle(state: TargetModel, head: [u8; 20])
    requires
        state.phase is Comparing,
        head@ == state.last_build,
    ensures
        step_model(state, Event::HeadRead { hash: head }) == (
            at_rest(state),
            ActionModel::Rest { outcome: OutcomeModel::Unchanged },
        ),
        step_model(state, Event::HeadRead { hash: head }).0.last_build == state.last_build,
{
}

/// Idempotence, as a whole cycle: an idle target whose branch tip is the
/// commit it built last is left exactly as it was, and the only actions
/// asked for are fetch, reset, reading the head, and rest.
pub proof fn lemma_unchanged_cycle(start: TargetModel, head: [u8; 20])
    requires
        start.phase is Idle,
        head@ == start.last_build,
    ensures
        run_model(start, poll_events(head)) == (
            start,
            seq![
                ActionModel::Fetch,
                ActionModel::ResetHard,
                ActionModel::ReadHead,
                ActionModel::Rest { outcome: OutcomeModel::Unchanged },
            ],
        ),
{
    let e0 = Seq::<Event>::empty();
    let e1 = e0.push(Event::Wake);
    let e2 = e1.push(Event::FetchFinished { exit_code: Some(0i32) });
    let e3 = e2.push(Event::ResetFinished { exit_code: Some(0i32) });
    lemma_run_push(start, e0, Event::Wake);
    lemma_run_push(start, e1, Event::FetchFinished { exit_code: Some(0i32) });
    lemma_run_push(start, e2, Event::ResetFinished { exit_code: Some(0i32) });
    lemma_run_push(start, e3, Event::HeadRead { hash: head });
    let end = run_model(start, e3.push(Event::HeadRead { hash: head }));
    assert(poll_events(head) =~= e3.push(Event::HeadRead { hash: head }));
    assert(end.0 =~= start);
    assert(end.1 =~= seq![
        ActionModel::Fetch,
        ActionModel::ResetHard,
        ActionModel::ReadHead,
        ActionModel::Rest { outcome: OutcomeModel::Unchanged },
    ]);
}

/// A fetch that fails is recoverable: the cycle ends, and the target is
/// left exactly as it was.
pub proof fn lemma_failed_fetch_changes_nothing(start: TargetModel, exit_code: Option<i32>)
    requires
        start.phase is Idle,
        !exited_cleanly(exit_code),
    ensures
        run_model(start, seq![Event::Wake, Event::FetchFinished { exit_code }]) == (
            start,
            seq![ActionModel::Fetch, ActionModel::Rest { outcome: OutcomeModel::FetchFailed }],
        ),
{
    let e0 = Seq::<Event>::empty();
    let e1 = e0.push(Event::Wake);
    lemma_run_push(start, e0, Event::Wake);
    lemma_run_push(start, e1, Event::FetchFinished { exit_code });
    let events = seq![Event::Wake, Event::FetchFinished { exit_code }];
    assert(events =~= e1.push(Event::FetchFinished { exit_code }));
    assert(run_model(start, events).0 =~= start);
    assert(run_model(start, events).1 =~= seq![
        ActionModel::Fetch,
        ActionModel::Rest { outcome: OutcomeModel::FetchFailed },
    ]);
}

/// A reset that fails ends the cycle with a halt, and the target is left
/// exactly as it was.
pub proof fn lemma_failed_reset_changes_nothing(start: TargetModel, exit_code: Option<i32>)
    requires
        start.phase is Idle,
        !exited_cleanly(exit_code),
    ensures
        run_model(
            start,
            seq![
                Event::Wake,
                Event::FetchFinished { exit_code: Some(0i32) },
                Event::ResetFinished { exit_code },
            ],
        ) == (
            start,
            seq![
                ActionModel::Fetch,
                ActionModel::ResetHard,
                ActionModel::Halt { reason: Fatal::ResetFailed },
            ],
        ),
{
    let e0 = Seq::<Event>::empty();
    let e1 = e0.push(Event::Wake);
    let e2 = e1.push(Event::FetchFinished { exit_code: Some(0i32) });
    let e3 = e2.push(Event::ResetFinished { exit_code });
    lemma_run_push(start, e0, Event::Wake);
    lemma_run_push(start, e1, Event::FetchFinished { exit_code: Some(0i32) });
    lemma_run_push(start, e2, Event::ResetFinished { exit_code });
    assert(seq![
        Event::Wake,
        Event::FetchFinished { exit_code: Some(0i32) },
        Event::ResetFinished { exit_code },
    ] =~= e3);
    assert(run_model(start, e3).0 =~= start);
    assert(run_model(start, e3).1 =~= seq![
        ActionModel::Fetch,
        ActionModel::ResetHard,
        ActionModel::Halt { reason: Fatal::ResetFailed },
    ]);
}

/// A build that fails, or whose output cannot be listed, does not count.
/// The stale artifacts are gone and the build tool has run, but the target
/// is left exactly as it was, so that the next cycle finds the same commit
/// still to be built.
pub proof fn lemma_failed_build_changes_nothing(
    start: TargetModel,
    head: [u8; 20],
    stale: Option<Vec<DirectoryEntry>>,
    exit_code: Option<i32>,
)
    requires
        start.phase is Idle,
        head@ != start.last_build,
    ensures
        !exited_cleanly(exit_code) ==> run_model(
            start,
            poll_events(head).push(Event::StaleListed { entries: stale }).push(
                Event::StaleRemoved,
            ).push(Event::BuildFinished { exit_code }),
        ) == (
            start,
            build_actions(stale).drop_last().push(
                ActionModel::Halt { reason: Fatal::BuildFailed },
            ),
        ),
        run_model(
            start,
            poll_events(head).push(Event::StaleListed { entries: stale }).push(
                Event::StaleRemoved,
            ).push(Event::BuildFinished { exit_code: Some(0i32) }).push(
                Event::ArtifactsListed { entries: None },
            ),
        ) == (
            start,
            build_actions(stale).push(
                ActionModel::Rest { outcome: OutcomeModel::ListingFailed },
            ),
        ),
{
    let e0 = Seq::<Event>::empty();
    let e1 = e0.push(Event::Wake);
    let e2 = e1.push(Event::FetchFinished { exit_code: Some(0i32) });
    let e3 = e2.push(Event::ResetFinished { exit_code: Some(0i32) });
    let e4 = e3.push(Event::HeadRead { hash: head });
    let e5 = e4.push(Event::StaleListed { entries: stale });
    let e6 = e5.push(Event::StaleRemoved);
    lemma_run_push(start, e0, Event::Wake);
    lemma_run_push(start, e1, Event::FetchFinished { exit_code: Some(0i32) });
    lemma_run_push(start, e2, Event::ResetFinished { exit_code: Some(0i32) });
    lemma_run_push(start, e3, Event::HeadRead { hash: head });
    lemma_run_push(start, e4, Event::StaleListed { entries: stale });
    lemma_run_push(start, e5, Event::StaleRemoved);
    assert(poll_events(head) =~= e4);
    if !exited_cleanly(exit_code) {
        let e7 = e6.push(Event::BuildFinished { exit_code });
        lemma_run_push(start, e6, Event::BuildFinished { exit_code });
        assert(run_model(start, e7).0 =~= start);
        assert(run_model(start, e7).1 =~= build_actions(stale).drop_last().push(
            ActionModel::Halt { reason: Fatal::BuildFailed },
        ));
    }
    let e7 = e6.push(Event::BuildFinished { exit_code: Some(0i32) });
    let e8 = e7.push(Event::ArtifactsListed { entries: None });
    lemma_run_push(start, e6, Event::BuildFinished { exit_code: Some(0i32) });
    lemma_run_push(start, e7, Event::ArtifactsListed { entries: None });
    assert(run_model(start, e8).0 =~= start);
    assert(run_model(start, e8).1 =~= build_actions(stale).push(
        ActionModel::Rest { outcome: OutcomeModel::ListingFailed },
    ));
}

/// A cycle that finds a new commit purges, builds and asks for the listing
/// of what was built, in this order. Stated for the events up to the end of
/// the build.
proof fn lemma_build_run(
    start: TargetModel,
    head: [u8; 20],
    stale: Option<Vec<DirectoryEntry>>,
    built: Vec<DirectoryEntry>,
)
    requires
        start.phase is Idle,
        head@ != start.last_build,
    ensures
        run_model(start, build_events(head, stale, built).drop_last()) == (
            TargetModel { phase: PhaseModel::Scanning { head: head@ }, ..start },
            build_actions(stale),
        ),
{
    let e0 = Seq::<Event>::empty();
    let e1 = e0.push(Event::Wake);
    let e2 = e1.push(Event::FetchFinished { exit_code: Some(0i32) });
    let e3 = e2.push(Event::ResetFinished { exit_code: Some(0i32) });
    let e4 = e3.push(Event::HeadRead { hash: head });
    let e5 = e4.push(Event::StaleListed { entries: stale });
    let e6 = e5.push(Event::StaleRemoved);
    let e7 = e6.push(Event::BuildFinished { exit_code: Some(0i32) });
    lemma_run_push(start, e0, Event::Wake);
    lemma_run_push(start, e1, Event::FetchFinished { exit_code: Some(0i32) });
    lemma_run_push(start, e2, Event::ResetFinished { exit_code: Some(0i32) });
    lemma_run_push(start, e3, Event::HeadRead { hash: head });
    lemma_run_push(start, e4, Event::StaleListed { entries: stale });
    lemma_run_push(start, e5, Event::StaleRemoved);
    lemma_run_push(start, e6, Event::BuildFinished { exit_code: Some(0i32) });
    assert(build_events(head, stale, built).drop_last() =~= e7);
    assert(run_model(start, e7).0 =~= (TargetModel {
        phase: PhaseModel::Scanning { head: head@ },
        ..start
    }));
    assert(run_model(start, e7).1 =~= build_actions(stale));
}

/// While uploads are under way, the target waits for the answer to the
/// upload at the position that equals the number of answers so far, and
/// one upload has been asked for per answer, plus the one in flight.
proof fn lemma_upload_run(
    start: TargetModel,
    head: [u8; 20],
    stale: Option<Vec<DirectoryEntry>>,
    built: Vec<DirectoryEntry>,
    statuses: Seq<u16>,
)
    requires
        start.phase is Idle,
        head@ != start.last_build,
        statuses.len() < planned_uploads(built@, start.executables).len(),
    ensures
        run_model(start, build_events(head, stale, built) + upload_events(statuses)) == (
            TargetModel {
                phase: PhaseModel::Uploading {
                    head: head@,
                    queue: planned_uploads(built@, start.executables),
                    next: statuses.len(),
                    failed: failed_uploads(
                        planned_uploads(built@, start.executables),
                        statuses,
                    ),
                },
                ..start
            },
            build_actions(stale) + upload_actions(
                planned_uploads(built@, start.executables),
                statuses.len() + 1,
                head@,
            ),
        ),
    decreases statuses.len(),
{
    let queue = planned_uploads(built@, start.executables);
    let events = build_events(head, stale, built) + upload_events(statuses);
    if statuses.len() == 0 {
        let listed = Event::ArtifactsListed { entries: Some(built) };
        lemma_build_run(start, head, stale, built);
        lemma_run_push(start, build_events(head, stale, built).drop_last(), listed);
        assert(events =~= build_events(head, stale, built).drop_last().push(listed));
        assert(run_model(start, events).1 =~= build_actions(stale) + upload_actions(
            queue,
            1,
            head@,
        ));
        assert(run_model(start, events).0 =~= (TargetModel {
            phase: PhaseModel::Uploading {
                head: head@,
                queue,
                next: 0,
                failed: failed_uploads(queue, statuses),
            },
            ..start
        }));
    } else {
        let earlier = statuses.drop_last();
        let answer = Event::UploadFinished { status: statuses.last() };
        let before = build_events(head, stale, built) + upload_events(earlier);
        lemma_upload_run(start, head, stale, built, earlier);
        lemma_run_push(start, before, answer);
        assert(events =~= before.push(answer));
        assert(run_model(start, events).1 =~= build_actions(stale) + upload_actions(
            queue,
            statuses.len() + 1,
            head@,
        ));
        assert(run_model(start, events).0 =~= (TargetModel {
            phase: PhaseModel::Uploading {
                head: head@,
                queue,
                next: statuses.len(),
                failed: failed_uploads(queue, statuses),
            },
            ..start
        }));
    }
}

/// Eventual consistency. An idle target that remembers one commit, finds
/// another at the tip of its branch and builds it successfully remembers
/// the new commit when the cycle is over, whatever the endpoint answered.
///
/// The cycle asks for exactly these actions, in this order: fetch, reset,
/// read the head, list and remove the stale artifacts, build, list the
/// fresh artifacts, one upload per planned binary, and rest.
pub proof fn lemma_successful_cycle(
    start: TargetModel,
    head: [u8; 20],
    stale: Option<Vec<DirectoryEntry>>,
    built: Vec<DirectoryEntry>,
    statuses: Seq<u16>,
)
    requires
        start.phase is Idle,
        head@ != start.last_build,
        statuses.len() == planned_uploads(built@, start.executables).len(),
    ensures
        run_model(start, build_events(head, stale, built) + upload_events(statuses)) == (
            TargetModel { last_build: head@, ..start },
            build_actions(stale) + upload_actions(
                planned_uploads(built@, start.executables),
                statuses.len(),
                head@,
            ) + seq![
                ActionModel::Rest {
                    outcome: OutcomeModel::Published {
                        failed: failed_uploads(
                            planned_uploads(built@, start.executables),
                            statuses,
                        ),
                    },
                },
            ],
        ),
{
    let queue = planned_uploads(built@, start.executables);
    let events = build_events(head, stale, built) + upload_events(statuses);
    let rest = ActionModel::Rest {
        outcome: OutcomeModel::Published { failed: failed_uploads(queue, statuses) },
    };
    if statuses.len() == 0 {
        let listed = Event::ArtifactsListed { entries: Some(built) };
        lemma_build_run(start, head, stale, built);
        lemma_run_push(start, build_events(head, stale, built).drop_last(), listed);
        assert(events =~= build_events(head, stale, built).drop_last().push(listed));
        assert(run_model(start, events).1 =~= build_actions(stale) + upload_actions(
            queue,
            0,
            head@,
        ) + seq![rest]);
        assert(run_model(start, events).0 =~= (TargetModel { last_build: head@, ..start }));
    } else {
        let earlier = statuses.drop_last();
        let answer = Event::UploadFinished { status: statuses.last() };
        let before = build_events(head, stale, built) + upload_events(earlier);
        lemma_upload_run(start, head, stale, built, earlier);
        lemma_run_push(start, before, answer);
        assert(events =~= before.push(answer));
        assert(run_model(start, events).1 =~= build_actions(stale) + upload_actions(
            queue,
            statuses.len(),
            head@,
        ) + seq![rest]);
        assert(run_model(start, events).0 =~= (TargetModel { last_build: head@, ..start }));
    }
}

/// Partial-failure isolation, as one step. While binaries are left in the
/// queue, the answer to an upload never decides what happens next: the next
/// binary of the queue is uploaded, whatever the status was, and the commit
/// that is remembered as built stays as it is.
pub proof fn lemma_failed_upload_does_not_stop_the_rest(state: TargetModel, status: u16)
    requires
        state.phase matches PhaseModel::Uploading { queue, next, .. } && next + 1 < queue.len(),
    ensures
        step_model(state, Event::UploadFinished { status }).1 == upload_action(
            state.phase->Uploading_queue,
            state.phase->Uploading_next + 1,
            state.phase->Uploading_head,
        ),
        step_model(state, Event::UploadFinished { status }).0.phase matches PhaseModel::Uploading {
            head,
            queue,
            next,
            ..
        } && head == state.phase->Uploading_head && queue == state.phase->Uploading_queue && next
            == state.phase->Uploading_next + 1,
        step_model(state, Event::UploadFinished { status }).0.last_build == state.last_build,
{
}

/// Partial-failure isolation, as a whole cycle. In a cycle that builds a
/// new commit every planned binary is uploaded, in queue order and under
/// the name made of the binary and the commit, whatever the endpoint
/// answered to the uploads before it.
pub proof fn lemma_every_planned_binary_is_uploaded(
    start: TargetModel,
    head: [u8; 20],
    stale: Option<Vec<DirectoryEntry>>,
    built: Vec<DirectoryEntry>,
    statuses: Seq<u16>,
    position: nat,
)
    requires
        start.phase is Idle,
        head@ != start.last_build,
        statuses.len() == planned_uploads(built@, start.executables).len(),
        position < statuses.len(),
    ensures
        run_model(start, build_events(head, stale, built) + upload_events(statuses)).1[7
            + position as int] == upload_action(
            planned_uploads(built@, start.executables),
            position,
            head@,
        ),
{
    lemma_successful_cycle(start, head, stale, built, statuses);
}

/// Stale-artifact purge. A binary that an earlier build left in the output
/// directory and that the new build no longer produces is deleted before
/// the build tool runs, and no upload of the cycle publishes it.
pub proof fn lemma_stale_binary_is_purged_and_not_published(
    start: TargetModel,
    head: [u8; 20],
    stale: Vec<DirectoryEntry>,
    built: Vec<DirectoryEntry>,
    statuses: Seq<u16>,
    name: Seq<char>,
)
    requires
        start.phase is Idle,
        head@ != start.last_build,
        statuses.len() == planned_uploads(built@, start.executables).len(),
        exists|i: int|
            0 <= i < stale@.len() && is_candidate(#[trigger] stale@[i]) && stale@[i].name@ == name,
        forall|i: int| 0 <= i < built@.len() ==> (#[trigger] built@[i]).name@ != name,
    ensures
        ({
            let actions = run_model(
                start,
                build_events(head, Some(stale), built) + upload_events(statuses),
            ).1;
            &&& actions.len() == statuses.len() + 8
            &&& actions[4] matches ActionModel::RemoveStale { names } && names.contains(name)
            &&& actions[5] == ActionModel::Build
            &&& forall|i: int|
                0 <= i < actions.len() ==> !(#[trigger] actions[i] matches ActionModel::Upload {
                    binary,
                    ..
                } && binary == name)
        }),
{
    let queue = planned_uploads(built@, start.executables);
    let actions = run_model(
        start,
        build_events(head, Some(stale), built) + upload_events(statuses),
    ).1;
    lemma_successful_cycle(start, head, Some(stale), built, statuses);
    lemma_candidate_names_contains(stale@, name);
    lemma_candidate_names_contains(built@, name);
    lemma_planned_uploads_are_listed(built@, start.executables, name);
    assert(!queue.contains(name));
    assert forall|i: int| 0 <= i < actions.len() implies !(#[trigger] actions[i] matches
    ActionModel::Upload { binary, .. } && binary == name) by {
        if 7 <= i < 7 + queue.len() {
            assert(actions[i] == upload_action(queue, (i - 7) as nat, head@));
            assert(queue[i - 7] != name);
        }
    }
}

/// What a target remembers as built changes in one way only: a cycle that
/// built the commit `head` comes to its end. That happens when the fresh
/// artifacts are listed and nothing is to be uploaded, or when the last
/// upload is answered.
pub proof fn lemma_last_build_moves_only_to_a_built_commit(state: TargetModel, event: Event)
    ensures
        ({
            let (after, action) = step_model(state, event);
            after.last_build != state.last_build ==> {
                &&& after.phase is Idle
                &&& action is Rest
                &&& action->outcome is Published
                &&& {
                    ||| state.phase matches PhaseModel::Scanning { head } && after.last_build
                        == head && event is ArtifactsListed
                    ||| state.phase matches PhaseModel::Uploading { head, .. } && after.last_build
                        == head && event is UploadFinished
                }
            }
        }),
{
}

/// The commit a cycle works on is fixed when the head is read: it differs
/// from the commit built last, and every later phase of the cycle carries
/// it on unchanged. A target waits for the listing of fresh artifacts only
/// after the build tool exited with code zero for that commit.
pub proof fn lemma_head_is_carried_through_the_cycle(state: TargetModel, event: Event)
    ensures
        ({
            let after = step_model(state, event).0;
            after == state || match after.phase {
                PhaseModel::Purging { head } => {
                    &&& state.phase is Comparing
                    &&& head != state.last_build
                    &&& event matches Event::HeadRead { hash }
                    &&& hash@ == head
                },
                PhaseModel::Removing { head } => state.phase == (PhaseModel::Purging { head }),
                PhaseModel::Building { head } => state.phase == (PhaseModel::Removing { head }),
                PhaseModel::Scanning { head } => {
                    &&& state.phase == (PhaseModel::Building { head })
                    &&& event matches Event::BuildFinished { exit_code }
                    &&& exited_cleanly(exit_code)
                },
                PhaseModel::Uploading { head, .. } => {
                    ||| state.phase == (PhaseModel::Scanning { head })
                    ||| state.phase matches PhaseModel::Uploading { head: earlier, .. } && earlier
                        == head
                },
                _ => true,
            }
        }),
{
}

/// The commit a target is working on, if its phase carries one.
pub open spec fn commit_in_work(phase: PhaseModel) -> Option<Seq<u8>> {
    match phase {
        PhaseModel::Purging { head } => Some(head),
        PhaseModel::Removing { head } => Some(head),
        PhaseModel::Building { head } => Some(head),
        PhaseModel::Scanning { head } => Some(head),
        PhaseModel::Uploading { head, .. } => Some(head),
        _ => None,
    }
}

/// What holds of a target at every moment: the commit it is working on is
/// never the one it remembers as built; and while it uploads, the upload in
/// flight is one of the queue, the queue holds nothing but executables of
/// the target, and no more uploads have failed than have been answered.
pub open spec fn cycle_invariant(state: TargetModel) -> bool {
    &&& commit_in_work(state.phase) matches Some(head) ==> head != state.last_build
    &&& state.phase matches PhaseModel::Uploading { queue, next, failed, .. } ==> {
        &&& next < queue.len()
        &&& failed.len() <= next
        &&& forall|i: int| 0 <= i < queue.len() ==> state.executables.contains(#[trigger] queue[i])
    }
}

/// A step keeps [`cycle_invariant`].
pub proof fn lemma_step_keeps_cycle_invariant(state: TargetModel, event: Event)
    requires
        cycle_invariant(state),
    ensures
        cycle_invariant(step_model(state, event).0),
{
    if state.phase is Scanning {
        if let Event::ArtifactsListed { entries: Some(listing) } = event {
            let queue = planned_uploads(listing@, state.executables);
            assert forall|i: int| 0 <= i < queue.len() implies state.executables.contains(
                #[trigger] queue[i],
            ) by {
                assert(queue.contains(queue[i]));
                lemma_planned_uploads_are_listed(listing@, state.executables, queue[i]);
            }
        }
    }
}

/// [`cycle_invariant`] holds after any run that starts where it holds; in
/// particular after any run of a target that started out new.
pub proof fn lemma_run_keeps_cycle_invariant(start: TargetModel, events: Seq<Event>)
    requires
        cycle_invariant(start),
    ensures
        cycle_invariant(run_model(start, events).0),
    decreases events.len(),
{
    if events.len() > 0 {
        lemma_run_keeps_cycle_invariant(start, events.drop_last());
        lemma_step_keeps_cycle_invariant(
            run_model(start, events.drop_last()).0,
            events.last(),
        );
    }
}

/// Idempotence, at every moment. Whenever the caller is asked to purge, to
/// build, to list what was built or to upload, the target is working on a
/// commit other than the one it remembers as built. An upload is asked for
/// an executable of the target only, under the name made of the binary and
/// that commit.
pub proof fn lemma_work_is_for_a_new_commit_only(state: TargetModel, event: Event)
    requires
        cycle_invariant(state),
    ensures
        ({
            let (after, action) = step_model(state, event);
            &&& (action is ListStale || action is RemoveStale || action is Build
                || action is ListArtifacts || action is Upload) ==> {
                &&& commit_in_work(after.phase) matches Some(head)
                &&& head != after.last_build
            }
            &&& action matches ActionModel::Upload { binary, file_name } ==> {
                &&& after.executables.contains(binary)
                &&& commit_in_work(after.phase) matches Some(head)
                &&& file_name == upload_name(binary, head)
            }
        }),
{
    lemma_step_keeps_cycle_invariant(state, event);
}

/// A step never touches which repository, branch and executables a target
/// stands for.
pub proof fn lemma_step_keeps_the_target(state: TargetModel, event: Event)
    ensures
        step_model(state, event).0.repository == state.repository,
        step_model(state, event).0.branch == state.branch,
        step_model(state, event).0.executables == state.executables,
{
}

/// A halt never changes what a target remembers as built. Where an event
/// arrives out of turn, nothing changes at all; where the reset or the
/// build failed, the target is back between cycles, so that a caller who
/// goes on finds the same commit to build in the next cycle.
pub proof fn lemma_halt_keeps_last_build(state: TargetModel, event: Event)
    ensures
        step_model(state, event).1 is Halt ==> step_model(state, event).0.last_build
            == state.last_build,
        step_model(state, event).1 matches ActionModel::Halt { reason } && reason
            == Fatal::UnexpectedEvent ==> step_model(state, event).0 == state,
        step_model(state, event).1 matches ActionModel::Halt { reason } && reason
            != Fatal::UnexpectedEvent ==> step_model(state, event).0 == at_rest(state),
{
}

} // verus!
