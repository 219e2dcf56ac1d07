use rust_builder::artifact::{DirectoryEntry, FileKind};
use rust_builder::executables::ExecutableSet;
use rust_builder::monitor::{exit_ok, Action, Event, Fatal, Outcome, TargetState};
use rust_builder::upload::{part_name, upload_url};

const COMMIT_A: [u8; 20] = [0xa1; 20];
const COMMIT_B: [u8; 20] = [0xb2; 20];

fn hex_b() -> String {
    "b2".repeat(20)
}

fn file(name: &str, mode: u32) -> DirectoryEntry {
    DirectoryEntry { name: name.to_string(), kind: FileKind::File, mode }
}

fn target(names: &[&str]) -> TargetState {
    let executables =
        ExecutableSet::from_names(names.iter().map(|name| name.to_string()).collect()).unwrap();
    TargetState::new(0, "main".to_string(), executables)
}

fn upload(binary: &str, commit_hex: &str) -> Action {
    Action::Upload { binary: binary.to_string(), file_name: format!("{binary}-{commit_hex}") }
}

/// Drives a target through a whole successful cycle for `head` and returns
/// the actions it asked for.
fn build_cycle(
    state: &mut TargetState,
    head: [u8; 20],
    stale: Option<Vec<DirectoryEntry>>,
    built: Vec<DirectoryEntry>,
    statuses: &[u16],
) -> Vec<Action> {
    let mut actions = vec![
        state.step(Event::Wake),
        state.step(Event::FetchFinished { exit_code: Some(0) }),
        state.step(Event::ResetFinished { exit_code: Some(0) }),
        state.step(Event::HeadRead { hash: head }),
        state.step(Event::StaleListed { entries: stale }),
        state.step(Event::StaleRemoved),
        state.step(Event::BuildFinished { exit_code: Some(0) }),
        state.step(Event::ArtifactsListed { entries: Some(built) }),
    ];
    for status in statuses {
        actions.push(state.step(Event::UploadFinished { status: *status }));
    }
    actions
}

/// A target that has built `COMMIT_A` and is idle.
fn target_at_a(names: &[&str]) -> TargetState {
    let mut state = target(names);
    build_cycle(&mut state, COMMIT_A, None, Vec::new(), &[]);
    assert_eq!(state.last_build(), COMMIT_A);
    assert!(state.is_idle());
    state
}

#[test]
fn new_target_is_idle_and_has_built_nothing() {
    let state = target(&["server"]);
    assert!(state.is_idle());
    assert_eq!(state.last_build(), [0u8; 20]);
    assert_eq!(state.repository(), 0);
    assert_eq!(state.branch(), "main");
    assert!(state.executables().contains("server"));
}

#[test]
fn exit_code_zero_is_the_only_success() {
    assert!(exit_ok(Some(0)));
    assert!(!exit_ok(Some(1)));
    assert!(!exit_ok(Some(-1)));
    assert!(!exit_ok(Some(128)));
    assert!(!exit_ok(None));
}

#[test]
fn unchanged_head_means_no_build_and_no_upload() {
    let mut state = target_at_a(&["server", "worker"]);
    assert_eq!(state.step(Event::Wake), Action::Fetch);
    assert_eq!(state.step(Event::FetchFinished { exit_code: Some(0) }), Action::ResetHard);
    assert_eq!(state.step(Event::ResetFinished { exit_code: Some(0) }), Action::ReadHead);
    assert_eq!(
        state.step(Event::HeadRead { hash: COMMIT_A }),
        Action::Rest { outcome: Outcome::Unchanged }
    );
    assert!(state.is_idle());
    assert_eq!(state.last_build(), COMMIT_A);
}

#[test]
fn unchanged_head_is_idempotent_over_many_cycles() {
    let mut state = target_at_a(&["server"]);
    for _ in 0..5 {
        state.step(Event::Wake);
        state.step(Event::FetchFinished { exit_code: Some(0) });
        state.step(Event::ResetFinished { exit_code: Some(0) });
        let action = state.step(Event::HeadRead { hash: COMMIT_A });
        assert_eq!(action, Action::Rest { outcome: Outcome::Unchanged });
        assert_eq!(state.last_build(), COMMIT_A);
    }
}

#[test]
fn zero_head_on_a_fresh_target_counts_as_built() {
    let mut state = target(&["server"]);
    state.step(Event::Wake);
    state.step(Event::FetchFinished { exit_code: Some(0) });
    state.step(Event::ResetFinished { exit_code: Some(0) });
    assert_eq!(
        state.step(Event::HeadRead { hash: [0u8; 20] }),
        Action::Rest { outcome: Outcome::Unchanged }
    );
}

#[test]
fn failed_fetch_ends_the_cycle_and_is_retried() {
    let mut state = target_at_a(&["server"]);
    assert_eq!(state.step(Event::Wake), Action::Fetch);
    assert_eq!(
        state.step(Event::FetchFinished { exit_code: Some(128) }),
        Action::Rest { outcome: Outcome::FetchFailed }
    );
    assert!(state.is_idle());
    assert_eq!(state.last_build(), COMMIT_A);
    assert_eq!(state.step(Event::Wake), Action::Fetch);
    assert_eq!(
        state.step(Event::FetchFinished { exit_code: None }),
        Action::Rest { outcome: Outcome::FetchFailed }
    );
    assert_eq!(state.step(Event::Wake), Action::Fetch);
}

#[test]
fn failed_reset_is_fatal() {
    let mut state = target_at_a(&["server"]);
    state.step(Event::Wake);
    state.step(Event::FetchFinished { exit_code: Some(0) });
    assert_eq!(
        state.step(Event::ResetFinished { exit_code: Some(1) }),
        Action::Halt { reason: Fatal::ResetFailed }
    );
    assert_eq!(state.last_build(), COMMIT_A);
    assert!(state.is_idle());
}

#[test]
fn failed_build_is_fatal_and_does_not_advance() {
    let mut state = target_at_a(&["server"]);
    state.step(Event::Wake);
    state.step(Event::FetchFinished { exit_code: Some(0) });
    state.step(Event::ResetFinished { exit_code: Some(0) });
    assert_eq!(state.step(Event::HeadRead { hash: COMMIT_B }), Action::ListStale);
    state.step(Event::StaleListed { entries: None });
    assert_eq!(state.step(Event::StaleRemoved), Action::Build);
    assert_eq!(
        state.step(Event::BuildFinished { exit_code: Some(101) }),
        Action::Halt { reason: Fatal::BuildFailed }
    );
    assert_eq!(state.last_build(), COMMIT_A);
    assert!(state.is_idle());
}

#[test]
fn unreadable_output_directory_after_build_does_not_advance() {
    let mut state = target_at_a(&["server"]);
    state.step(Event::Wake);
    state.step(Event::FetchFinished { exit_code: Some(0) });
    state.step(Event::ResetFinished { exit_code: Some(0) });
    state.step(Event::HeadRead { hash: COMMIT_B });
    state.step(Event::StaleListed { entries: None });
    state.step(Event::StaleRemoved);
    assert_eq!(state.step(Event::BuildFinished { exit_code: Some(0) }), Action::ListArtifacts);
    assert_eq!(
        state.step(Event::ArtifactsListed { entries: None }),
        Action::Rest { outcome: Outcome::ListingFailed }
    );
    assert_eq!(state.last_build(), COMMIT_A);
    assert!(state.is_idle());
}

#[test]
fn successful_build_advances_last_build() {
    let mut state = target_at_a(&["server"]);
    let actions = build_cycle(&mut state, COMMIT_B, None, vec![file("server", 0o755)], &[200]);
    assert_eq!(
        actions.last().unwrap(),
        &Action::Rest { outcome: Outcome::Published { failed: Vec::new() } }
    );
    assert_eq!(state.last_build(), COMMIT_B);
    assert!(state.is_idle());
}

#[test]
fn build_without_anything_to_upload_advances_at_once() {
    let mut state = target_at_a(&["server"]);
    let actions = build_cycle(&mut state, COMMIT_B, None, vec![file("other", 0o755)], &[]);
    assert_eq!(actions.len(), 8);
    assert_eq!(actions[7], Action::Rest { outcome: Outcome::Published { failed: Vec::new() } });
    assert_eq!(state.last_build(), COMMIT_B);
}

#[test]
fn end_to_end_cycle_publishes_server_and_worker() {
    let mut state = target_at_a(&["server", "worker"]);
    let built = vec![
        file("server", 0o755),
        DirectoryEntry { name: "deps".to_string(), kind: FileKind::Directory, mode: 0o755 },
        file("server.d", 0o644),
        file("worker", 0o755),
    ];
    let actions = build_cycle(&mut state, COMMIT_B, Some(Vec::new()), built, &[200, 200]);
    assert_eq!(
        actions,
        vec![
            Action::Fetch,
            Action::ResetHard,
            Action::ReadHead,
            Action::ListStale,
            Action::RemoveStale { names: Vec::new() },
            Action::Build,
            Action::ListArtifacts,
            upload("server", &hex_b()),
            upload("worker", &hex_b()),
            Action::Rest { outcome: Outcome::Published { failed: Vec::new() } },
        ]
    );
    let uploads = actions.iter().filter(|action| matches!(action, Action::Upload { .. })).count();
    assert_eq!(uploads, 2);
    assert_eq!(upload_url("http://localhost:8080"), "http://localhost:8080/upload?path=/");
    assert_eq!(part_name(), "path");
    assert_eq!(state.last_build(), COMMIT_B);
    assert!(state.is_idle());
}

#[test]
fn failed_upload_does_not_stop_later_uploads() {
    let mut state = target_at_a(&["a", "b", "c"]);
    let built = vec![file("a", 0o755), file("b", 0o755), file("c", 0o755)];
    let actions = build_cycle(&mut state, COMMIT_B, None, built, &[200, 500, 404]);
    assert_eq!(actions[7], upload("a", &hex_b()));
    assert_eq!(actions[8], upload("b", &hex_b()));
    assert_eq!(actions[9], upload("c", &hex_b()));
    assert_eq!(
        actions[10],
        Action::Rest {
            outcome: Outcome::Published { failed: vec!["b".to_string(), "c".to_string()] }
        }
    );
    assert_eq!(state.last_build(), COMMIT_B);
}

#[test]
fn first_upload_failing_still_uploads_the_rest() {
    let mut state = target_at_a(&["x", "y"]);
    let built = vec![file("x", 0o755), file("y", 0o755)];
    let actions = build_cycle(&mut state, COMMIT_B, None, built, &[503, 200]);
    assert_eq!(actions[8], upload("y", &hex_b()));
    assert_eq!(
        actions[9],
        Action::Rest { outcome: Outcome::Published { failed: vec!["x".to_string()] } }
    );
}

#[test]
fn stale_binary_is_removed_before_the_build_and_not_uploaded() {
    let mut state = target_at_a(&["server", "old_tool"]);
    let stale = vec![file("old_tool", 0o755), file("server", 0o755), file("server.d", 0o644)];
    let built = vec![file("server", 0o755), file("server.d", 0o644)];
    let actions = build_cycle(&mut state, COMMIT_B, Some(stale), built, &[200]);
    assert_eq!(
        actions[4],
        Action::RemoveStale { names: vec!["old_tool".to_string(), "server".to_string()] }
    );
    assert_eq!(actions[5], Action::Build);
    for action in &actions {
        if let Action::Upload { binary, .. } = action {
            assert_ne!(binary, "old_tool");
        }
    }
    assert_eq!(actions[7], upload("server", &hex_b()));
    assert_eq!(actions.len(), 9);
}

#[test]
fn missing_output_directory_before_the_first_build_is_no_error() {
    let mut state = target(&["server"]);
    state.step(Event::Wake);
    state.step(Event::FetchFinished { exit_code: Some(0) });
    state.step(Event::ResetFinished { exit_code: Some(0) });
    assert_eq!(state.step(Event::HeadRead { hash: COMMIT_A }), Action::ListStale);
    assert_eq!(
        state.step(Event::StaleListed { entries: None }),
        Action::RemoveStale { names: Vec::new() }
    );
    assert_eq!(state.step(Event::StaleRemoved), Action::Build);
}

#[test]
fn event_out_of_turn_is_refused_and_changes_nothing() {
    let mut state = target_at_a(&["server"]);
    assert_eq!(
        state.step(Event::UploadFinished { status: 200 }),
        Action::Halt { reason: Fatal::UnexpectedEvent }
    );
    assert!(state.is_idle());
    assert_eq!(state.last_build(), COMMIT_A);
    assert_eq!(state.step(Event::Wake), Action::Fetch);
    assert_eq!(state.step(Event::Wake), Action::Halt { reason: Fatal::UnexpectedEvent });
    assert!(!state.is_idle());
    assert_eq!(state.step(Event::FetchFinished { exit_code: Some(0) }), Action::ResetHard);
}

#[test]
fn failed_commit_is_built_again_in_the_next_cycle() {
    let mut state = target_at_a(&["server"]);
    state.step(Event::Wake);
    state.step(Event::FetchFinished { exit_code: Some(0) });
    state.step(Event::ResetFinished { exit_code: Some(0) });
    state.step(Event::HeadRead { hash: COMMIT_B });
    state.step(Event::StaleListed { entries: None });
    state.step(Event::StaleRemoved);
    state.step(Event::BuildFinished { exit_code: Some(0) });
    state.step(Event::ArtifactsListed { entries: None });
    let actions = build_cycle(&mut state, COMMIT_B, None, vec![file("server", 0o755)], &[200]);
    assert_eq!(actions[3], Action::ListStale);
    assert_eq!(state.last_build(), COMMIT_B);
}
