use rust_builder::provision::{
    choose_credential, Credential, ProvisionAction, ProvisionError, ProvisionEvent,
    ProvisionPhase, Provisioner,
};

#[test]
fn credential_prefers_the_user_from_the_url() {
    assert_eq!(
        choose_credential(Some("git"), "fallback", false),
        Credential::SshKey { user: "git".to_string() }
    );
    assert_eq!(
        choose_credential(Some("git"), "fallback", true),
        Credential::Username { user: "git".to_string() }
    );
}

#[test]
fn credential_falls_back_to_the_suggested_user() {
    assert_eq!(
        choose_credential(None, "fallback", false),
        Credential::SshKey { user: "fallback".to_string() }
    );
    assert_eq!(
        choose_credential(None, "fallback", true),
        Credential::Username { user: "fallback".to_string() }
    );
}

#[test]
fn existing_checkout_is_opened_without_a_submodule_walk() {
    let mut state = Provisioner::new();
    assert_eq!(state.phase(), ProvisionPhase::Start);
    assert_eq!(
        state.step(ProvisionEvent::PathChecked { exists: true }),
        ProvisionAction::OpenExisting
    );
    assert_eq!(state.step(ProvisionEvent::Opened { ok: true }), ProvisionAction::Finish);
    assert_eq!(state.phase(), ProvisionPhase::Ready);
    assert_eq!(state.opened(), 0);
}

#[test]
fn failing_to_open_is_fatal() {
    let mut state = Provisioner::new();
    state.step(ProvisionEvent::PathChecked { exists: true });
    assert_eq!(
        state.step(ProvisionEvent::Opened { ok: false }),
        ProvisionAction::Fail { reason: ProvisionError::OpenFailed }
    );
    assert_eq!(state.phase(), ProvisionPhase::Failed);
}

#[test]
fn failing_to_clone_is_fatal() {
    let mut state = Provisioner::new();
    assert_eq!(
        state.step(ProvisionEvent::PathChecked { exists: false }),
        ProvisionAction::CloneRepository
    );
    assert_eq!(
        state.step(ProvisionEvent::Cloned { ok: false }),
        ProvisionAction::Fail { reason: ProvisionError::CloneFailed }
    );
    assert_eq!(state.phase(), ProvisionPhase::Failed);
}

#[test]
fn clone_without_submodules_finishes_after_the_root() {
    let mut state = Provisioner::new();
    state.step(ProvisionEvent::PathChecked { exists: false });
    assert_eq!(
        state.step(ProvisionEvent::Cloned { ok: true }),
        ProvisionAction::SyncSubmodules { repository: 0 }
    );
    assert_eq!(
        state.step(ProvisionEvent::SubmodulesSynced { found: Some(0) }),
        ProvisionAction::Finish
    );
    assert_eq!(state.phase(), ProvisionPhase::Ready);
    assert_eq!(state.opened(), 1);
}

#[test]
fn nested_submodules_are_walked_last_found_first() {
    // Root 0 has submodules 1 and 2; 2 has submodules 3 and 4; 4 has 5.
    let mut state = Provisioner::new();
    state.step(ProvisionEvent::PathChecked { exists: false });
    assert_eq!(
        state.step(ProvisionEvent::Cloned { ok: true }),
        ProvisionAction::SyncSubmodules { repository: 0 }
    );
    let found = |count: usize| ProvisionEvent::SubmodulesSynced { found: Some(count) };
    assert_eq!(state.step(found(2)), ProvisionAction::SyncSubmodules { repository: 2 });
    assert_eq!(state.step(found(2)), ProvisionAction::SyncSubmodules { repository: 4 });
    assert_eq!(state.step(found(1)), ProvisionAction::SyncSubmodules { repository: 5 });
    assert_eq!(state.step(found(0)), ProvisionAction::SyncSubmodules { repository: 3 });
    assert_eq!(state.step(found(0)), ProvisionAction::SyncSubmodules { repository: 1 });
    assert_eq!(state.phase(), ProvisionPhase::Walking { repository: 1 });
    assert_eq!(state.step(found(0)), ProvisionAction::Finish);
    assert_eq!(state.phase(), ProvisionPhase::Ready);
    assert_eq!(state.opened(), 6);
}

#[test]
fn failing_submodule_is_fatal() {
    let mut state = Provisioner::new();
    state.step(ProvisionEvent::PathChecked { exists: false });
    state.step(ProvisionEvent::Cloned { ok: true });
    state.step(ProvisionEvent::SubmodulesSynced { found: Some(1) });
    assert_eq!(
        state.step(ProvisionEvent::SubmodulesSynced { found: None }),
        ProvisionAction::Fail { reason: ProvisionError::SubmoduleFailed }
    );
    assert_eq!(state.phase(), ProvisionPhase::Failed);
}

#[test]
fn more_handles_than_fit_are_refused() {
    let mut state = Provisioner::new();
    state.step(ProvisionEvent::PathChecked { exists: false });
    state.step(ProvisionEvent::Cloned { ok: true });
    assert_eq!(
        state.step(ProvisionEvent::SubmodulesSynced { found: Some(usize::MAX) }),
        ProvisionAction::Fail { reason: ProvisionError::TooManyRepositories }
    );
    assert_eq!(state.phase(), ProvisionPhase::Failed);
}

#[test]
fn event_out_of_turn_changes_nothing() {
    let mut state = Provisioner::new();
    assert_eq!(
        state.step(ProvisionEvent::Cloned { ok: true }),
        ProvisionAction::Fail { reason: ProvisionError::UnexpectedEvent }
    );
    assert_eq!(state.phase(), ProvisionPhase::Start);
    state.step(ProvisionEvent::PathChecked { exists: true });
    state.step(ProvisionEvent::Opened { ok: true });
    assert_eq!(
        state.step(ProvisionEvent::PathChecked { exists: true }),
        ProvisionAction::Fail { reason: ProvisionError::UnexpectedEvent }
    );
    assert_eq!(state.phase(), ProvisionPhase::Ready);
}
