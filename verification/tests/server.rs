use rust_builder::config::{BuildTarget, Config};
use rust_builder::executables::ExecutableSet;
use rust_builder::monitor::{Action, Event, Fatal, Outcome};
use rust_builder::server::{action_ends_cycle, Server, SharedState, SpawnError};

fn shared() -> SharedState {
    SharedState {
        cargo_path: "/usr/local/bin/cargo".to_string(),
        bin_serve_endpoint: "http://localhost:8080".to_string(),
    }
}

fn build_target(url: &str, branch: &str, names: &[&str]) -> BuildTarget {
    BuildTarget {
        repository_url: url.to_string(),
        ssh_key: "~/.ssh/id_ed25519".to_string(),
        branch: branch.to_string(),
        executables: ExecutableSet::from_names(
            names.iter().map(|name| name.to_string()).collect(),
        )
        .unwrap(),
    }
}

fn two_targets() -> Server {
    let config = Config {
        root: "~/checkouts".to_string(),
        targets: vec![
            build_target("git@github.com:org/alpha.git", "main", &["server", "worker"]),
            build_target("https://github.com/org/beta", "develop", &["cli"]),
        ],
    };
    Server::spawn(shared(), config).unwrap()
}

/// Runs a cycle that finds the head unchanged (all zero on a fresh target).
fn idle_cycle(server: &mut Server) {
    assert_eq!(server.check_target(Event::Wake), Some(Action::Fetch));
    assert_eq!(
        server.check_target(Event::FetchFinished { exit_code: Some(0) }),
        Some(Action::ResetHard)
    );
    assert_eq!(
        server.check_target(Event::ResetFinished { exit_code: Some(0) }),
        Some(Action::ReadHead)
    );
    assert_eq!(
        server.check_target(Event::HeadRead { hash: [0u8; 20] }),
        Some(Action::Rest { outcome: Outcome::Unchanged })
    );
}

#[test]
fn spawn_makes_one_target_and_one_checkout_per_configured_target() {
    let server = two_targets();
    assert_eq!(server.target_count(), 2);
    assert_eq!(server.root(), "~/checkouts");
    assert_eq!(server.shared().cargo_path, "/usr/local/bin/cargo");
    assert_eq!(server.shared().bin_serve_endpoint, "http://localhost:8080");
    let alpha = server.repository(0).unwrap();
    assert_eq!(alpha.directory, "alpha");
    assert_eq!(alpha.url, "git@github.com:org/alpha.git");
    assert_eq!(alpha.ssh_key, "~/.ssh/id_ed25519");
    assert_eq!(server.repository(1).unwrap().directory, "beta");
    assert!(server.repository(2).is_none());
    let first = server.target(0).unwrap();
    assert_eq!(first.repository(), 0);
    assert_eq!(first.branch(), "main");
    assert_eq!(first.last_build(), [0u8; 20]);
    assert!(first.is_idle());
    assert!(first.executables().contains("worker"));
    let second = server.target(1).unwrap();
    assert_eq!(second.repository(), 1);
    assert_eq!(second.branch(), "develop");
    assert!(server.target(2).is_none());
    assert_eq!(server.current(), Some(0));
}

#[test]
fn spawn_fails_at_the_first_url_that_names_no_repository() {
    let config = Config {
        root: "/srv".to_string(),
        targets: vec![
            build_target("git@github.com:org/alpha.git", "main", &[]),
            build_target("ftp://example.org/beta", "main", &[]),
            build_target("nonsense", "main", &[]),
        ],
    };
    assert_eq!(
        Server::spawn(shared(), config).unwrap_err(),
        SpawnError::NoRepositoryName { target: 1 }
    );
}

#[test]
fn server_without_targets_decides_nothing() {
    let config = Config { root: "/srv".to_string(), targets: Vec::new() };
    let mut server = Server::spawn(shared(), config).unwrap();
    assert_eq!(server.target_count(), 0);
    assert_eq!(server.current(), None);
    assert_eq!(server.check_target(Event::Wake), None);
    assert_eq!(server.current(), None);
}

#[test]
fn targets_take_turns_in_configuration_order() {
    let mut server = two_targets();
    for _ in 0..3 {
        assert_eq!(server.current(), Some(0));
        idle_cycle(&mut server);
        assert_eq!(server.current(), Some(1));
        idle_cycle(&mut server);
    }
    assert_eq!(server.current(), Some(0));
}

#[test]
fn turn_stays_with_a_target_until_its_cycle_ends() {
    let mut server = two_targets();
    server.check_target(Event::Wake);
    assert_eq!(server.current(), Some(0));
    server.check_target(Event::FetchFinished { exit_code: Some(0) });
    assert_eq!(server.current(), Some(0));
    assert!(!server.target(0).unwrap().is_idle());
    assert!(server.target(1).unwrap().is_idle());
}

#[test]
fn failing_target_does_not_touch_the_others() {
    let mut server = two_targets();
    server.check_target(Event::Wake);
    assert_eq!(
        server.check_target(Event::FetchFinished { exit_code: Some(1) }),
        Some(Action::Rest { outcome: Outcome::FetchFailed })
    );
    assert_eq!(server.current(), Some(1));
    assert_eq!(server.check_target(Event::Wake), Some(Action::Fetch));
    server.check_target(Event::FetchFinished { exit_code: Some(0) });
    server.check_target(Event::ResetFinished { exit_code: Some(0) });
    server.check_target(Event::HeadRead { hash: [9u8; 20] });
    server.check_target(Event::StaleListed { entries: None });
    server.check_target(Event::StaleRemoved);
    server.check_target(Event::BuildFinished { exit_code: Some(0) });
    assert_eq!(
        server.check_target(Event::ArtifactsListed { entries: Some(Vec::new()) }),
        Some(Action::Rest { outcome: Outcome::Published { failed: Vec::new() } })
    );
    assert_eq!(server.target(1).unwrap().last_build(), [9u8; 20]);
    assert_eq!(server.target(0).unwrap().last_build(), [0u8; 20]);
    assert_eq!(server.current(), Some(0));
}

#[test]
fn event_out_of_turn_does_not_pass_the_turn() {
    let mut server = two_targets();
    assert_eq!(
        server.check_target(Event::StaleRemoved),
        Some(Action::Halt { reason: Fatal::UnexpectedEvent })
    );
    assert_eq!(server.current(), Some(0));
}

#[test]
fn fatal_failure_passes_the_turn() {
    let mut server = two_targets();
    server.check_target(Event::Wake);
    server.check_target(Event::FetchFinished { exit_code: Some(0) });
    assert_eq!(
        server.check_target(Event::ResetFinished { exit_code: None }),
        Some(Action::Halt { reason: Fatal::ResetFailed })
    );
    assert_eq!(server.current(), Some(1));
}

#[test]
fn rest_and_fatal_halts_end_a_cycle() {
    assert!(action_ends_cycle(&Action::Rest { outcome: Outcome::Unchanged }));
    assert!(action_ends_cycle(&Action::Halt { reason: Fatal::BuildFailed }));
    assert!(action_ends_cycle(&Action::Halt { reason: Fatal::ResetFailed }));
    assert!(!action_ends_cycle(&Action::Halt { reason: Fatal::UnexpectedEvent }));
    assert!(!action_ends_cycle(&Action::Fetch));
    assert!(!action_ends_cycle(&Action::Build));
}
