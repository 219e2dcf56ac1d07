use rust_builder::artifact::{DirectoryEntry, FileKind};
use rust_builder::executables::ExecutableSet;
use rust_builder::upload::{
    part_name, plan_uploads, upload_accepted, upload_file_name, upload_url, STATUS_OK,
};

fn file(name: &str, mode: u32) -> DirectoryEntry {
    DirectoryEntry { name: name.to_string(), kind: FileKind::File, mode }
}

fn set(names: &[&str]) -> ExecutableSet {
    ExecutableSet::from_names(names.iter().map(|name| name.to_string()).collect()).unwrap()
}

#[test]
fn upload_name_is_binary_dash_forty_hex_characters() {
    let mut hash = [0u8; 20];
    for (i, byte) in hash.iter_mut().enumerate() {
        *byte = (i as u8) * 13 + 1;
    }
    let name = upload_file_name("server", &hash);
    assert_eq!(name, format!("server-{}", hex::encode(hash)));
    assert_eq!(name, "server-010e1b2835424f5c697683909daab7c4d1deebf8");
    assert_eq!(name.len(), "server".len() + 41);
}

#[test]
fn upload_name_keeps_the_binary_name_as_it_is() {
    let hash = [0xffu8; 20];
    assert_eq!(
        upload_file_name("my-tool_2", &hash),
        "my-tool_2-ffffffffffffffffffffffffffffffffffffffff"
    );
    assert_eq!(upload_file_name("", &[0u8; 20]), format!("-{}", "0".repeat(40)));
}

#[test]
fn upload_url_appends_the_upload_path() {
    assert_eq!(upload_url("http://localhost:8080"), "http://localhost:8080/upload?path=/");
    assert_eq!(upload_url(""), "/upload?path=/");
}

#[test]
fn part_is_named_path() {
    assert_eq!(part_name(), "path");
}

#[test]
fn only_status_200_is_accepted() {
    assert_eq!(STATUS_OK, 200);
    assert!(upload_accepted(200));
    assert!(!upload_accepted(201));
    assert!(!upload_accepted(204));
    assert!(!upload_accepted(199));
    assert!(!upload_accepted(404));
    assert!(!upload_accepted(500));
    assert!(!upload_accepted(0));
}

#[test]
fn plan_uploads_takes_configured_candidates_in_listing_order() {
    let entries = vec![
        file("worker", 0o755),
        file("helper", 0o755),
        file("server.d", 0o755),
        file("server", 0o755),
        DirectoryEntry { name: "cli".to_string(), kind: FileKind::Directory, mode: 0o755 },
    ];
    let executables = set(&["server", "worker", "cli", "server.d"]);
    assert_eq!(
        plan_uploads(&entries, &executables),
        vec!["worker".to_string(), "server".to_string()]
    );
}

#[test]
fn plan_uploads_skips_configured_names_that_are_not_executable() {
    let entries = vec![file("server", 0o644), file("worker", 0o755)];
    let executables = set(&["server", "worker"]);
    assert_eq!(plan_uploads(&entries, &executables), vec!["worker".to_string()]);
}

#[test]
fn plan_uploads_with_no_configured_names_is_empty() {
    let entries = vec![file("server", 0o755)];
    assert_eq!(plan_uploads(&entries, &ExecutableSet::new()), Vec::<String>::new());
}
