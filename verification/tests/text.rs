use rust_builder::text::starts_with;

#[test]
fn starts_with_compares_whole_prefix() {
    assert!(starts_with("git@host", "git@"));
    assert!(!starts_with("git", "git@"));
    assert!(!starts_with("gitX@host", "git@"));
    assert!(starts_with("anything", ""));
}
