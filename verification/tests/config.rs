use rust_builder::repository_name;

#[test]
fn ssh_url_drops_the_git_suffix() {
    assert_eq!(
        repository_name("git@github.com:org/rust-builder.git"),
        Some("rust-builder".to_string())
    );
}

#[test]
fn ssh_url_without_suffix_keeps_the_segment() {
    assert_eq!(repository_name("git@host:org/repo"), Some("repo".to_string()));
}

#[test]
fn ssh_url_with_two_dots_names_nothing() {
    assert_eq!(repository_name("git@host:org/my.repo.git"), None);
}

#[test]
fn ssh_url_with_leading_dot_names_nothing() {
    assert_eq!(repository_name("git@host:org/.git"), None);
}

#[test]
fn ssh_url_with_empty_segment_names_nothing() {
    assert_eq!(repository_name("git@host:org/"), None);
}

#[test]
fn https_url_keeps_the_last_segment_as_it_is() {
    assert_eq!(
        repository_name("https://github.com/org/repo"),
        Some("repo".to_string())
    );
    assert_eq!(
        repository_name("https://github.com/org/repo.git"),
        Some("repo.git".to_string())
    );
    assert_eq!(
        repository_name("https://github.com/org/a.b.c"),
        Some("a.b.c".to_string())
    );
}

#[test]
fn https_url_with_trailing_slash_names_nothing() {
    assert_eq!(repository_name("https://github.com/org/repo/"), None);
}

#[test]
fn other_schemes_name_nothing() {
    assert_eq!(repository_name("http://github.com/org/repo"), None);
    assert_eq!(repository_name("/srv/git/repo"), None);
    assert_eq!(repository_name("ssh://git@host/org/repo.git"), None);
}

#[test]
fn url_without_slash_names_nothing() {
    assert_eq!(repository_name("git@host:repo.git"), None);
    assert_eq!(repository_name(""), None);
}

#[test]
fn names_may_hold_characters_outside_ascii() {
    assert_eq!(
        repository_name("git@host:org/caf\u{e9}.git"),
        Some("caf\u{e9}".to_string())
    );
    assert_eq!(
        repository_name("https://host/\u{e9}/\u{fc}ber"),
        Some("\u{fc}ber".to_string())
    );
}
