use scl::commit::parse_commit;

#[test]
fn marked_header_leads_breaking_changes() {
    let c = parse_commit("abc", "feat(api)!: drop the v1 endpoints").unwrap();
    assert!(c.breaking);
    assert_eq!(c.type_, "feat");
    assert_eq!(c.scope.as_deref(), Some("api"));
    assert_eq!(c.description, "drop the v1 endpoints");
    assert_eq!(c.breaking_changes, vec!["drop the v1 endpoints".to_string()]);
    assert_eq!(c.sha, "abc");
}

#[test]
fn marked_header_without_scope() {
    let c = parse_commit("abc", "refactor!: rename the config keys").unwrap();
    assert!(c.breaking);
    assert_eq!(c.scope, None);
    assert_eq!(c.breaking_changes, vec!["rename the config keys".to_string()]);
}

#[test]
fn breaking_footer_without_marker() {
    let c = parse_commit("abc", "fix: handle empty input\n\nBREAKING CHANGE: empty input is an error now")
        .unwrap();
    assert!(c.breaking);
    assert_eq!(c.description, "handle empty input");
    assert_eq!(c.breaking_changes, vec!["empty input is an error now".to_string()]);
    assert_eq!(c.footers.len(), 1);
    assert!(c.footers[0].breaking);
    assert_eq!(c.footers[0].token, "BREAKING CHANGE");
}

#[test]
fn hyphenated_breaking_footer() {
    let c = parse_commit("abc", "fix: x\n\nBREAKING-CHANGE: y").unwrap();
    assert!(c.breaking);
    assert_eq!(c.breaking_changes, vec!["y".to_string()]);
}

#[test]
fn marker_and_other_footers_are_appended() {
    let c = parse_commit(
        "abc",
        "feat!: new storage\n\nBREAKING CHANGE: old files are not read\nBREAKING CHANGE: new storage",
    )
    .unwrap();
    assert_eq!(
        c.breaking_changes,
        vec!["new storage".to_string(), "old files are not read".to_string()]
    );
}

#[test]
fn second_breaking_footer_follows_first() {
    let c = parse_commit("abc", "fix: x\n\nBREAKING CHANGE: a\nBREAKING CHANGE: b").unwrap();
    assert_eq!(c.breaking_changes, vec!["a".to_string(), "b".to_string()]);
}

#[test]
fn plain_commit_is_not_breaking() {
    let c = parse_commit("abc", "docs: spelling").unwrap();
    assert!(!c.breaking);
    assert!(c.breaking_changes.is_empty());
    assert_eq!(c.body, None);
}

#[test]
fn trailing_newlines_do_not_make_a_body() {
    let c = parse_commit("abc", "fix: correct Y\n\n\r\n").unwrap();
    assert_eq!(c.description, "correct Y");
    assert_eq!(c.body, None);
}

#[test]
fn body_and_footers() {
    let c = parse_commit(
        "abc",
        "feat(ui): dark mode\n\nAdds a toggle.\n\nReviewed-by: Ann\nRefs #42",
    )
    .unwrap();
    assert_eq!(c.body.as_deref(), Some("Adds a toggle."));
    assert_eq!(c.footers.len(), 2);
    assert_eq!(c.footers[0].token, "Reviewed-by");
    assert_eq!(c.footers[0].separator, ": ");
    assert_eq!(c.footers[0].value, "Ann");
    assert_eq!(c.footers[0].to_string(), "Reviewed-by: Ann");
    assert_eq!(c.footers[1].separator, " #");
    assert_eq!(c.footers[1].to_string(), "Refs #42");
    assert!(!c.breaking);
}

#[test]
fn unconventional_message_is_refused() {
    assert!(parse_commit("abc", "cleanup").is_err());
    assert!(parse_commit("abc", "").is_err());
    assert!(parse_commit("abc", "feat:").is_err());
}

#[test]
fn refusal_carries_the_parser_diagnostic() {
    let expected = git_conventional::Commit::parse("cleanup").unwrap_err().to_string();
    assert_eq!(parse_commit("abc", "cleanup\n\n").unwrap_err(), expected);
}
