use scl::categorize::{categorize_commits, CategoryKind};
use scl::collect::{get_conventional_commits, CollectError, WalkedCommit};
use scl::commit::{parse_commit, ConventionalCommit};
use scl::render::{format_json, format_markdown, ReportFormat};
use scl::release::{changelog, new, SclError};
use scl::version::Version;

fn commits(messages: &[&str]) -> Vec<ConventionalCommit> {
    messages.iter().map(|m| parse_commit("0", m).unwrap()).collect()
}

fn walk(entries: &[(&str, Option<&str>)]) -> Vec<WalkedCommit> {
    entries
        .iter()
        .map(|(sha, m)| WalkedCommit { sha: sha.to_string(), message: m.map(|x| x.to_string()) })
        .collect()
}

#[test]
fn each_commit_in_one_category_in_fixed_order() {
    let cs = commits(&["fix: a", "feat!: b", "chore: c", "feat: d", "chore!: e", "fix: f"]);
    let cats = categorize_commits(&cs);
    assert_eq!(cats.len(), 3);
    assert_eq!(cats[0].kind, CategoryKind::BreakingChanges);
    assert_eq!(cats[0].commits, vec![1, 4]);
    assert_eq!(cats[1].kind, CategoryKind::Features);
    assert_eq!(cats[1].commits, vec![3]);
    assert_eq!(cats[2].kind, CategoryKind::BugFixes);
    assert_eq!(cats[2].commits, vec![0, 5]);
}

#[test]
fn empty_categories_are_left_out() {
    let cats = categorize_commits(&commits(&["fix: a", "chore: c"]));
    assert_eq!(cats.len(), 1);
    assert_eq!(cats[0].kind, CategoryKind::BugFixes);
    assert!(categorize_commits(&Vec::new()).is_empty());
    assert_eq!(format_markdown(&Vec::new(), &Vec::new()), "");
    assert_eq!(format_json(&Vec::new(), &Vec::new()), "[]");
}

#[test]
fn category_names() {
    assert_eq!(CategoryKind::BreakingChanges.name(), "BREAKING CHANGES");
    assert_eq!(CategoryKind::Features.name(), "Features");
    assert_eq!(CategoryKind::BugFixes.name(), "Bug Fixes");
}

#[test]
fn release_scenario() {
    // walked newest first
    let walked = walk(&[
        ("c3", Some("chore: cleanup")),
        ("c2", Some("fix: correct Y")),
        ("c1", Some("feat: add X")),
    ]);
    let notes = new()
        .execute(&walked, false, &Version::parse("1.4.2").unwrap(), ReportFormat::Markdown)
        .unwrap();
    assert_eq!(notes.version.to_string(), "1.5.0");
    assert_eq!(
        notes.changelog,
        "### Features\n\n- **feat:** add X\n\n### Bug Fixes\n\n- **fix:** correct Y\n"
    );
    assert!(!notes.changelog.contains("chore"));
    let shas: Vec<&str> = notes.commits.iter().map(|c| c.sha.as_str()).collect();
    assert_eq!(shas, vec!["c1", "c2", "c3"]);
}

#[test]
fn json_changelog_is_escaped() {
    let cs = commits(&["feat: say \"hi\" \\ there\ttoo", "fix!: x"]);
    assert_eq!(
        changelog(&cs, ReportFormat::Json),
        "[{\"name\": \"BREAKING CHANGES\",\"commits\":[{\"type\": \"fix\", \"subject\": \"x\"}]},\
{\"name\": \"Features\",\"commits\":[{\"type\": \"feat\", \"subject\": \"say \\\"hi\\\" \\\\ there\\ttoo\"}]}]"
    );
}

#[test]
fn json_two_commits_in_a_category() {
    let cs = commits(&["fix: a", "fix: b\u{1}"]);
    assert_eq!(
        changelog(&cs, ReportFormat::Json),
        "[{\"name\": \"Bug Fixes\",\"commits\":[{\"type\": \"fix\", \"subject\": \"a\"},{\"type\": \"fix\", \"subject\": \"b\\u0001\"}]}]"
    );
}

#[test]
fn markdown_of_three_categories() {
    let cs = commits(&["feat(x)!: a", "feat: b", "fix: c"]);
    assert_eq!(
        changelog(&cs, ReportFormat::Markdown),
        "### BREAKING CHANGES\n\n- **feat:** a\n\n### Features\n\n- **feat:** b\n\n### Bug Fixes\n\n- **fix:** c\n"
    );
}

#[test]
fn strict_fails_where_lenient_skips() {
    let walked = walk(&[("c3", Some("fix: y")), ("c2", Some("oops")), ("c1", Some("feat!: x"))]);
    match get_conventional_commits(&walked, true) {
        Err(CollectError::Unconventional { sha, .. }) => assert_eq!(sha, "c2"),
        other => panic!("unexpected {:?}", other),
    }
    let lenient = get_conventional_commits(&walked, false).unwrap();
    let shas: Vec<&str> = lenient.iter().map(|c| c.sha.as_str()).collect();
    assert_eq!(shas, vec!["c1", "c3"]);
    let base = Version::parse("0.3.1").unwrap();
    let notes = new().execute(&walked, false, &base, ReportFormat::Markdown).unwrap();
    assert_eq!(notes.version, Version::new(0, 4, 0));
    assert!(!notes.changelog.contains("oops"));
    assert!(matches!(
        new().execute(&walked, true, &base, ReportFormat::Markdown),
        Err(SclError::Collect(CollectError::Unconventional { .. }))
    ));
}

#[test]
fn invalid_text_fails_in_both_modes() {
    let walked = walk(&[("c2", None), ("c1", Some("feat: x"))]);
    for strict in [false, true] {
        match get_conventional_commits(&walked, strict) {
            Err(e @ CollectError::InvalidCommitEncoding { .. }) => assert_eq!(
                e.describe(),
                "commit message for c2 is not a valid UTF-8 string"
            ),
            other => panic!("unexpected {:?}", other),
        }
    }
}

#[test]
fn unconventional_error_names_commit() {
    let walked = walk(&[("c1", Some("nope"))]);
    let e = get_conventional_commits(&walked, true).unwrap_err();
    let diagnostic = git_conventional::Commit::parse("nope").unwrap_err().to_string();
    assert!(!diagnostic.is_empty());
    match &e {
        CollectError::Unconventional { sha, reason } => {
            assert_eq!(sha, "c1");
            assert_eq!(reason, &diagnostic);
        }
        other => panic!("unexpected {:?}", other),
    }
    assert_eq!(e.describe(), format!("found unconventional commit 'c1': {}", diagnostic));
}

#[test]
fn empty_range() {
    let notes = new()
        .execute(&Vec::new(), true, &Version::new(2, 0, 0), ReportFormat::Json)
        .unwrap();
    assert!(notes.commits.is_empty());
    assert_eq!(notes.version, Version::new(2, 0, 0));
    assert_eq!(notes.changelog, "[]");
}

#[test]
fn version_out_of_range() {
    let walked = walk(&[("c1", Some("fix: x"))]);
    let base = Version::new(1, 0, u64::MAX);
    assert!(matches!(
        new().execute(&walked, false, &base, ReportFormat::Markdown),
        Err(SclError::VersionOutOfRange)
    ));
}
