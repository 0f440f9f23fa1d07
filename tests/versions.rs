use scl::commit::{parse_commit, ConventionalCommit};
use scl::version::{checked_next_version, get_next_version, Version};

fn commits(messages: &[&str]) -> Vec<ConventionalCommit> {
    messages.iter().map(|m| parse_commit("0", m).unwrap()).collect()
}

fn version(text: &str) -> Version {
    Version::parse(text).unwrap()
}

#[test]
fn no_commits_keep_the_version() {
    let base = version("1.2.3-rc.1+build.5");
    assert_eq!(get_next_version(&base, &Vec::new()), base);
}

#[test]
fn breaking_change_bumps_major() {
    let next = get_next_version(&version("2.3.1"), &commits(&["chore!: drop support"]));
    assert_eq!(next, Version::new(3, 0, 0));
}

#[test]
fn breaking_change_with_feature_on_zero_line_bumps_minor() {
    let next = get_next_version(&version("0.3.1"), &commits(&["chore!: drop support", "feat: add"]));
    assert_eq!(next, Version::new(0, 4, 0));
}

#[test]
fn breaking_feature_on_zero_line_bumps_minor() {
    let next = get_next_version(&version("0.3.1"), &commits(&["feat!: new api"]));
    assert_eq!(next, Version::new(0, 4, 0));
}

#[test]
fn breaking_change_alone_on_zero_line_keeps_version() {
    let next = get_next_version(&version("0.3.1"), &commits(&["chore!: drop support"]));
    assert_eq!(next, Version::new(0, 3, 1));
}

#[test]
fn fix_bumps_patch() {
    let next = get_next_version(&version("1.4.2"), &commits(&["fix: y", "docs: z"]));
    assert_eq!(next, Version::new(1, 4, 3));
}

#[test]
fn other_types_keep_version_and_metadata() {
    let base = version("1.4.2-beta.2+sha.5");
    let next = get_next_version(&base, &commits(&["docs: z", "chore: w"]));
    assert_eq!(next, base);
    assert_eq!(next.to_string(), "1.4.2-beta.2+sha.5");
}

#[test]
fn bump_drops_metadata() {
    let next = get_next_version(&version("1.4.2-beta.2+sha.5"), &commits(&["feat: x"]));
    assert_eq!(next.to_string(), "1.5.0");
}

#[test]
fn largest_number_cannot_be_bumped() {
    let base = Version::new(u64::MAX, 0, 0);
    assert_eq!(checked_next_version(&base, &commits(&["fix!: x"])), None);
    assert_eq!(
        checked_next_version(&base, &commits(&["fix: x"])),
        Some(Version::new(u64::MAX, 0, 1))
    );
}

#[test]
fn version_text() {
    assert_eq!(Version::new(10, 0, 907).to_string(), "10.0.907");
    assert_eq!(version("0.1.0+b").to_string(), "0.1.0+b");
    assert_eq!(version("18446744073709551615.0.0").major, u64::MAX);
}

#[test]
fn version_parse() {
    let v = version("1.2.3-alpha.1+build");
    assert_eq!((v.major, v.minor, v.patch), (1, 2, 3));
    assert_eq!(v.pre, "alpha.1");
    assert_eq!(v.build, "build");
    assert!(Version::parse("1.2.3.4.5").is_err());
    assert!(Version::parse("v1.4.2").is_err());
}
