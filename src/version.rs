//! Semantic versions, and the next version that a list of commits calls for.

use vstd::prelude::*;
use crate::commit::{CommitModel, ConventionalCommit};
use crate::collect::commits_view;
use crate::text::push_char;

verus! {

/// A semantic version as plain values.
pub struct VersionModel {
    pub major: u64,
    pub minor: u64,
    pub patch: u64,
    pub pre: Seq<char>,
    pub build: Seq<char>,
}

/// A semantic version: `major.minor.patch`, with the pre-release and build
/// metadata as text (empty where there is none).
#[derive(Clone, Debug, PartialEq, Eq)]
pub struct Version {
    pub major: u64,
    pub minor: u64,
    pub patch: u64,
    pub pre: String,
    pub build: String,
}

impl View for Version {
    type V = VersionModel;

    open spec fn view(&self) -> VersionModel {
        VersionModel {
            major: self.major,
            minor: self.minor,
            patch: self.patch,
            pre: self.pre@,
            build: self.build@,
        }
    }
}

/// What `semver::Version::parse` makes of a text; `None` where it refuses it.
pub uninterp spec fn semver_parse(text: Seq<char>) -> Option<VersionModel>;

/// Relies on `semver::Version::parse` to read a version, with its pre-release
/// and build metadata as text.
#[verifier::external_body]
fn semver_parse_version(text: &str) -> (r: Result<Version, String>)
    ensures
        match r {
            Ok(v) => semver_parse(text@) == Some(v@),
            Err(_) => semver_parse(text@) is None,
        },
{
    let v = semver::Version::parse(text).map_err(|e| e.to_string())?;
    Ok(Version {
        major: v.major,
        minor: v.minor,
        patch: v.patch,
        pre: v.pre.as_str().to_string(),
        build: v.build.as_str().to_string(),
    })
}

pub open spec fn any_breaking(commits: Seq<CommitModel>) -> bool {
    exists|i: int| 0 <= i < commits.len() && #[trigger] commits[i].breaking
}

pub open spec fn any_of_type(commits: Seq<CommitModel>, type_: Seq<char>) -> bool {
    exists|i: int| 0 <= i < commits.len() && #[trigger] commits[i].type_ == type_
}

/// Whether a breaking change bumps the major number: not on a `0.x` line.
pub open spec fn major_bump(base: VersionModel, commits: Seq<CommitModel>) -> bool {
    base.major > 0 && any_breaking(commits)
}

pub open spec fn minor_bump(base: VersionModel, commits: Seq<CommitModel>) -> bool {
    !major_bump(base, commits) && any_of_type(commits, "feat"@)
}

pub open spec fn patch_bump(base: VersionModel, commits: Seq<CommitModel>) -> bool {
    !major_bump(base, commits) && !any_of_type(commits, "feat"@) && any_of_type(
        commits,
        "fix"@,
    )
}

pub open spec fn release(major: u64, minor: u64, patch: u64) -> VersionModel {
    VersionModel { major, minor, patch, pre: seq![], build: seq![] }
}

/// The version that follows `base` once `commits` are released: the first
/// rule that applies of a breaking change (major, outside `0.x`), a feature
/// (minor), a fix (patch); `base` itself where none does.
pub open spec fn next_version(base: VersionModel, commits: Seq<CommitModel>) -> VersionModel {
    if major_bump(base, commits) {
        release((base.major + 1) as u64, 0, 0)
    } else if minor_bump(base, commits) {
        release(base.major, (base.minor + 1) as u64, 0)
    } else if patch_bump(base, commits) {
        release(base.major, base.minor, (base.patch + 1) as u64)
    } else {
        base
    }
}

/// Whether the number that `commits` bump in `base` has room to grow.
pub open spec fn bump_fits(base: VersionModel, commits: Seq<CommitModel>) -> bool {
    &&& major_bump(base, commits) ==> base.major < u64::MAX
    &&& minor_bump(base, commits) ==> base.minor < u64::MAX
    &&& patch_bump(base, commits) ==> base.patch < u64::MAX
}

/// The decimal digits of `n`.
pub open spec fn decimal(n: nat) -> Seq<char>
    decreases n,
{
    if n < 10 {
        seq![digit_char(n)]
    } else {
        decimal(n / 10).push(digit_char(n % 10))
    }
}

pub open spec fn digit_char(d: nat) -> char {
    ((48 + d) as u8) as char
}

/// The text of a version: `major.minor.patch`, then `-pre` and `+build`
/// where they are not empty.
pub open spec fn version_text(v: VersionModel) -> Seq<char> {
    let core = decimal(v.major as nat) + seq!['.'] + decimal(v.minor as nat) + seq!['.']
        + decimal(v.patch as nat);
    let with_pre = if v.pre.len() > 0 {
        core + seq!['-'] + v.pre
    } else {
        core
    };
    if v.build.len() > 0 {
        with_pre + seq!['+'] + v.build
    } else {
        with_pre
    }
}

fn push_decimal(s: &mut String, n: u64)
    ensures
        final(s)@ == old(s)@ + decimal(n as nat),
    decreases n,
{
    if n >= 10 {
        push_decimal(s, n / 10);
    }
    let d = (n % 10) as u8;
    let c = (48 + d) as char;
    push_char(s, c);
    assert(final(s)@ =~= old(s)@ + decimal(n as nat));
}

fn any_breaking_commit(commits: &Vec<ConventionalCommit>) -> (r: bool)
    ensures
        r == any_breaking(commits_view(commits@)),
{
    let mut i: usize = 0;
    while i < commits.len()
        invariant
            i <= commits.len(),
            forall|j: int| 0 <= j < i ==> !(#[trigger] commits@[j]).breaking,
        decreases commits.len() - i,
    {
        if commits[i].breaking {
            assert(commits_view(commits@)[i as int].breaking);
            return true;
        }
        i = i + 1;
    }
    assert forall|j: int| 0 <= j < commits@.len() implies !(#[trigger] commits_view(
        commits@,
    )[j]).breaking by {
        assert(!commits@[j].breaking);
    }
    false
}

fn any_commit_of_type(commits: &Vec<ConventionalCommit>, type_: &String) -> (r: bool)
    ensures
        r == any_of_type(commits_view(commits@), type_@),
{
    let mut i: usize = 0;
    while i < commits.len()
        invariant
            i <= commits.len(),
            forall|j: int| 0 <= j < i ==> (#[trigger] commits@[j]).type_@ != type_@,
        decreases commits.len() - i,
    {
        if commits[i].type_ == *type_ {
            assert(commits_view(commits@)[i as int].type_ == type_@);
            return true;
        }
        i = i + 1;
    }
    assert forall|j: int| 0 <= j < commits@.len() implies (#[trigger] commits_view(
        commits@,
    )[j]).type_ != type_@ by {
        assert(commits@[j].type_@ != type_@);
    }
    false
}

impl Version {
    pub fn new(major: u64, minor: u64, patch: u64) -> (r: Version)
        ensures
            r@ == release(major, minor, patch),
    {
        Version { major, minor, patch, pre: String::new(), build: String::new() }
    }

    /// Reads a semantic version such as `1.2.3-rc.1+build.5`.
    pub fn parse(text: &str) -> (r: Result<Version, String>)
        ensures
            match r {
                Ok(v) => semver_parse(text@) == Some(v@),
                Err(_) => semver_parse(text@) is None,
            },
    {
        semver_parse_version(text)
    }

    /// A copy of the version.
    pub fn duplicate(&self) -> (r: Version)
        ensures
            r@ == self@,
    {
        Version {
            major: self.major,
            minor: self.minor,
            patch: self.patch,
            pre: self.pre.clone(),
            build: self.build.clone(),
        }
    }

    /// The version as text, as semver writes it.
    pub fn to_string(&self) -> (r: String)
        ensures
            r@ == version_text(self@),
    {
        let mut s = String::new();
        push_decimal(&mut s, self.major);
        push_char(&mut s, '.');
        push_decimal(&mut s, self.minor);
        push_char(&mut s, '.');
        push_decimal(&mut s, self.patch);
        if self.pre.as_str().unicode_len() > 0 {
            push_char(&mut s, '-');
            s.append(self.pre.as_str());
        }
        if self.build.as_str().unicode_len() > 0 {
            push_char(&mut s, '+');
            s.append(self.build.as_str());
        }
        assert(s@ =~= version_text(self@));
        s
    }
}

/// The version that follows `base_version` once `commits` are released.
pub fn get_next_version(base_version: &Version, commits: &Vec<ConventionalCommit>) -> (r: Version)
    requires
        bump_fits(base_version@, commits_view(commits@)),
    ensures
        r@ == next_version(base_version@, commits_view(commits@)),
{
    if base_version.major > 0 && any_breaking_commit(commits) {
        return Version::new(base_version.major + 1, 0, 0);
    }
    if any_commit_of_type(commits, &String::from_str("feat")) {
        return Version::new(base_version.major, base_version.minor + 1, 0);
    }
    if any_commit_of_type(commits, &String::from_str("fix")) {
        return Version::new(base_version.major, base_version.minor, base_version.patch + 1);
    }
    base_version.duplicate()
}

/// The version that follows `base_version` once `commits` are released, or
/// `None` where the number to bump is already the largest there is.
pub fn checked_next_version(base_version: &Version, commits: &Vec<ConventionalCommit>) -> (r: Option<
    Version,
>)
    ensures
        match r {
            Some(v) => bump_fits(base_version@, commits_view(commits@)) && v@ == next_version(
                base_version@,
                commits_view(commits@),
            ),
            None => !bump_fits(base_version@, commits_view(commits@)),
        },
{
    let major = base_version.major > 0 && any_breaking_commit(commits);
    let feat = any_commit_of_type(commits, &String::from_str("feat"));
    let fix = any_commit_of_type(commits, &String::from_str("fix"));
    if (major && base_version.major == u64::MAX) || (!major && feat && base_version.minor
        == u64::MAX) || (!major && !feat && fix && base_version.patch == u64::MAX) {
        None
    } else {
        Some(get_next_version(base_version, commits))
    }
}

/// With no commit, the version stays as it is.
pub proof fn lemma_no_commits_keep_version(base: VersionModel)
    ensures
        next_version(base, seq![]) == base,
{
}

/// On a `0.x` line a breaking change does not bump the major number: without
/// a feature or a fix among the commits, the version stays as it is.
pub proof fn lemma_unstable_line_ignores_breaking(base: VersionModel, commits: Seq<CommitModel>)
    requires
        base.major == 0,
        !any_of_type(commits, "feat"@),
        !any_of_type(commits, "fix"@),
    ensures
        next_version(base, commits) == base,
{
}

} // verus!
