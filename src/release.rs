//! The whole analysis of a commit range: collect, categorize, pick the next
//! version, render.

use vstd::prelude::*;
use crate::categorize::{categorize_commits, categorized};
use crate::collect::{
    collected, commits_view, get_conventional_commits, oldest_first, walked_view, CollectError,
    WalkedCommit,
};
use crate::commit::{CommitModel, ConventionalCommit};
use crate::render::{render, rendered, ReportFormat};
use crate::version::{
    bump_fits, checked_next_version, next_version, Version, VersionModel,
};

verus! {

/// The changelog of `commits`: their categories rendered in `format`.
pub fn changelog(commits: &Vec<ConventionalCommit>, format: ReportFormat) -> (r: String)
    ensures
        r@ == rendered(commits_view(commits@), categorized(commits_view(commits@)), format),
{
    let categories = categorize_commits(commits);
    render(commits, &categories, format)
}

/// What the analysis of a range yields.
#[derive(Debug)]
pub struct ReleaseNotes {
    pub version: Version,
    pub commits: Vec<ConventionalCommit>,
    pub changelog: String,
}

pub struct ReleaseModel {
    pub version: VersionModel,
    pub commits: Seq<CommitModel>,
    pub changelog: Seq<char>,
}

impl View for ReleaseNotes {
    type V = ReleaseModel;

    open spec fn view(&self) -> ReleaseModel {
        ReleaseModel {
            version: self.version@,
            commits: commits_view(self.commits@),
            changelog: self.changelog@,
        }
    }
}

/// Why the analysis of a range failed.
#[derive(Debug)]
pub enum SclError {
    /// The commits could not be collected.
    Collect(CollectError),
    /// The number that the commits bump is already the largest there is.
    VersionOutOfRange,
}

/// The analysis of a range whose commits, oldest first, are `commits`.
pub open spec fn release_of(base: VersionModel, commits: Seq<CommitModel>, format: ReportFormat) -> ReleaseModel {
    ReleaseModel {
        version: next_version(base, commits),
        commits,
        changelog: rendered(commits, categorized(commits), format),
    }
}

/// The release command.
#[derive(Debug)]
pub struct SclCommand;

/// The release command.
pub fn new() -> (r: SclCommand)
    ensures
        r == SclCommand,
{
    SclCommand
}

impl SclCommand {
    /// Analyses a walked range (newest commit first): its Conventional
    /// Commits oldest first, the version that follows `base_version`, and
    /// the changelog in `format`.
    pub fn execute(
        &self,
        walked: &Vec<WalkedCommit>,
        strict: bool,
        base_version: &Version,
        format: ReportFormat,
    ) -> (r: Result<ReleaseNotes, SclError>)
        ensures
            match collected(oldest_first(walked_view(walked@)), strict) {
                Err(e) => r matches Err(SclError::Collect(f)) && f@ == e,
                Ok(cs) => if bump_fits(base_version@, cs) {
                    r matches Ok(n) && n@ == release_of(base_version@, cs, format)
                } else {
                    r matches Err(SclError::VersionOutOfRange)
                },
            },
    {
        let commits = match get_conventional_commits(walked, strict) {
            Ok(cs) => cs,
            Err(e) => {
                return Err(SclError::Collect(e));
            },
        };
        let version = match checked_next_version(base_version, &commits) {
            Some(v) => v,
            None => {
                return Err(SclError::VersionOutOfRange);
            },
        };
        let changelog = changelog(&commits, format);
        Ok(ReleaseNotes { version, commits, changelog })
    }
}

} // verus!
