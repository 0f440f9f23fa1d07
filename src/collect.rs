//! Turns the commits of a walked range into Conventional Commit records,
//! oldest first, under the strict or the lenient policy.

use vstd::prelude::*;
use crate::commit::{
    commit_model, conventional_diagnostic, conventional_parse, opt_view, parse_commit, CommitModel, ConventionalCommit,
};
use crate::categorize::categorized;
use crate::text::trim_end_newlines;
use crate::version::{next_version, VersionModel};

verus! {

/// A commit of the range as the history walk yields it: its id, and its
/// message where that is valid text.
#[derive(Debug)]
pub struct WalkedCommit {
    pub sha: String,
    pub message: Option<String>,
}

pub struct WalkedModel {
    pub sha: Seq<char>,
    pub message: Option<Seq<char>>,
}

impl View for WalkedCommit {
    type V = WalkedModel;

    open spec fn view(&self) -> WalkedModel {
        WalkedModel { sha: self.sha@, message: opt_view(self.message) }
    }
}

/// Why a range could not be turned into records.
#[derive(Debug)]
pub enum CollectError {
    /// The message of commit `sha` is not valid text.
    InvalidCommitEncoding { sha: String },
    /// Under the strict policy: the message of commit `sha` is not a
    /// Conventional Commit, for the reason given.
    Unconventional { sha: String, reason: String },
}

/// A failure as plain values: the kind, the commit it names, and for a
/// message that is not a Conventional Commit the parser's diagnostic.
pub enum CollectFailure {
    InvalidCommitEncoding(Seq<char>),
    Unconventional(Seq<char>, Seq<char>),
}

impl View for CollectError {
    type V = CollectFailure;

    open spec fn view(&self) -> CollectFailure {
        match self {
            CollectError::InvalidCommitEncoding { sha } => CollectFailure::InvalidCommitEncoding(
                sha@,
            ),
            CollectError::Unconventional { sha, reason } => CollectFailure::Unconventional(
                sha@,
                reason@,
            ),
        }
    }
}

impl CollectError {
    /// A sentence that says what went wrong.
    pub fn describe(&self) -> (r: String)
        ensures
            r@ == match self {
                CollectError::InvalidCommitEncoding { sha } => "commit message for "@ + sha@
                    + " is not a valid UTF-8 string"@,
                CollectError::Unconventional { sha, reason } => "found unconventional commit '"@
                    + sha@ + "': "@ + reason@,
            },
    {
        match self {
            CollectError::InvalidCommitEncoding { sha } => {
                let mut r = String::from_str("commit message for ");
                r.append(sha.as_str());
                r.append(" is not a valid UTF-8 string");
                r
            },
            CollectError::Unconventional { sha, reason } => {
                let mut r = String::from_str("found unconventional commit '");
                r.append(sha.as_str());
                r.append("': ");
                r.append(reason.as_str());
                r
            },
        }
    }
}

pub open spec fn walked_view(v: Seq<WalkedCommit>) -> Seq<WalkedModel> {
    v.map_values(|w: WalkedCommit| w@)
}

pub open spec fn commits_view(v: Seq<ConventionalCommit>) -> Seq<CommitModel> {
    v.map_values(|c: ConventionalCommit| c@)
}

/// The walk yields the newest commit first; records are presented oldest
/// first.
pub open spec fn oldest_first<T>(walk: Seq<T>) -> Seq<T> {
    Seq::new(walk.len(), |i: int| walk[walk.len() - 1 - i])
}

/// The records of `commits`, taken in this order. A message that is not text
/// fails the whole range. One that is not a Conventional Commit fails it under
/// `strict`, with the parser's diagnostic, and is left out otherwise.
pub open spec fn collected(commits: Seq<WalkedModel>, strict: bool) -> Result<
    Seq<CommitModel>,
    CollectFailure,
>
    decreases commits.len(),
{
    if commits.len() == 0 {
        Ok(seq![])
    } else {
        match collected(commits.drop_last(), strict) {
            Err(e) => Err(e),
            Ok(done) => {
                let w = commits.last();
                match w.message {
                    None => Err(CollectFailure::InvalidCommitEncoding(w.sha)),
                    Some(m) => match conventional_parse(trim_end_newlines(m)) {
                        Some(p) => Ok(done.push(commit_model(w.sha, trim_end_newlines(m), p))),
                        None => if strict {
                            Err(CollectFailure::Unconventional(w.sha, conventional_diagnostic(trim_end_newlines(m))))
                        } else {
                            Ok(done)
                        },
                    },
                }
            },
        }
    }
}

/// Once a prefix of the range fails, the whole range fails in the same way.
proof fn lemma_failure_persists(commits: Seq<WalkedModel>, n: int, strict: bool)
    requires
        0 <= n <= commits.len(),
        collected(commits.subrange(0, n), strict) is Err,
    ensures
        collected(commits, strict) == collected(commits.subrange(0, n), strict),
    decreases commits.len() - n,
{
    if n < commits.len() {
        assert(commits.subrange(0, n + 1).drop_last() =~= commits.subrange(0, n));
        lemma_failure_persists(commits, n + 1, strict);
    } else {
        assert(commits.subrange(0, n) =~= commits);
    }
}

/// The Conventional Commits of a walked range, oldest first.
pub fn get_conventional_commits(walked: &Vec<WalkedCommit>, strict: bool) -> (r: Result<
    Vec<ConventionalCommit>,
    CollectError,
>)
    ensures
        match collected(oldest_first(walked_view(walked@)), strict) {
            Ok(cs) => r matches Ok(v) && commits_view(v@) == cs,
            Err(e) => r matches Err(f) && f@ == e,
        },
{
    let ghost order = oldest_first(walked_view(walked@));
    let n = walked.len();
    let mut out: Vec<ConventionalCommit> = Vec::new();
    let mut i: usize = n;
    assert(order.subrange(0, 0) =~= seq![]);
    assert(commits_view(out@) =~= seq![]);
    while i > 0
        invariant
            n == walked.len(),
            i <= n,
            order == oldest_first(walked_view(walked@)),
            collected(order.subrange(0, n - i), strict) == Ok::<
                Seq<CommitModel>,
                CollectFailure,
            >(commits_view(out@)),
        decreases i,
    {
        let w = &walked[i - 1];
        let ghost prefix = order.subrange(0, n - i + 1);
        assert(prefix.drop_last() =~= order.subrange(0, n - i));
        assert(prefix.last() == w@);
        match &w.message {
            None => {
                proof {
                    lemma_failure_persists(order, n - i + 1, strict);
                }
                return Err(CollectError::InvalidCommitEncoding { sha: w.sha.clone() });
            },
            Some(m) => {
                match parse_commit(w.sha.as_str(), m.as_str()) {
                    Ok(c) => {
                        let ghost before = out@;
                        out.push(c);
                        assert(commits_view(out@) =~= commits_view(before).push(c@));
                    },
                    Err(reason) => {
                        if strict {
                            proof {
                                lemma_failure_persists(order, n - i + 1, strict);
                            }
                            return Err(CollectError::Unconventional { sha: w.sha.clone(), reason });
                        }
                    },
                }
            },
        }
        i = i - 1;
    }
    assert(order.subrange(0, n as int) =~= order);
    Ok(out)
}

/// Whether every message of the range is valid text.
pub open spec fn all_text(commits: Seq<WalkedModel>) -> bool {
    forall|i: int| 0 <= i < commits.len() ==> (#[trigger] commits[i]).message is Some
}

/// Whether the message of commit `j` is not a Conventional Commit.
pub open spec fn unconventional_at(commits: Seq<WalkedModel>, j: int) -> bool {
    &&& 0 <= j < commits.len()
    &&& commits[j].message matches Some(m) && conventional_parse(trim_end_newlines(m)) is None
}

proof fn lemma_lenient_succeeds(commits: Seq<WalkedModel>)
    requires
        all_text(commits),
    ensures
        collected(commits, false) is Ok,
    decreases commits.len(),
{
    if commits.len() > 0 {
        let d = commits.drop_last();
        assert forall|i: int| 0 <= i < d.len() implies (#[trigger] d[i]).message is Some by {
            assert(d[i] == commits[i]);
        }
        lemma_lenient_succeeds(d);
        assert(commits.last() == commits[commits.len() - 1]);
    }
}

proof fn lemma_lenient_skips(commits: Seq<WalkedModel>, j: int)
    requires
        unconventional_at(commits, j),
    ensures
        collected(commits, false) == collected(commits.remove(j), false),
    decreases commits.len(),
{
    let d = commits.drop_last();
    if j == commits.len() - 1 {
        assert(commits.remove(j) =~= d);
    } else {
        assert(d[j] == commits[j]);
        lemma_lenient_skips(d, j);
        assert(commits.remove(j).drop_last() =~= d.remove(j));
        assert(commits.remove(j).last() == commits.last());
    }
}

proof fn lemma_strict_stops(commits: Seq<WalkedModel>, j: int)
    requires
        unconventional_at(commits, j),
    ensures
        collected(commits, true) is Err,
{
    let pre = commits.subrange(0, j + 1);
    assert(pre.drop_last() =~= commits.subrange(0, j));
    assert(pre.last() == commits[j]);
    lemma_failure_persists(commits, j + 1, true);
}

/// Whether the message of commit `i` is text that git-conventional accepts.
pub open spec fn parsed_at(commits: Seq<WalkedModel>, i: int) -> bool {
    &&& 0 <= i < commits.len()
    &&& commits[i].message matches Some(m) && conventional_parse(trim_end_newlines(m)) is Some
}

/// Whether no two commits of the range share an id.
pub open spec fn distinct_shas(commits: Seq<WalkedModel>) -> bool {
    forall|a: int, b: int|
        0 <= a < commits.len() && 0 <= b < commits.len() && a != b ==> commits[a].sha
            != commits[b].sha
}

/// Whether `c` carries the id of a commit of the range whose message was
/// accepted.
pub open spec fn from_accepted(commits: Seq<WalkedModel>, c: CommitModel) -> bool {
    exists|i: int| #[trigger] parsed_at(commits, i) && commits[i].sha == c.sha
}

/// Every record stems from a commit of the range whose message was accepted.
pub proof fn lemma_records_from_accepted(commits: Seq<WalkedModel>, strict: bool)
    ensures
        collected(commits, strict) matches Ok(cs) ==> forall|k: int|
            0 <= k < cs.len() ==> from_accepted(commits, #[trigger] cs[k]),
    decreases commits.len(),
{
    if commits.len() > 0 {
        let d = commits.drop_last();
        lemma_records_from_accepted(d, strict);
        if let Ok(cs) = collected(commits, strict) {
            let done = collected(d, strict)->Ok_0;
            assert forall|k: int| 0 <= k < cs.len() implies from_accepted(
                commits,
                #[trigger] cs[k],
            ) by {
                if k < done.len() {
                    assert(cs[k] == done[k]);
                    assert(from_accepted(d, done[k]));
                    let i = choose|i: int| #[trigger] parsed_at(d, i) && d[i].sha == done[k].sha;
                    assert(commits[i] == d[i]);
                    assert(parsed_at(commits, i));
                } else {
                    let i = commits.len() - 1;
                    assert(commits[i] == commits.last());
                    assert(parsed_at(commits, i));
                }
            }
        }
    }
}

/// Under the strict policy one message that is not a Conventional Commit
/// fails the whole range. Under the lenient policy the same range, all of
/// whose messages are text, succeeds, with exactly the records it would have
/// without that commit.
pub proof fn lemma_strict_and_lenient(commits: Seq<WalkedModel>, j: int)
    requires
        all_text(commits),
        unconventional_at(commits, j),
    ensures
        collected(commits, true) is Err,
        collected(commits, false) is Ok,
        collected(commits, false) == collected(commits.remove(j), false),
{
    lemma_strict_stops(commits, j);
    lemma_lenient_succeeds(commits);
    lemma_lenient_skips(commits, j);
}

/// Under the lenient policy a commit whose message is not a Conventional
/// Commit has no record, where ids are distinct, and it changes neither the
/// next version nor the categories: both are those of the range without it.
pub proof fn lemma_lenient_ignores_unconventional(commits: Seq<WalkedModel>, j: int)
    requires
        all_text(commits),
        unconventional_at(commits, j),
        distinct_shas(commits),
    ensures
        collected(commits, false) matches Ok(cs) && collected(commits.remove(j), false) matches Ok(
            rest,
        ) && {
            &&& forall|k: int| 0 <= k < cs.len() ==> (#[trigger] cs[k]).sha != commits[j].sha
            &&& forall|base: VersionModel| #[trigger] next_version(base, cs) == next_version(base, rest)
            &&& categorized(cs) == categorized(rest)
        },
{
    lemma_strict_and_lenient(commits, j);
    lemma_records_from_accepted(commits, false);
    let cs = collected(commits, false)->Ok_0;
    assert forall|k: int| 0 <= k < cs.len() implies (#[trigger] cs[k]).sha != commits[j].sha by {
        assert(from_accepted(commits, cs[k]));
        let i = choose|i: int| #[trigger] parsed_at(commits, i) && commits[i].sha == cs[k].sha;
        assert(i != j);
    }
}

} // verus!
