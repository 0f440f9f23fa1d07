//! Sorts commit records into the changelog's categories.

use vstd::prelude::*;
use crate::commit::{CommitModel, ConventionalCommit};
use crate::collect::commits_view;

verus! {

/// The changelog's categories, in the order they are shown.
#[derive(PartialEq, Eq, Structural, Clone, Copy, Debug)]
pub enum CategoryKind {
    BreakingChanges,
    Features,
    BugFixes,
}

pub open spec fn rank(kind: CategoryKind) -> int {
    match kind {
        CategoryKind::BreakingChanges => 0,
        CategoryKind::Features => 1,
        CategoryKind::BugFixes => 2,
    }
}

pub open spec fn kind_name(kind: CategoryKind) -> Seq<char> {
    match kind {
        CategoryKind::BreakingChanges => "BREAKING CHANGES"@,
        CategoryKind::Features => "Features"@,
        CategoryKind::BugFixes => "Bug Fixes"@,
    }
}

impl CategoryKind {
    /// The heading of the category.
    pub fn name(&self) -> (r: String)
        ensures
            r@ == kind_name(*self),
    {
        match self {
            CategoryKind::BreakingChanges => String::from_str("BREAKING CHANGES"),
            CategoryKind::Features => String::from_str("Features"),
            CategoryKind::BugFixes => String::from_str("Bug Fixes"),
        }
    }
}

/// The category a commit belongs to: breaking changes first, whatever the
/// type; then features; then fixes. Other commits belong to none.
pub open spec fn category_of(c: CommitModel) -> Option<CategoryKind> {
    if c.breaking {
        Some(CategoryKind::BreakingChanges)
    } else if c.type_ == "feat"@ {
        Some(CategoryKind::Features)
    } else if c.type_ == "fix"@ {
        Some(CategoryKind::BugFixes)
    } else {
        None
    }
}

/// The positions of the commits of category `kind`, in commit order.
pub open spec fn members(commits: Seq<CommitModel>, kind: CategoryKind) -> Seq<int>
    decreases commits.len(),
{
    if commits.len() == 0 {
        seq![]
    } else {
        let before = members(commits.drop_last(), kind);
        if category_of(commits.last()) == Some(kind) {
            before.push(commits.len() - 1)
        } else {
            before
        }
    }
}

/// A category and the positions of its commits in the commit list.
pub struct CategoryModel {
    pub kind: CategoryKind,
    pub commits: Seq<int>,
}

pub open spec fn shown_if_nonempty(kind: CategoryKind, commits: Seq<int>) -> Seq<
    CategoryModel,
> {
    if commits.len() > 0 {
        seq![CategoryModel { kind, commits }]
    } else {
        seq![]
    }
}

/// The categories of a commit list, in their fixed order, empty ones left out.
pub open spec fn categorized(commits: Seq<CommitModel>) -> Seq<CategoryModel> {
    shown_if_nonempty(
        CategoryKind::BreakingChanges,
        members(commits, CategoryKind::BreakingChanges),
    ) + shown_if_nonempty(CategoryKind::Features, members(commits, CategoryKind::Features))
        + shown_if_nonempty(CategoryKind::BugFixes, members(commits, CategoryKind::BugFixes))
}

/// A category of the changelog: its kind, and the positions of its commits in
/// the commit list it was made from.
#[derive(Debug)]
pub struct Category {
    pub kind: CategoryKind,
    pub commits: Vec<usize>,
}

impl View for Category {
    type V = CategoryModel;

    open spec fn view(&self) -> CategoryModel {
        CategoryModel { kind: self.kind, commits: positions_view(self.commits@) }
    }
}

pub open spec fn positions_view(v: Seq<usize>) -> Seq<int> {
    v.map_values(|i: usize| i as int)
}

pub open spec fn categories_view(v: Seq<Category>) -> Seq<CategoryModel> {
    v.map_values(|c: Category| c@)
}

/// Whether every position that the categories name is a commit of the list.
pub open spec fn categories_fit(commits: Seq<CommitModel>, categories: Seq<CategoryModel>) -> bool {
    forall|a: int, p: int|
        0 <= a < categories.len() && 0 <= p < categories[a].commits.len() ==> 0
            <= #[trigger] categories[a].commits[p] < commits.len()
}

/// The category of one commit.
pub fn category_of_commit(commit: &ConventionalCommit) -> (r: Option<CategoryKind>)
    ensures
        r == category_of(commit@),
{
    if commit.breaking {
        Some(CategoryKind::BreakingChanges)
    } else if commit.type_ == String::from_str("feat") {
        Some(CategoryKind::Features)
    } else if commit.type_ == String::from_str("fix") {
        Some(CategoryKind::BugFixes)
    } else {
        None
    }
}

fn members_of(commits: &Vec<ConventionalCommit>, kind: CategoryKind) -> (r: Vec<usize>)
    ensures
        positions_view(r@) == members(commits_view(commits@), kind),
{
    let ghost cs = commits_view(commits@);
    let mut r: Vec<usize> = Vec::new();
    let mut i: usize = 0;
    while i < commits.len()
        invariant
            i <= commits.len(),
            cs == commits_view(commits@),
            positions_view(r@) == members(cs.subrange(0, i as int), kind),
        decreases commits.len() - i,
    {
        assert(cs.subrange(0, i + 1).drop_last() =~= cs.subrange(0, i as int));
        if category_of_commit(&commits[i]) == Some(kind) {
            let ghost before = r@;
            r.push(i);
            assert(positions_view(r@) =~= positions_view(before).push(i as int));
        }
        i = i + 1;
    }
    assert(cs.subrange(0, i as int) =~= cs);
    r
}

/// Sorts the commits into categories: breaking changes, features and bug
/// fixes, in this order, each with its commits in commit order; a category
/// with no commit is left out.
pub fn categorize_commits(commits: &Vec<ConventionalCommit>) -> (r: Vec<Category>)
    ensures
        categories_view(r@) == categorized(commits_view(commits@)),
        categories_fit(commits_view(commits@), categories_view(r@)),
{
    let mut r: Vec<Category> = Vec::new();
    let breaking = members_of(commits, CategoryKind::BreakingChanges);
    if breaking.len() > 0 {
        r.push(Category { kind: CategoryKind::BreakingChanges, commits: breaking });
    }
    let ghost r1 = r@;
    let features = members_of(commits, CategoryKind::Features);
    if features.len() > 0 {
        r.push(Category { kind: CategoryKind::Features, commits: features });
    }
    let ghost r2 = r@;
    let fixes = members_of(commits, CategoryKind::BugFixes);
    if fixes.len() > 0 {
        r.push(Category { kind: CategoryKind::BugFixes, commits: fixes });
    }
    let ghost cs = commits_view(commits@);
    assert(categories_view(r1) =~= shown_if_nonempty(
        CategoryKind::BreakingChanges,
        members(cs, CategoryKind::BreakingChanges),
    ));
    assert(categories_view(r2) =~= categories_view(r1) + shown_if_nonempty(
        CategoryKind::Features,
        members(cs, CategoryKind::Features),
    ));
    assert(categories_view(r@) =~= categories_view(r2) + shown_if_nonempty(
        CategoryKind::BugFixes,
        members(cs, CategoryKind::BugFixes),
    ));
    proof {
        lemma_categories_partition(cs);
    }
    r
}

proof fn lemma_members(commits: Seq<CommitModel>, kind: CategoryKind)
    ensures
        forall|p: int|
            0 <= p < members(commits, kind).len() ==> {
                let j = #[trigger] members(commits, kind)[p];
                &&& 0 <= j < commits.len()
                &&& category_of(commits[j]) == Some(kind)
            },
        forall|p: int, q: int|
            0 <= p < q < members(commits, kind).len() ==> members(commits, kind)[p] < members(
                commits,
                kind,
            )[q],
    decreases commits.len(),
{
    if commits.len() > 0 {
        let d = commits.drop_last();
        lemma_members(d, kind);
        let b = members(d, kind);
        let m = members(commits, kind);
        assert forall|p: int| 0 <= p < m.len() implies m[p] < commits.len() && category_of(
            commits[m[p]],
        ) == Some(kind) by {
            if p < b.len() {
                assert(m[p] == b[p]);
                assert(commits[b[p]] == d[b[p]]);
            }
        }
        assert forall|p: int, q: int| 0 <= p < q < m.len() implies m[p] < m[q] by {
            if q >= b.len() {
                assert(m[p] == b[p]);
            }
        }
    }
}

/// No commit stands in two categories; the categories come in the order
/// breaking changes, features, bug fixes, none of them empty; within a
/// category every commit stands once, in commit order, and belongs there.
pub proof fn lemma_categories_partition(commits: Seq<CommitModel>)
    ensures
        forall|a: int, b: int|
            0 <= a < b < categorized(commits).len() ==> rank(categorized(commits)[a].kind) < rank(
                categorized(commits)[b].kind,
            ),
        forall|a: int, b: int, p: int, q: int|
            0 <= a < categorized(commits).len() && 0 <= b < categorized(commits).len() && a != b
                && 0 <= p < categorized(commits)[a].commits.len() && 0 <= q < categorized(
                commits,
            )[b].commits.len() ==> categorized(commits)[a].commits[p] != categorized(
                commits,
            )[b].commits[q],
        forall|a: int|
            0 <= a < categorized(commits).len() ==> {
                let c = #[trigger] categorized(commits)[a];
                &&& c.commits.len() > 0
                &&& forall|p: int, q: int|
                    0 <= p < q < c.commits.len() ==> c.commits[p] < c.commits[q]
                &&& forall|p: int|
                    0 <= p < c.commits.len() ==> 0 <= c.commits[p] < commits.len() && category_of(
                        commits[c.commits[p]],
                    ) == Some(c.kind)
            },
{
    lemma_members(commits, CategoryKind::BreakingChanges);
    lemma_members(commits, CategoryKind::Features);
    lemma_members(commits, CategoryKind::BugFixes);
    let cats = categorized(commits);
    assert forall|a: int|
        0 <= a < cats.len() implies {
        let c = #[trigger] cats[a];
        &&& c.commits.len() > 0
        &&& forall|p: int, q: int| 0 <= p < q < c.commits.len() ==> c.commits[p] < c.commits[q]
        &&& forall|p: int|
            0 <= p < c.commits.len() ==> 0 <= c.commits[p] < commits.len() && category_of(
                commits[c.commits[p]],
            ) == Some(c.kind)
    } by {
        assert(cats[a].commits == members(commits, cats[a].kind));
    }
    assert forall|a: int, b: int, p: int, q: int|
        0 <= a < cats.len() && 0 <= b < cats.len() && a != b && 0 <= p < cats[a].commits.len()
            && 0 <= q < cats[b].commits.len() implies cats[a].commits[p] != cats[b].commits[q] by {
        assert(cats[a].commits == members(commits, cats[a].kind));
        assert(cats[b].commits == members(commits, cats[b].kind));
        assert(cats[a].kind != cats[b].kind);
    }
}

} // verus!
