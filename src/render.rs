//! Renders categorized commits as Markdown or as JSON.

use vstd::prelude::*;
use crate::categorize::{categories_fit, categories_view, kind_name, Category, CategoryModel};
use crate::collect::commits_view;
use crate::commit::{CommitModel, ConventionalCommit};
use crate::text::push_char;

verus! {

/// The formats a changelog can be rendered in.
#[derive(PartialEq, Eq, Structural, Clone, Copy, Debug)]
pub enum ReportFormat {
    Markdown,
    Json,
}

/// `- **type:** description`, as a line.
pub open spec fn markdown_line(c: CommitModel) -> Seq<char> {
    "- **"@ + c.type_ + ":** "@ + c.description + "\n"@
}

pub open spec fn markdown_lines(commits: Seq<CommitModel>, positions: Seq<int>) -> Seq<char>
    decreases positions.len(),
{
    if positions.len() == 0 {
        seq![]
    } else {
        markdown_lines(commits, positions.drop_last()) + markdown_line(
            commits[positions.last()],
        )
    }
}

/// A level-three heading, a blank line, and one line per commit.
pub open spec fn markdown_block(commits: Seq<CommitModel>, category: CategoryModel) -> Seq<char> {
    "### "@ + kind_name(category.kind) + "\n\n"@ + markdown_lines(commits, category.commits)
}

/// The blocks of the categories, one blank line between two blocks.
pub open spec fn markdown(commits: Seq<CommitModel>, categories: Seq<CategoryModel>) -> Seq<char>
    decreases categories.len(),
{
    if categories.len() == 0 {
        seq![]
    } else if categories.len() == 1 {
        markdown_block(commits, categories[0])
    } else {
        markdown(commits, categories.drop_last()) + "\n"@ + markdown_block(
            commits,
            categories.last(),
        )
    }
}

pub open spec fn hex_digit(d: nat) -> char {
    if d < 10 {
        ((48 + d) as u8) as char
    } else {
        ((87 + d) as u8) as char
    }
}

/// A character as it stands inside a JSON string.
pub open spec fn json_escaped_char(c: char) -> Seq<char> {
    if c == '"' {
        seq!['\\', '"']
    } else if c == '\\' {
        seq!['\\', '\\']
    } else if c == '\n' {
        seq!['\\', 'n']
    } else if c == '\r' {
        seq!['\\', 'r']
    } else if c == '\t' {
        seq!['\\', 't']
    } else if (c as u32) < 32 {
        seq!['\\', 'u', '0', '0', hex_digit((c as u32 / 16) as nat), hex_digit((c as u32 % 16) as nat)]
    } else {
        seq![c]
    }
}

pub open spec fn json_escaped(s: Seq<char>) -> Seq<char>
    decreases s.len(),
{
    if s.len() == 0 {
        seq![]
    } else {
        json_escaped(s.drop_last()) + json_escaped_char(s.last())
    }
}

/// `{"type": "…", "subject": "…"}`
pub open spec fn json_commit(c: CommitModel) -> Seq<char> {
    "{\"type\": \""@ + json_escaped(c.type_) + "\", \"subject\": \""@ + json_escaped(
        c.description,
    ) + "\"}"@
}

pub open spec fn json_commits(commits: Seq<CommitModel>, positions: Seq<int>) -> Seq<char>
    decreases positions.len(),
{
    if positions.len() == 0 {
        seq![]
    } else if positions.len() == 1 {
        json_commit(commits[positions[0]])
    } else {
        json_commits(commits, positions.drop_last()) + ","@ + json_commit(
            commits[positions.last()],
        )
    }
}

/// `{"name": "…","commits":[…]}`
pub open spec fn json_category(commits: Seq<CommitModel>, category: CategoryModel) -> Seq<char> {
    "{\"name\": \""@ + kind_name(category.kind) + "\",\"commits\":["@ + json_commits(
        commits,
        category.commits,
    ) + "]}"@
}

pub open spec fn json_categories(commits: Seq<CommitModel>, categories: Seq<CategoryModel>) -> Seq<
    char,
>
    decreases categories.len(),
{
    if categories.len() == 0 {
        seq![]
    } else if categories.len() == 1 {
        json_category(commits, categories[0])
    } else {
        json_categories(commits, categories.drop_last()) + ","@ + json_category(
            commits,
            categories.last(),
        )
    }
}

/// A JSON array with one object per category.
pub open spec fn json(commits: Seq<CommitModel>, categories: Seq<CategoryModel>) -> Seq<char> {
    "["@ + json_categories(commits, categories) + "]"@
}

pub open spec fn rendered(
    commits: Seq<CommitModel>,
    categories: Seq<CategoryModel>,
    format: ReportFormat,
) -> Seq<char> {
    match format {
        ReportFormat::Markdown => markdown(commits, categories),
        ReportFormat::Json => json(commits, categories),
    }
}

fn hex_digit_char(d: u32) -> (r: char)
    requires
        d < 16,
    ensures
        r == hex_digit(d as nat),
{
    if d < 10 {
        ((48 + d) as u8) as char
    } else {
        ((87 + d) as u8) as char
    }
}

fn push_escaped_char(s: &mut String, c: char)
    ensures
        final(s)@ == old(s)@ + json_escaped_char(c),
{
    let code = c as u32;
    if c == '"' {
        push_char(s, '\\');
        push_char(s, '"');
    } else if c == '\\' {
        push_char(s, '\\');
        push_char(s, '\\');
    } else if c == '\n' {
        push_char(s, '\\');
        push_char(s, 'n');
    } else if c == '\r' {
        push_char(s, '\\');
        push_char(s, 'r');
    } else if c == '\t' {
        push_char(s, '\\');
        push_char(s, 't');
    } else if code < 32 {
        push_char(s, '\\');
        push_char(s, 'u');
        push_char(s, '0');
        push_char(s, '0');
        push_char(s, hex_digit_char(code / 16));
        push_char(s, hex_digit_char(code % 16));
    } else {
        push_char(s, c);
    }
    assert(final(s)@ =~= old(s)@ + json_escaped_char(c));
}

/// Appends `text` as it stands inside a JSON string.
pub fn push_json_escaped(s: &mut String, text: &str)
    ensures
        final(s)@ == old(s)@ + json_escaped(text@),
{
    let ghost start = s@;
    let n = text.unicode_len();
    let mut i: usize = 0;
    assert(text@.subrange(0, 0) =~= seq![]);
    assert(s@ =~= start + json_escaped(text@.subrange(0, 0)));
    while i < n
        invariant
            n == text@.len(),
            i <= n,
            s@ == start + json_escaped(text@.subrange(0, i as int)),
        decreases n - i,
    {
        let c = text.get_char(i);
        push_escaped_char(s, c);
        assert(text@.subrange(0, i + 1).drop_last() =~= text@.subrange(0, i as int));
        assert(s@ =~= start + json_escaped(text@.subrange(0, i + 1)));
        i = i + 1;
    }
    assert(text@.subrange(0, n as int) =~= text@);
}

fn push_markdown_block(s: &mut String, commits: &Vec<ConventionalCommit>, category: &Category)
    requires
        forall|p: int|
            0 <= p < category@.commits.len() ==> 0 <= #[trigger] category@.commits[p]
                < commits@.len(),
    ensures
        final(s)@ == old(s)@ + markdown_block(commits_view(commits@), category@),
{
    let ghost cs = commits_view(commits@);
    let ghost ps = category@.commits;
    s.append("### ");
    s.append(category.kind.name().as_str());
    s.append("\n\n");
    let ghost head = s@;
    let mut i: usize = 0;
    assert(ps.subrange(0, 0) =~= seq![]);
    assert(s@ =~= head + markdown_lines(cs, ps.subrange(0, 0)));
    while i < category.commits.len()
        invariant
            i <= category.commits.len(),
            cs == commits_view(commits@),
            ps == category@.commits,
            forall|p: int| 0 <= p < ps.len() ==> 0 <= #[trigger] ps[p] < commits@.len(),
            s@ == head + markdown_lines(cs, ps.subrange(0, i as int)),
        decreases category.commits.len() - i,
    {
        let k = category.commits[i];
        assert(ps[i as int] == k as int);
        let c = &commits[k];
        s.append("- **");
        s.append(c.type_.as_str());
        s.append(":** ");
        s.append(c.description.as_str());
        s.append("\n");
        assert(ps.subrange(0, i + 1).drop_last() =~= ps.subrange(0, i as int));
        assert(s@ =~= head + markdown_lines(cs, ps.subrange(0, i + 1)));
        i = i + 1;
    }
    assert(ps.subrange(0, i as int) =~= ps);
    assert(s@ =~= old(s)@ + markdown_block(cs, category@));
}

/// The categories as Markdown: per category a `### ` heading, a blank line
/// and a `- **type:** description` line per commit; one blank line between
/// two categories.
pub fn format_markdown(commits: &Vec<ConventionalCommit>, categories: &Vec<Category>) -> (r: String)
    requires
        categories_fit(commits_view(commits@), categories_view(categories@)),
    ensures
        r@ == markdown(commits_view(commits@), categories_view(categories@)),
{
    let ghost cs = commits_view(commits@);
    let ghost cats = categories_view(categories@);
    let mut s = String::new();
    let mut i: usize = 0;
    assert(cats.subrange(0, 0) =~= seq![]);
    while i < categories.len()
        invariant
            i <= categories.len(),
            cs == commits_view(commits@),
            cats == categories_view(categories@),
            categories_fit(cs, cats),
            s@ == markdown(cs, cats.subrange(0, i as int)),
        decreases categories.len() - i,
    {
        if i > 0 {
            s.append("\n");
        }
        assert forall|p: int|
            0 <= p < categories@[i as int]@.commits.len() implies 0
                <= #[trigger] categories@[i as int]@.commits[p] < commits@.len() by {
            assert(cats[i as int] == categories@[i as int]@);
            assert(0 <= cats[i as int].commits[p] < cs.len());
        }
        push_markdown_block(&mut s, commits, &categories[i]);
        assert(cats.subrange(0, i + 1).drop_last() =~= cats.subrange(0, i as int));
        assert(cats.subrange(0, i + 1).last() == categories@[i as int]@);
        assert(s@ =~= markdown(cs, cats.subrange(0, i + 1)));
        i = i + 1;
    }
    assert(cats.subrange(0, i as int) =~= cats);
    s
}

fn push_json_commit(s: &mut String, c: &ConventionalCommit)
    ensures
        final(s)@ == old(s)@ + json_commit(c@),
{
    s.append("{\"type\": \"");
    push_json_escaped(s, c.type_.as_str());
    s.append("\", \"subject\": \"");
    push_json_escaped(s, c.description.as_str());
    s.append("\"}");
    assert(final(s)@ =~= old(s)@ + json_commit(c@));
}

fn push_json_category(s: &mut String, commits: &Vec<ConventionalCommit>, category: &Category)
    requires
        forall|p: int|
            0 <= p < category@.commits.len() ==> 0 <= #[trigger] category@.commits[p]
                < commits@.len(),
    ensures
        final(s)@ == old(s)@ + json_category(commits_view(commits@), category@),
{
    let ghost cs = commits_view(commits@);
    let ghost ps = category@.commits;
    s.append("{\"name\": \"");
    s.append(category.kind.name().as_str());
    s.append("\",\"commits\":[");
    let ghost head = s@;
    let mut i: usize = 0;
    assert(ps.subrange(0, 0) =~= seq![]);
    assert(s@ =~= head + json_commits(cs, ps.subrange(0, 0)));
    while i < category.commits.len()
        invariant
            i <= category.commits.len(),
            cs == commits_view(commits@),
            ps == category@.commits,
            forall|p: int| 0 <= p < ps.len() ==> 0 <= #[trigger] ps[p] < commits@.len(),
            s@ == head + json_commits(cs, ps.subrange(0, i as int)),
        decreases category.commits.len() - i,
    {
        let k = category.commits[i];
        assert(ps[i as int] == k as int);
        if i > 0 {
            s.append(",");
        }
        push_json_commit(s, &commits[k]);
        assert(ps.subrange(0, i + 1).drop_last() =~= ps.subrange(0, i as int));
        assert(s@ =~= head + json_commits(cs, ps.subrange(0, i + 1)));
        i = i + 1;
    }
    assert(ps.subrange(0, i as int) =~= ps);
    s.append("]}");
    assert(s@ =~= old(s)@ + json_category(cs, category@));
}

/// The categories as a JSON array of `{"name": …, "commits": […]}` objects,
/// each commit as `{"type": …, "subject": …}`, strings escaped.
pub fn format_json(commits: &Vec<ConventionalCommit>, categories: &Vec<Category>) -> (r: String)
    requires
        categories_fit(commits_view(commits@), categories_view(categories@)),
    ensures
        r@ == json(commits_view(commits@), categories_view(categories@)),
{
    let ghost cs = commits_view(commits@);
    let ghost cats = categories_view(categories@);
    let mut s = String::new();
    s.append("[");
    let ghost head = s@;
    let mut i: usize = 0;
    assert(cats.subrange(0, 0) =~= seq![]);
    assert(s@ =~= head + json_categories(cs, cats.subrange(0, 0)));
    while i < categories.len()
        invariant
            i <= categories.len(),
            cs == commits_view(commits@),
            cats == categories_view(categories@),
            categories_fit(cs, cats),
            s@ == head + json_categories(cs, cats.subrange(0, i as int)),
        decreases categories.len() - i,
    {
        if i > 0 {
            s.append(",");
        }
        assert forall|p: int|
            0 <= p < categories@[i as int]@.commits.len() implies 0
                <= #[trigger] categories@[i as int]@.commits[p] < commits@.len() by {
            assert(cats[i as int] == categories@[i as int]@);
            assert(0 <= cats[i as int].commits[p] < cs.len());
        }
        push_json_category(&mut s, commits, &categories[i]);
        assert(cats.subrange(0, i + 1).drop_last() =~= cats.subrange(0, i as int));
        assert(cats.subrange(0, i + 1).last() == categories@[i as int]@);
        assert(s@ =~= head + json_categories(cs, cats.subrange(0, i + 1)));
        i = i + 1;
    }
    assert(cats.subrange(0, i as int) =~= cats);
    s.append("]");
    assert(s@ =~= json(cs, cats));
    s
}

/// The categories rendered in `format`.
pub fn render(
    commits: &Vec<ConventionalCommit>,
    categories: &Vec<Category>,
    format: ReportFormat,
) -> (r: String)
    requires
        categories_fit(commits_view(commits@), categories_view(categories@)),
    ensures
        r@ == rendered(commits_view(commits@), categories_view(categories@), format),
{
    match format {
        ReportFormat::Markdown => format_markdown(commits, categories),
        ReportFormat::Json => format_json(commits, categories),
    }
}

} // verus!
