//! Conventional Commit records: what git-conventional finds in a message,
//! and the record this library derives from it.

use vstd::prelude::*;
use crate::text::{trim_end_newlines, trim_trailing_newlines};

verus! {

/// A footer as plain text: its token, the separator after the token, its
/// value, and whether it announces a breaking change.
pub struct FooterModel {
    pub token: Seq<char>,
    pub separator: Seq<char>,
    pub value: Seq<char>,
    pub breaking: bool,
}

/// The parts of a Conventional Commit message.
pub struct ParsedModel {
    pub type_: Seq<char>,
    pub scope: Option<Seq<char>>,
    pub description: Seq<char>,
    pub body: Option<Seq<char>>,
    pub footers: Seq<FooterModel>,
}

/// A commit record as plain values.
pub struct CommitModel {
    pub breaking: bool,
    pub breaking_changes: Seq<Seq<char>>,
    pub type_: Seq<char>,
    pub scope: Option<Seq<char>>,
    pub description: Seq<char>,
    pub body: Option<Seq<char>>,
    pub footers: Seq<FooterModel>,
    pub sha: Seq<char>,
}

pub open spec fn opt_view(o: Option<String>) -> Option<Seq<char>> {
    match o {
        Some(s) => Some(s@),
        None => None,
    }
}

pub open spec fn strings_view(v: Seq<String>) -> Seq<Seq<char>> {
    v.map_values(|s: String| s@)
}

/// A footer as git-conventional reports it.
#[derive(Debug)]
pub struct ParsedFooter {
    pub token: String,
    pub separator: String,
    pub value: String,
    pub breaking: bool,
}

impl View for ParsedFooter {
    type V = FooterModel;

    open spec fn view(&self) -> FooterModel {
        FooterModel {
            token: self.token@,
            separator: self.separator@,
            value: self.value@,
            breaking: self.breaking,
        }
    }
}

pub open spec fn parsed_footers_view(v: Seq<ParsedFooter>) -> Seq<FooterModel> {
    v.map_values(|f: ParsedFooter| f@)
}

/// A message as git-conventional decomposes it.
#[derive(Debug)]
pub struct ParsedMessage {
    pub type_: String,
    pub scope: Option<String>,
    pub description: String,
    pub body: Option<String>,
    pub footers: Vec<ParsedFooter>,
}

impl View for ParsedMessage {
    type V = ParsedModel;

    open spec fn view(&self) -> ParsedModel {
        ParsedModel {
            type_: self.type_@,
            scope: opt_view(self.scope),
            description: self.description@,
            body: opt_view(self.body),
            footers: parsed_footers_view(self.footers@),
        }
    }
}

/// What `git_conventional::Commit::parse` makes of a message; `None` where it
/// refuses the message.
pub uninterp spec fn conventional_parse(message: Seq<char>) -> Option<ParsedModel>;

/// The text of the error that `git_conventional::Commit::parse` returns for a
/// message it refuses, as its `Display` writes it.
pub uninterp spec fn conventional_diagnostic(message: Seq<char>) -> Seq<char>;

/// What `git_conventional::FooterToken::breaking` answers for a token.
pub uninterp spec fn breaking_token(token: Seq<char>) -> bool;

/// What holds of each footer that git-conventional reports.
pub open spec fn reported_footer(f: FooterModel) -> bool {
    &&& (f.token == "BREAKING CHANGE"@ || f.token == "BREAKING-CHANGE"@) ==> f.breaking
    &&& (f.separator == ":"@ || f.separator == " #"@)
}

/// The header of `message` begins with `type` or `type(scope)`.
pub open spec fn header_begins(message: Seq<char>, type_: Seq<char>, scope: Option<Seq<char>>) -> bool {
    match scope {
        Some(s) => (type_ + seq!['('] + s + seq![')']).is_prefix_of(message),
        None => type_.is_prefix_of(message),
    }
}

/// Relies on `git_conventional::Commit::parse` to decompose a message, on
/// `Footer::breaking` to flag each footer, and on the `Display` of its error
/// for the diagnostic. The grammar asks for a type and a description of at
/// least one character each, and a header that begins with the type and the
/// parenthesized scope.
#[verifier::external_body]
fn parse_conventional(message: &str) -> (r: Result<ParsedMessage, String>)
    ensures
        match r {
            Ok(p) => conventional_parse(message@) == Some(p@),
            Err(e) => conventional_parse(message@) is None && e@ == conventional_diagnostic(
                message@,
            ),
        },
        r matches Ok(p) ==> p@.type_.len() > 0 && p@.description.len() > 0,
        r matches Ok(p) ==> header_begins(message@, p@.type_, p@.scope),
        r matches Ok(p) ==> forall|i: int|
            0 <= i < p@.footers.len() ==> #[trigger] reported_footer(p@.footers[i])
                && p@.footers[i].breaking == breaking_token(p@.footers[i].token),
{
    let c = git_conventional::Commit::parse(message).map_err(|e| e.to_string())?;
    let footers = c.footers().iter().map(|f| ParsedFooter {
        token: f.token().as_str().into(),
        separator: f.separator().as_str().into(),
        value: f.value().into(),
        breaking: f.breaking(),
    });
    Ok(ParsedMessage {
        type_: c.type_().as_str().into(),
        scope: c.scope().map(|s| s.as_str().into()),
        description: c.description().into(),
        body: c.body().map(String::from),
        footers: footers.collect(),
    })
}

/// Where the `!` marker stands in a header with this type and scope:
/// `type!:` or `type(scope)!:`.
pub open spec fn marker_position(type_: Seq<char>, scope: Option<Seq<char>>) -> int {
    match scope {
        Some(s) => (type_.len() + s.len() + 2) as int,
        None => type_.len() as int,
    }
}

/// Whether the header of `message`, whose type and scope are these, marks the
/// commit as breaking with `!`.
pub open spec fn header_marked(
    message: Seq<char>,
    type_: Seq<char>,
    scope: Option<Seq<char>>,
) -> bool {
    let k = marker_position(type_, scope);
    k < message.len() && message[k] == '!'
}

/// A value separator is shown with the space that follows it.
pub open spec fn shown_separator(separator: Seq<char>) -> Seq<char> {
    if separator == ":"@ {
        ": "@
    } else {
        separator
    }
}

pub open spec fn shown_footer(f: FooterModel) -> FooterModel {
    FooterModel {
        token: f.token,
        separator: shown_separator(f.separator),
        value: f.value,
        breaking: f.breaking,
    }
}

pub open spec fn shown_footers(footers: Seq<FooterModel>) -> Seq<FooterModel> {
    footers.map_values(|f: FooterModel| shown_footer(f))
}

pub open spec fn any_breaking_footer(footers: Seq<FooterModel>) -> bool {
    exists|i: int| 0 <= i < footers.len() && #[trigger] footers[i].breaking
}

/// The value of the first breaking footer, if there is one.
pub open spec fn first_breaking_value(footers: Seq<FooterModel>) -> Option<Seq<char>>
    decreases footers.len(),
{
    if footers.len() == 0 {
        None
    } else {
        match first_breaking_value(footers.drop_last()) {
            Some(v) => Some(v),
            None => if footers.last().breaking {
                Some(footers.last().value)
            } else {
                None
            },
        }
    }
}

/// The values of the breaking footers that differ from `lead`, in footer order.
pub open spec fn other_breaking_values(footers: Seq<FooterModel>, lead: Seq<char>) -> Seq<
    Seq<char>,
>
    decreases footers.len(),
{
    if footers.len() == 0 {
        seq![]
    } else {
        let before = other_breaking_values(footers.drop_last(), lead);
        if footers.last().breaking && footers.last().value != lead {
            before.push(footers.last().value)
        } else {
            before
        }
    }
}

/// The breaking-change descriptions of a commit. A header marked with `!`
/// leads with its own description; otherwise the first breaking footer leads.
/// The breaking footers that say something else follow, in order.
pub open spec fn breaking_changes_of(
    marked: bool,
    description: Seq<char>,
    footers: Seq<FooterModel>,
) -> Seq<Seq<char>> {
    let lead = if marked {
        Some(description)
    } else {
        first_breaking_value(footers)
    };
    match lead {
        Some(d) => seq![d] + other_breaking_values(footers, d),
        None => seq![],
    }
}

/// The record of commit `sha`, whose message `message` decomposes into `p`.
pub open spec fn commit_model(sha: Seq<char>, message: Seq<char>, p: ParsedModel) -> CommitModel {
    let marked = header_marked(message, p.type_, p.scope);
    CommitModel {
        breaking: marked || any_breaking_footer(p.footers),
        breaking_changes: breaking_changes_of(marked, p.description, p.footers),
        type_: p.type_,
        scope: p.scope,
        description: p.description,
        body: p.body,
        footers: shown_footers(p.footers),
        sha,
    }
}

/// A footer of a commit record.
#[derive(Debug)]
pub struct ConventionalCommitFooter {
    pub token: String,
    pub value: String,
    pub breaking: bool,
    pub separator: String,
}

impl View for ConventionalCommitFooter {
    type V = FooterModel;

    open spec fn view(&self) -> FooterModel {
        FooterModel {
            token: self.token@,
            separator: self.separator@,
            value: self.value@,
            breaking: self.breaking,
        }
    }
}

pub open spec fn footers_view(v: Seq<ConventionalCommitFooter>) -> Seq<FooterModel> {
    v.map_values(|f: ConventionalCommitFooter| f@)
}

impl ConventionalCommitFooter {
    /// The footer with its separator as it is shown.
    pub fn new(footer: &ParsedFooter) -> (r: ConventionalCommitFooter)
        ensures
            r@ == shown_footer(footer@),
    {
        let separator = if footer.separator == String::from_str(":") {
            String::from_str(": ")
        } else {
            footer.separator.clone()
        };
        ConventionalCommitFooter {
            token: footer.token.clone(),
            value: footer.value.clone(),
            breaking: footer.breaking,
            separator,
        }
    }

    /// The footer as it reads in a message: token, separator, value.
    pub fn to_string(&self) -> (r: String)
        ensures
            r@ == self.token@ + self.separator@ + self.value@,
    {
        let mut r = self.token.clone();
        r.append(self.separator.as_str());
        r.append(self.value.as_str());
        r
    }
}

/// A Conventional Commit of the analysed range.
#[derive(Debug)]
pub struct ConventionalCommit {
    pub breaking: bool,
    pub breaking_changes: Vec<String>,
    pub type_: String,
    pub scope: Option<String>,
    pub description: String,
    pub body: Option<String>,
    pub footers: Vec<ConventionalCommitFooter>,
    pub sha: String,
}

impl View for ConventionalCommit {
    type V = CommitModel;

    open spec fn view(&self) -> CommitModel {
        CommitModel {
            breaking: self.breaking,
            breaking_changes: strings_view(self.breaking_changes@),
            type_: self.type_@,
            scope: opt_view(self.scope),
            description: self.description@,
            body: opt_view(self.body),
            footers: footers_view(self.footers@),
            sha: self.sha@,
        }
    }
}

/// Whether the header of `message` carries the `!` marker after `type_` and
/// `scope`.
pub fn is_header_marked(message: &str, type_: &String, scope: &Option<String>) -> (r: bool)
    ensures
        r == header_marked(message@, type_@, opt_view(*scope)),
{
    let n = message.unicode_len();
    let t = type_.as_str().unicode_len();
    let k: u128 = match scope {
        Some(s) => t as u128 + s.as_str().unicode_len() as u128 + 2,
        None => t as u128,
    };
    if k < n as u128 {
        message.get_char(k as usize) == '!'
    } else {
        false
    }
}

fn first_breaking(footers: &Vec<ParsedFooter>) -> (r: Option<String>)
    ensures
        opt_view(r) == first_breaking_value(parsed_footers_view(footers@)),
{
    let ghost fs = parsed_footers_view(footers@);
    let mut i: usize = 0;
    while i < footers.len()
        invariant
            i <= footers.len(),
            fs == parsed_footers_view(footers@),
            first_breaking_value(fs.subrange(0, i as int)) is None,
        decreases footers.len() - i,
    {
        assert(fs.subrange(0, i + 1).drop_last() =~= fs.subrange(0, i as int));
        if footers[i].breaking {
            proof {
                lemma_first_breaking_extends(fs, i + 1);
            }
            return Some(footers[i].value.clone());
        }
        i = i + 1;
    }
    assert(fs.subrange(0, i as int) =~= fs);
    None
}

proof fn lemma_first_breaking_extends(fs: Seq<FooterModel>, n: int)
    requires
        0 <= n <= fs.len(),
        first_breaking_value(fs.subrange(0, n)) is Some,
    ensures
        first_breaking_value(fs) == first_breaking_value(fs.subrange(0, n)),
    decreases fs.len() - n,
{
    if n < fs.len() {
        assert(fs.subrange(0, n + 1).drop_last() =~= fs.subrange(0, n));
        lemma_first_breaking_extends(fs, n + 1);
    } else {
        assert(fs.subrange(0, n) =~= fs);
    }
}

fn breaking_changes(marked: bool, description: &String, footers: &Vec<ParsedFooter>) -> (r: Vec<
    String,
>)
    ensures
        strings_view(r@) == breaking_changes_of(
            marked,
            description@,
            parsed_footers_view(footers@),
        ),
{
    let ghost fs = parsed_footers_view(footers@);
    let lead = if marked {
        Some(description.clone())
    } else {
        first_breaking(footers)
    };
    match lead {
        None => {
            let r: Vec<String> = Vec::new();
            assert(strings_view(r@) =~= seq![]);
            r
        },
        Some(d) => {
            let mut r: Vec<String> = Vec::new();
            r.push(d.clone());
            assert(strings_view(r@) =~= seq![d@]);
            let mut i: usize = 0;
            while i < footers.len()
                invariant
                    i <= footers.len(),
                    fs == parsed_footers_view(footers@),
                    strings_view(r@) == seq![d@] + other_breaking_values(
                        fs.subrange(0, i as int),
                        d@,
                    ),
                decreases footers.len() - i,
            {
                assert(fs.subrange(0, i + 1).drop_last() =~= fs.subrange(0, i as int));
                if footers[i].breaking && !(footers[i].value == d) {
                    let ghost before = r@;
                    r.push(footers[i].value.clone());
                    assert(strings_view(r@) =~= strings_view(before).push(footers@[i as int].value@));
                }
                i = i + 1;
            }
            assert(fs.subrange(0, i as int) =~= fs);
            r
        },
    }
}

fn any_breaking(footers: &Vec<ParsedFooter>) -> (r: bool)
    ensures
        r == any_breaking_footer(parsed_footers_view(footers@)),
{
    let mut i: usize = 0;
    while i < footers.len()
        invariant
            i <= footers.len(),
            forall|j: int| 0 <= j < i ==> !(#[trigger] footers@[j]).breaking,
        decreases footers.len() - i,
    {
        if footers[i].breaking {
            assert(parsed_footers_view(footers@)[i as int].breaking);
            return true;
        }
        i = i + 1;
    }
    assert forall|j: int| 0 <= j < footers@.len() implies !(#[trigger] parsed_footers_view(
        footers@,
    )[j]).breaking by {
        assert(!footers@[j].breaking);
    }
    false
}

impl ConventionalCommit {
    /// The record of commit `sha`, whose message `message` decomposes into
    /// `parsed`.
    pub fn new(sha: &str, message: &str, parsed: &ParsedMessage) -> (r: ConventionalCommit)
        requires
            parsed@.type_.len() > 0,
            parsed@.description.len() > 0,
        ensures
            r@ == commit_model(sha@, message@, parsed@),
    {
        let marked = is_header_marked(message, &parsed.type_, &parsed.scope);
        let breaking = marked || any_breaking(&parsed.footers);
        let breaking_changes = breaking_changes(marked, &parsed.description, &parsed.footers);
        let mut footers: Vec<ConventionalCommitFooter> = Vec::new();
        let mut i: usize = 0;
        while i < parsed.footers.len()
            invariant
                i <= parsed.footers.len(),
                footers@.len() == i,
                forall|j: int|
                    0 <= j < i ==> (#[trigger] footers@[j])@ == shown_footer(
                        parsed.footers@[j]@,
                    ),
            decreases parsed.footers.len() - i,
        {
            footers.push(ConventionalCommitFooter::new(&parsed.footers[i]));
            i = i + 1;
        }
        let r = ConventionalCommit {
            breaking,
            breaking_changes,
            type_: parsed.type_.clone(),
            scope: clone_opt(&parsed.scope),
            description: parsed.description.clone(),
            body: clone_opt(&parsed.body),
            footers,
            sha: String::from_str(sha),
        };
        assert(footers_view(r.footers@) =~= shown_footers(parsed@.footers));
        r
    }
}

pub(crate) fn clone_opt(o: &Option<String>) -> (r: Option<String>)
    ensures
        opt_view(r) == opt_view(*o),
{
    match o {
        Some(s) => Some(s.clone()),
        None => None,
    }
}

/// Parses one commit message. Trailing line endings are dropped first; the
/// record is made when git-conventional accepts what is left, and its
/// diagnostic is returned where it does not.
pub fn parse_commit(sha: &str, message: &str) -> (r: Result<ConventionalCommit, String>)
    ensures
        match conventional_parse(trim_end_newlines(message@)) {
            Some(p) => r matches Ok(c) && c@ == commit_model(
                sha@,
                trim_end_newlines(message@),
                p,
            ),
            None => r matches Err(e) && e@ == conventional_diagnostic(trim_end_newlines(message@)),
        },
        r matches Ok(c) ==> c@.type_.len() > 0 && c@.description.len() > 0,
{
    let trimmed = trim_trailing_newlines(message);
    match parse_conventional(trimmed) {
        Ok(p) => Ok(ConventionalCommit::new(sha, trimmed, &p)),
        Err(e) => Err(e),
    }
}

/// The header up to its `!` marker: `type!` or `type(scope)!`.
pub open spec fn marked_header(type_: Seq<char>, scope: Option<Seq<char>>) -> Seq<char> {
    match scope {
        Some(s) => type_ + seq!['('] + s + seq![')', '!'],
        None => type_ + seq!['!'],
    }
}

/// A message whose header reads `type(scope)!: …` (or `type!: …`) makes a
/// breaking commit whose first breaking change is its own description.
pub proof fn lemma_marked_header_leads(sha: Seq<char>, message: Seq<char>, p: ParsedModel)
    requires
        marked_header(p.type_, p.scope).is_prefix_of(message),
    ensures
        commit_model(sha, message, p).breaking,
        commit_model(sha, message, p).breaking_changes.len() >= 1,
        commit_model(sha, message, p).breaking_changes[0] == p.description,
{
    let h = marked_header(p.type_, p.scope);
    let k = marker_position(p.type_, p.scope);
    assert(h.len() == k + 1);
    assert(h[k] == '!');
    assert(message[k] == h[k]);
    assert(header_marked(message, p.type_, p.scope));
}

proof fn lemma_first_breaking_found(footers: Seq<FooterModel>, j: int)
    requires
        0 <= j < footers.len(),
        footers[j].breaking,
    ensures
        first_breaking_value(footers) is Some,
    decreases footers.len(),
{
    if j < footers.len() - 1 {
        lemma_first_breaking_found(footers.drop_last(), j);
    }
}

proof fn lemma_first_breaking_is_breaking(footers: Seq<FooterModel>)
    requires
        first_breaking_value(footers) is Some,
    ensures
        exists|i: int|
            0 <= i < footers.len() && footers[i].breaking && #[trigger] footers[i].value
                == first_breaking_value(footers)->Some_0,
    decreases footers.len(),
{
    let d = footers.drop_last();
    if first_breaking_value(d) is Some {
        lemma_first_breaking_is_breaking(d);
        let i = choose|i: int|
            0 <= i < d.len() && d[i].breaking && #[trigger] d[i].value == first_breaking_value(
                d,
            )->Some_0;
        assert(footers[i] == d[i]);
    } else {
        assert(footers[footers.len() - 1] == footers.last());
    }
}

proof fn lemma_no_other_breaking(footers: Seq<FooterModel>, lead: Seq<char>)
    requires
        forall|i: int| 0 <= i < footers.len() && #[trigger] footers[i].breaking ==> footers[i].value
            == lead,
    ensures
        other_breaking_values(footers, lead) == Seq::<Seq<char>>::empty(),
    decreases footers.len(),
{
    if footers.len() > 0 {
        let d = footers.drop_last();
        assert forall|i: int| 0 <= i < d.len() && #[trigger] d[i].breaking implies d[i].value
            == lead by {
            assert(d[i] == footers[i]);
        }
        lemma_no_other_breaking(d, lead);
        assert(footers.last() == footers[footers.len() - 1]);
    }
}

/// A message without the `!` marker whose breaking footers all read `x`, and
/// there is at least one, makes a breaking commit whose description is the
/// plain subject and whose one breaking change is `x`.
pub proof fn lemma_breaking_footer_alone(
    sha: Seq<char>,
    message: Seq<char>,
    p: ParsedModel,
    x: Seq<char>,
)
    requires
        !header_marked(message, p.type_, p.scope),
        exists|j: int| 0 <= j < p.footers.len() && #[trigger] p.footers[j].breaking,
        forall|i: int| 0 <= i < p.footers.len() && #[trigger] p.footers[i].breaking ==> p.footers[i].value
            == x,
    ensures
        commit_model(sha, message, p).breaking,
        commit_model(sha, message, p).description == p.description,
        commit_model(sha, message, p).breaking_changes == seq![x],
{
    let j = choose|j: int| 0 <= j < p.footers.len() && #[trigger] p.footers[j].breaking;
    lemma_first_breaking_found(p.footers, j);
    lemma_first_breaking_is_breaking(p.footers);
    lemma_no_other_breaking(p.footers, x);
    assert(seq![x] + Seq::<Seq<char>>::empty() =~= seq![x]);
}

} // verus!
