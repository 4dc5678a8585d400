//! The commit message that records updates of sources.
use vstd::prelude::*;
use vstd::string::*;

use crate::git::{short_revision, CommitView};
use crate::sources::{RevisionUpdate, RevisionUpdateView, UpdateSummary, UpdateSummaryView};
use crate::text::{decimal, first_line, push_decimal, push_spaces, spaces};

verus! {

/// The error that writing formatted text reports. Writing into a `String` never fails.
#[verifier::external_type_specification]
#[verifier::external_body]
pub struct ExFmtError(std::fmt::Error);

/// The lines that list the commits of an overview, each starting on a new line.
pub open spec fn commit_lines(revs: Seq<CommitView>, indent: nat) -> Seq<char>
    decreases revs.len(),
{
    if revs.len() == 0 {
        seq![]
    } else {
        commit_lines(revs.drop_last(), indent) + "\n"@ + spaces(indent) + "  "@ + short_revision(
            revs.last().0,
        ) + " "@ + first_line(revs.last().1)
    }
}

/// The overview of the commits of an update, indented by `indent` spaces.
pub open spec fn rev_list_overview(r: RevisionUpdateView, indent: nat) -> Option<Seq<char>> {
    match r.rev_list {
        Some(revs) => Some(
            spaces(indent) + "Last "@ + decimal(revs.len()) + " commits:"@ + commit_lines(
                revs,
                indent,
            ),
        ),
        None => None,
    }
}

/// An overview as a paragraph of its own, or nothing.
pub open spec fn overview_paragraph(o: Option<Seq<char>>) -> Seq<char> {
    match o {
        Some(o) => "\n"@ + o + "\n"@,
        None => seq![],
    }
}

/// The body of a message that records exactly one update.
pub open spec fn single_body(summary: UpdateSummaryView) -> Seq<char> {
    match summary {
        UpdateSummaryView::Rev(r) => "\n"@ + "  "@ + r.old_revision + "\n"@ + "→ "@
            + r.new_revision + "\n"@ + overview_paragraph(rev_list_overview(r, 0)),
        UpdateSummaryView::Url { old_url, new_url } => "\n"@ + "  "@ + old_url + "\n"@ + "→ "@
            + new_url + "\n"@,
    }
}

/// The entry of one update in a message that records several.
pub open spec fn entry(name: Seq<char>, summary: UpdateSummaryView) -> Seq<char> {
    "\n"@ + "• "@ + name + ":\n"@ + match summary {
        UpdateSummaryView::Rev(r) => "    "@ + r.old_revision + "\n"@ + "  → "@ + r.new_revision
            + "\n"@ + overview_paragraph(rev_list_overview(r, 2)),
        UpdateSummaryView::Url { old_url, new_url } => "    "@ + old_url + "\n"@ + "  → "@
            + new_url + "\n"@,
    }
}

/// The entries of several updates, in the order in which they were added.
pub open spec fn entries(updates: Seq<(Seq<char>, UpdateSummaryView)>) -> Seq<char>
    decreases updates.len(),
{
    if updates.len() == 0 {
        seq![]
    } else {
        entries(updates.drop_last()) + entry(updates.last().0, updates.last().1)
    }
}

/// The body of the commit message.
pub open spec fn body(updates: Seq<(Seq<char>, UpdateSummaryView)>) -> Seq<char> {
    if updates.len() == 1 {
        single_body(updates[0].1)
    } else {
        entries(updates)
    }
}

/// The first line of the commit message.
pub open spec fn subject(updates: Seq<(Seq<char>, UpdateSummaryView)>) -> Seq<char> {
    if updates.len() == 1 {
        "lon: update "@ + updates[0].0 + "\n"@
    } else {
        "lon: update\n"@
    }
}

/// The whole commit message.
pub open spec fn message(updates: Seq<(Seq<char>, UpdateSummaryView)>) -> Seq<char> {
    subject(updates) + body(updates)
}

/// Once an update is recorded, the message is not empty; a message of exactly one update
/// names its source in the subject and has the single-update body, and a message of
/// several updates lists them all, each entry after the entries recorded before it.
pub proof fn lemma_recorded_updates(
    updates: Seq<(Seq<char>, UpdateSummaryView)>,
    name: Seq<char>,
    summary: UpdateSummaryView,
)
    ensures
        updates.push((name, summary)).len() != 0,
        updates.len() == 0 ==> message(updates.push((name, summary))) == "lon: update "@ + name
            + "\n"@ + single_body(summary),
        updates.len() >= 1 ==> body(updates.push((name, summary))) == entries(updates) + entry(
            name,
            summary,
        ),
{
    let u = updates.push((name, summary));
    assert(u.drop_last() =~= updates);
    if updates.len() == 0 {
        assert(u[0] == (name, summary));
    }
}

/// Each commit of an overview gets a line of its own, after the lines of the commits
/// before it: a new line, the indentation, two spaces, the first seven characters of the
/// commit's revision (all of it when it is shorter), a space and the first line of the
/// commit's message.
pub proof fn lemma_commit_line(revs: Seq<CommitView>, c: CommitView, indent: nat)
    ensures
        commit_lines(revs.push(c), indent) == commit_lines(revs, indent) + commit_lines(
            seq![c],
            indent,
        ),
        commit_lines(seq![c], indent) == "\n"@ + spaces(indent) + "  "@ + c.0.subrange(
            0,
            if c.0.len() < 7 {
                c.0.len() as int
            } else {
                7
            },
        ) + " "@ + first_line(c.1),
{
    let one = seq![c];
    assert(revs.push(c).drop_last() =~= revs);
    assert(one.drop_last() =~= Seq::<CommitView>::empty());
    assert(commit_lines(one.drop_last(), indent) =~= Seq::<char>::empty());
    if c.0.len() < 7 {
        assert(c.0.subrange(0, c.0.len() as int) =~= c.0);
    }
    assert(commit_lines(one, indent) =~= "\n"@ + spaces(indent) + "  "@ + c.0.subrange(
        0,
        if c.0.len() < 7 {
            c.0.len() as int
        } else {
            7
        },
    ) + " "@ + first_line(c.1));
}

/// A commit message that records the updates of sources.
pub struct CommitMessage {
    updates: Vec<(String, UpdateSummary)>,
}

/// The names and summaries of a sequence of updates.
pub open spec fn update_views(u: Seq<(String, UpdateSummary)>) -> Seq<(Seq<char>, UpdateSummaryView)> {
    u.map_values(|p: (String, UpdateSummary)| (p.0@, p.1@))
}

impl View for CommitMessage {
    type V = Seq<(Seq<char>, UpdateSummaryView)>;

    closed spec fn view(&self) -> Seq<(Seq<char>, UpdateSummaryView)> {
        update_views(self.updates@)
    }
}

impl CommitMessage {
    pub fn new() -> (r: Self)
        ensures
            r@ == Seq::<(Seq<char>, UpdateSummaryView)>::empty(),
    {
        let r = CommitMessage { updates: Vec::new() };
        assert(update_views(r.updates@) =~= Seq::<(Seq<char>, UpdateSummaryView)>::empty());
        r
    }

    /// Record the update of the source `name`.
    pub fn add_summary(&mut self, name: &str, summary: UpdateSummary)
        ensures
            final(self)@ == old(self)@.push((name@, summary@)),
    {
        let ghost before = self.updates@;
        let entry = (name.to_owned(), summary);
        self.updates.push(entry);
        assert(update_views(self.updates@) =~= update_views(before).push((name@, entry.1@)));
    }

    /// Whether no update is recorded.
    pub fn is_empty(&self) -> (r: bool)
        ensures
            r == (self@.len() == 0),
    {
        self.updates.len() == 0
    }

    /// Construct the body of the commit message.
    pub fn body(&self) -> (r: Result<String, std::fmt::Error>)
        ensures
            r matches Ok(s) && s@ == body(self@),
    {
        let mut commit_message = String::new();
        if self.updates.len() == 1 {
            let summary = &self.updates[0].1;
            proof {
                assert(self@[0].1 == summary@);
            }
            commit_message.append("\n");
            match summary {
                UpdateSummary::Rev(summary) => {
                    commit_message.append("  ");
                    commit_message.append(summary.old_revision.as_str());
                    commit_message.append("\n");
                    commit_message.append("→ ");
                    commit_message.append(summary.new_revision.as_str());
                    commit_message.append("\n");
                    Self::push_overview_paragraph(&mut commit_message, summary, 0);
                },
                UpdateSummary::Url(summary) => {
                    commit_message.append("  ");
                    commit_message.append(summary.old_url.as_str());
                    commit_message.append("\n");
                    commit_message.append("→ ");
                    commit_message.append(summary.new_url.as_str());
                    commit_message.append("\n");
                },
            }
        } else {
            let mut i: usize = 0;
            while i < self.updates.len()
                invariant
                    i <= self.updates@.len(),
                    self@ == update_views(self.updates@),
                    commit_message@ == entries(self@.take(i as int)),
                decreases self.updates@.len() - i,
            {
                let name = &self.updates[i].0;
                let summary = &self.updates[i].1;
                let ghost before = commit_message@;
                commit_message.append("\n");
                commit_message.append("• ");
                commit_message.append(name.as_str());
                commit_message.append(":\n");
                match summary {
                    UpdateSummary::Rev(summary) => {
                        commit_message.append("    ");
                        commit_message.append(summary.old_revision.as_str());
                        commit_message.append("\n");
                        commit_message.append("  → ");
                        commit_message.append(summary.new_revision.as_str());
                        commit_message.append("\n");
                        Self::push_overview_paragraph(&mut commit_message, summary, 2);
                    },
                    UpdateSummary::Url(summary) => {
                        commit_message.append("    ");
                        commit_message.append(summary.old_url.as_str());
                        commit_message.append("\n");
                        commit_message.append("  → ");
                        commit_message.append(summary.new_url.as_str());
                        commit_message.append("\n");
                    },
                }
                proof {
                    let u = self@.take(i + 1);
                    assert(u.drop_last() =~= self@.take(i as int));
                    assert(u.last() == (name@, self.updates@[i as int].1@));
                    assert(commit_message@ =~= before + entry(name@, self.updates@[i as int].1@));
                }
                i = i + 1;
            }
            proof {
                assert(self@.take(self@.len() as int) =~= self@);
            }
        }
        Ok(commit_message)
    }

    /// Append the overview of the commits of `summary`, as a paragraph of its own.
    fn push_overview_paragraph(s: &mut String, summary: &RevisionUpdate, indent: usize)
        ensures
            final(s)@ == old(s)@ + overview_paragraph(rev_list_overview(summary@, indent as nat)),
    {
        match Self::rev_list_overview(summary, indent) {
            Some(overview) => {
                s.append("\n");
                s.append(overview.as_str());
                s.append("\n");
            },
            None => {},
        }
    }

    /// Construct the overview of the rev list from a summary.
    ///
    /// Adds whitespace according to the ident argument.
    fn rev_list_overview(summary: &RevisionUpdate, indent: usize) -> (r: Option<String>)
        ensures
            match rev_list_overview(summary@, indent as nat) {
                Some(o) => r matches Some(s) && s@ == o,
                None => r is None,
            },
    {
        match &summary.rev_list {
            None => None,
            Some(rev_list) => {
                let revs = rev_list.revs();
                let ghost views = crate::git::commit_views(revs@);
                let mut out = String::new();
                push_spaces(&mut out, indent);
                out.append("Last ");
                push_decimal(&mut out, revs.len() as u64);
                out.append(" commits:");
                let ghost head = out@;
                let mut i: usize = 0;
                while i < revs.len()
                    invariant
                        i <= revs@.len(),
                        views == crate::git::commit_views(revs@),
                        out@ == head + commit_lines(views.take(i as int), indent as nat),
                    decreases revs@.len() - i,
                {
                    let commit = &revs[i];
                    out.append("\n");
                    push_spaces(&mut out, indent);
                    out.append("  ");
                    let short = commit.revision.short();
                    out.append(short.as_str());
                    out.append(" ");
                    let line = commit.message_summary();
                    out.append(line.as_str());
                    proof {
                        let t = views.take(i + 1);
                        assert(t.drop_last() =~= views.take(i as int));
                        assert(t.last() == commit@);
                    }
                    i = i + 1;
                }
                proof {
                    assert(views.take(revs@.len() as int) =~= views);
                }
                Some(out)
            },
        }
    }

    /// The whole commit message: a subject line naming the updated source (when there is
    /// only one) and the body.
    pub fn to_string(&self) -> (r: String)
        ensures
            r@ == message(self@),
    {
        let mut commit_message = String::new();
        if self.updates.len() == 1 {
            commit_message.append("lon: update ");
            commit_message.append(self.updates[0].0.as_str());
            commit_message.append("\n");
        } else {
            commit_message.append("lon: update\n");
        }
        match self.body() {
            Ok(body) => commit_message.append(body.as_str()),
            Err(_) => {},
        }
        commit_message
    }
}

} // verus!
