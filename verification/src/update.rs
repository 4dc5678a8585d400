//! Locking, updating and modifying sources.
//!
//! These operations need facts that only the outside world has: the newest revision of
//! a branch, the hash of a fetched tree, the time of a commit. Each operation is a small
//! state machine: it starts from a source and says which fact it needs next
//! ([`Action`]); the caller finds that fact out and hands it back ([`Event`]), and the
//! machine changes the source and says what it needs next, until it is
//! [`Action::Finished`].
use vstd::prelude::*;
use vstd::string::*;

use crate::git::Revision;
use crate::sources::{
    GITHUB_URL, github_tarball_url, rev_summary, GitHubSource, GitHubSourceView, GitSourceView,
    RevisionUpdate, Source, SourceView, UpdateSummary, UpdateSummaryView,
};

verus! {

/// The operation that a machine carries out.
#[derive(Debug, Clone, Copy, PartialEq, Eq, Structural)]
pub enum Mode {
    /// Follow the branch to its newest revision and report the move.
    Update,
    /// Follow a newly chosen branch to its newest revision, without a report.
    Modify,
    /// Lock a new source to the newest revision of its branch.
    Init,
}

/// What a machine waits for.
#[derive(Debug)]
pub enum Pending {
    /// The newest revision of the branch.
    NewestRevision { mode: Mode },
    /// The hash of `revision`; `report` is the revision to report the move from.
    Hash { revision: Revision, report: Option<Revision> },
    /// The time of the commit `revision` (Git sources only).
    LastModified { revision: Revision, report: Option<Revision> },
}

/// The plain-value model of a [`Pending`].
pub enum PendingView {
    NewestRevision { mode: Mode },
    Hash { revision: Seq<char>, report: Option<Seq<char>> },
    LastModified { revision: Seq<char>, report: Option<Seq<char>> },
}

impl View for Pending {
    type V = PendingView;

    open spec fn view(&self) -> PendingView {
        match self {
            Pending::NewestRevision { mode } => PendingView::NewestRevision { mode: *mode },
            Pending::Hash { revision, report } => PendingView::Hash {
                revision: revision@,
                report: match report {
                    Some(r) => Some(r@),
                    None => None,
                },
            },
            Pending::LastModified { revision, report } => PendingView::LastModified {
                revision: revision@,
                report: match report {
                    Some(r) => Some(r@),
                    None => None,
                },
            },
        }
    }
}

/// What the caller has to do next.
#[derive(Debug)]
pub enum Action {
    /// Find the newest revision of `branch` in the repository at `url`.
    FetchNewestRevision { url: String, branch: String },
    /// Fetch `revision` of the repository at `url` the way `builtins.fetchGit` does and
    /// hash it.
    PrefetchGit { url: String, revision: String, submodules: bool },
    /// Fetch and unpack the tarball at `url` the way `builtins.fetchTarball` does and hash it.
    PrefetchTarball { url: String },
    /// Find the commit time of `revision` in the repository at `url`.
    FetchLastModified { url: String, revision: String },
    /// Nothing more: the operation is done, with what it reports.
    Finished(Option<UpdateSummary>),
}

/// The plain-value model of an [`Action`].
pub enum ActionView {
    FetchNewestRevision { url: Seq<char>, branch: Seq<char> },
    PrefetchGit { url: Seq<char>, revision: Seq<char>, submodules: bool },
    PrefetchTarball { url: Seq<char> },
    FetchLastModified { url: Seq<char>, revision: Seq<char> },
    Finished(Option<UpdateSummaryView>),
}

impl View for Action {
    type V = ActionView;

    open spec fn view(&self) -> ActionView {
        match self {
            Action::FetchNewestRevision { url, branch } => ActionView::FetchNewestRevision {
                url: url@,
                branch: branch@,
            },
            Action::PrefetchGit { url, revision, submodules } => ActionView::PrefetchGit {
                url: url@,
                revision: revision@,
                submodules: *submodules,
            },
            Action::PrefetchTarball { url } => ActionView::PrefetchTarball { url: url@ },
            Action::FetchLastModified { url, revision } => ActionView::FetchLastModified {
                url: url@,
                revision: revision@,
            },
            Action::Finished(s) => ActionView::Finished(
                match s {
                    Some(s) => Some(s@),
                    None => None,
                },
            ),
        }
    }
}

/// A fact from the outside world, as an [`Action`] asked for it.
#[derive(Debug)]
pub enum Event {
    NewestRevision(Revision),
    Hash(String),
    LastModified(u64),
}

/// The plain-value model of an [`Event`].
pub enum EventView {
    NewestRevision(Seq<char>),
    Hash(Seq<char>),
    LastModified(u64),
}

impl View for Event {
    type V = EventView;

    open spec fn view(&self) -> EventView {
        match self {
            Event::NewestRevision(r) => EventView::NewestRevision(r@),
            Event::Hash(h) => EventView::Hash(h@),
            Event::LastModified(t) => EventView::LastModified(*t),
        }
    }
}

// ---------------------------------------------------------------------------------------------
// The machine, as spec functions
// ---------------------------------------------------------------------------------------------
/// Ask for the newest revision of the branch that `s` follows.
pub open spec fn ask_newest(s: SourceView, mode: Mode) -> (Option<PendingView>, ActionView) {
    (
        Some(PendingView::NewestRevision { mode }),
        ActionView::FetchNewestRevision { url: s.repository_url(), branch: s.branch() },
    )
}

/// Start locking `s` to `revision`: ask for the hash of what the source fetches there.
pub open spec fn start_lock(s: SourceView, revision: Seq<char>, report: Option<Seq<char>>) -> (
    Option<PendingView>,
    ActionView,
) {
    (
        Some(PendingView::Hash { revision, report }),
        match s {
            SourceView::Git(g) => ActionView::PrefetchGit {
                url: g.url,
                revision,
                submodules: g.submodules,
            },
            SourceView::GitHub(h) => ActionView::PrefetchTarball {
                url: github_tarball_url(h.owner, h.repo, revision),
            },
        },
    )
}

/// What a finished lock reports.
pub open spec fn report_of(report: Option<Seq<char>>, revision: Seq<char>) -> Option<
    UpdateSummaryView,
> {
    match report {
        Some(old) => Some(rev_summary(old, revision)),
        None => None,
    }
}

/// Start an update: a frozen source stays as it is; any other source asks for the
/// newest revision of its branch.
pub open spec fn begin_update(s: SourceView) -> (Option<PendingView>, ActionView) {
    if s.frozen() {
        (None, ActionView::Finished(None))
    } else {
        ask_newest(s, Mode::Update)
    }
}

/// Start changing the branch and/or the revision of a source. A new branch without a
/// revision moves the source to the newest revision of that branch (unless the source is
/// frozen); a new revision locks the source to it.
pub open spec fn begin_modify(
    s: SourceView,
    branch: Option<Seq<char>>,
    revision: Option<Seq<char>>,
) -> (SourceView, Option<PendingView>, ActionView) {
    let changed = branch is Some && branch->0 != s.branch();
    let s1 = if changed {
        s.with_branch(branch->0)
    } else {
        s
    };
    if changed && revision is None {
        if s1.frozen() {
            (s1, None, ActionView::Finished(None))
        } else {
            let (p, a) = ask_newest(s1, Mode::Modify);
            (s1, p, a)
        }
    } else if revision is Some && revision->0 != s1.revision() {
        let (p, a) = start_lock(s1, revision->0, None);
        (s1, p, a)
    } else {
        (s1, None, ActionView::Finished(None))
    }
}

/// Start locking a new source: to the given revision, or else to the newest revision of
/// its branch.
pub open spec fn begin_init(s: SourceView, revision: Option<Seq<char>>) -> (
    Option<PendingView>,
    ActionView,
) {
    match revision {
        Some(r) => start_lock(s, r, None),
        None => ask_newest(s, Mode::Init),
    }
}

/// Whether `e` is the fact that `p` waits for.
pub open spec fn accepts(s: SourceView, p: PendingView, e: EventView) -> bool {
    match p {
        PendingView::NewestRevision { .. } => e is NewestRevision,
        PendingView::Hash { .. } => e is Hash,
        PendingView::LastModified { .. } => e is LastModified && s is Git,
    }
}

/// One step of the machine: the source, what it waits for next and what to do next.
pub open spec fn resume(s: SourceView, p: PendingView, e: EventView) -> (
    SourceView,
    Option<PendingView>,
    ActionView,
) {
    match p {
        PendingView::NewestRevision { mode } => {
            let r = e->NewestRevision_0;
            if mode == Mode::Init {
                let (p2, a) = start_lock(s, r, None);
                (s, p2, a)
            } else if r == s.revision() {
                (s, None, ActionView::Finished(None))
            } else {
                let report = if mode == Mode::Update {
                    Some(s.revision())
                } else {
                    None
                };
                let (p2, a) = start_lock(s, r, report);
                (s, p2, a)
            }
        },
        PendingView::Hash { revision, report } => {
            let h = e->Hash_0;
            match s {
                SourceView::Git(g) => (
                    SourceView::Git(GitSourceView { revision, hash: h, ..g }),
                    Some(PendingView::LastModified { revision, report }),
                    ActionView::FetchLastModified { url: g.url, revision },
                ),
                SourceView::GitHub(g) => (
                    SourceView::GitHub(
                        GitHubSourceView {
                            revision,
                            hash: h,
                            url: github_tarball_url(g.owner, g.repo, revision),
                            ..g
                        },
                    ),
                    None,
                    ActionView::Finished(report_of(report, revision)),
                ),
            }
        },
        PendingView::LastModified { revision, report } => {
            let t = e->LastModified_0;
            match s {
                SourceView::Git(g) => (
                    SourceView::Git(GitSourceView { last_modified: Some(t), ..g }),
                    None,
                    ActionView::Finished(report_of(report, revision)),
                ),
                SourceView::GitHub(_) => (s, None, ActionView::Finished(None)),
            }
        },
    }
}

/// Runs the machine from `s`, waiting for `p`, on the facts `events`, until it has no more
/// facts or waits for nothing; gives the source and the last action.
pub open spec fn drive(
    s: SourceView,
    p: Option<PendingView>,
    a: ActionView,
    events: Seq<EventView>,
) -> (SourceView, ActionView)
    decreases events.len(),
{
    if p is None || events.len() == 0 {
        (s, a)
    } else {
        let (s2, p2, a2) = resume(s, p->0, events[0]);
        drive(s2, p2, a2, events.drop_first())
    }
}

// ---------------------------------------------------------------------------------------------
// The laws of the machine
// ---------------------------------------------------------------------------------------------
/// Updating a frozen source does nothing and reports nothing.
pub proof fn lemma_update_frozen(s: SourceView)
    requires
        s.frozen(),
    ensures
        begin_update(s) == (None::<PendingView>, ActionView::Finished(None)),
{
}

/// Updating a source whose revision is already the newest changes nothing and reports
/// nothing.
pub proof fn lemma_update_up_to_date(s: SourceView)
    requires
        !s.frozen(),
    ensures
        ({
            let (p, a) = begin_update(s);
            drive(s, p, a, seq![EventView::NewestRevision(s.revision())])
        }) == (s, ActionView::Finished(None)),
{
    reveal_with_fuel(drive, 4);
    let (p, a) = begin_update(s);
    let events = seq![EventView::NewestRevision(s.revision())];
    assert(events.drop_first() =~= Seq::<EventView>::empty());
}

/// Updating a Git source to a newer revision locks it to that revision with the hash and
/// commit time found for it, keeps all else, and reports the move.
pub proof fn lemma_update_git(g: GitSourceView, newest: Seq<char>, hash: Seq<char>, time: u64)
    requires
        !g.frozen,
        newest != g.revision,
    ensures
        ({
            let s = SourceView::Git(g);
            let (p, a) = begin_update(s);
            drive(
                s,
                p,
                a,
                seq![
                    EventView::NewestRevision(newest),
                    EventView::Hash(hash),
                    EventView::LastModified(time),
                ],
            )
        }) == (
            SourceView::Git(
                GitSourceView { revision: newest, hash, last_modified: Some(time), ..g },
            ),
            ActionView::Finished(Some(rev_summary(g.revision, newest))),
        ),
{
    reveal_with_fuel(drive, 4);
    let events = seq![
        EventView::NewestRevision(newest),
        EventView::Hash(hash),
        EventView::LastModified(time),
    ];
    assert(events.drop_first() =~= seq![EventView::Hash(hash), EventView::LastModified(time)]);
    assert(events.drop_first().drop_first() =~= seq![EventView::LastModified(time)]);
    assert(events.drop_first().drop_first().drop_first() =~= Seq::<EventView>::empty());
}

/// Updating a GitHub source to a newer revision locks it to that revision, the tarball
/// of that revision and its hash, keeps all else, and reports the move.
pub proof fn lemma_update_github(g: GitHubSourceView, newest: Seq<char>, hash: Seq<char>)
    requires
        !g.frozen,
        newest != g.revision,
    ensures
        ({
            let s = SourceView::GitHub(g);
            let (p, a) = begin_update(s);
            drive(s, p, a, seq![EventView::NewestRevision(newest), EventView::Hash(hash)])
        }) == (
            SourceView::GitHub(
                GitHubSourceView {
                    revision: newest,
                    hash,
                    url: github_tarball_url(g.owner, g.repo, newest),
                    ..g
                },
            ),
            ActionView::Finished(Some(rev_summary(g.revision, newest))),
        ),
{
    reveal_with_fuel(drive, 4);
    let events = seq![EventView::NewestRevision(newest), EventView::Hash(hash)];
    assert(events.drop_first() =~= seq![EventView::Hash(hash)]);
    assert(events.drop_first().drop_first() =~= Seq::<EventView>::empty());
}

/// Modifying a source to the branch and the revision that it already has changes nothing.
pub proof fn lemma_modify_unchanged(s: SourceView, branch: Option<Seq<char>>, revision: Option<Seq<char>>)
    requires
        branch is None || branch->0 == s.branch(),
        revision is None || revision->0 == s.revision(),
    ensures
        begin_modify(s, branch, revision) == (s, None::<PendingView>, ActionView::Finished(None)),
{
}

/// Modifying a source to another revision locks it to that revision (on the new branch,
/// if one is given), with the hash (and, for Git, the commit time) found for it, and
/// reports nothing.
pub proof fn lemma_modify_revision(
    s: SourceView,
    branch: Option<Seq<char>>,
    revision: Seq<char>,
    hash: Seq<char>,
    time: u64,
)
    requires
        revision != s.revision(),
    ensures
        ({
            let (s1, p, a) = begin_modify(s, branch, Some(revision));
            drive(
                s1,
                p,
                a,
                seq![EventView::Hash(hash), EventView::LastModified(time)],
            )
        }) == ({
            let s1 = if branch is Some {
                s.with_branch(branch->0)
            } else {
                s
            };
            (
                match s1 {
                    SourceView::Git(g) => SourceView::Git(
                        GitSourceView { revision, hash, last_modified: Some(time), ..g },
                    ),
                    SourceView::GitHub(g) => SourceView::GitHub(
                        GitHubSourceView {
                            revision,
                            hash,
                            url: github_tarball_url(g.owner, g.repo, revision),
                            ..g
                        },
                    ),
                },
                ActionView::Finished(None),
            )
        }),
{
    reveal_with_fuel(drive, 4);
    let events = seq![EventView::Hash(hash), EventView::LastModified(time)];
    assert(events.drop_first() =~= seq![EventView::LastModified(time)]);
    assert(events.drop_first().drop_first() =~= Seq::<EventView>::empty());
    if branch is Some && branch->0 == s.branch() {
        assert(s.with_branch(branch->0) == s);
    }
}

/// Locking a new source to a given revision gives it that revision and the hash (and, for
/// Git, the commit time) found for it.
pub proof fn lemma_init_revision(s: SourceView, revision: Seq<char>, hash: Seq<char>, time: u64)
    ensures
        ({
            let (p, a) = begin_init(s, Some(revision));
            drive(s, p, a, seq![EventView::Hash(hash), EventView::LastModified(time)])
        }) == (
            match s {
                SourceView::Git(g) => SourceView::Git(
                    GitSourceView { revision, hash, last_modified: Some(time), ..g },
                ),
                SourceView::GitHub(g) => SourceView::GitHub(
                    GitHubSourceView {
                        revision,
                        hash,
                        url: github_tarball_url(g.owner, g.repo, revision),
                        ..g
                    },
                ),
            },
            ActionView::Finished(None),
        ),
{
    reveal_with_fuel(drive, 4);
    let events = seq![EventView::Hash(hash), EventView::LastModified(time)];
    assert(events.drop_first() =~= seq![EventView::LastModified(time)]);
    assert(events.drop_first().drop_first() =~= Seq::<EventView>::empty());
}

/// Whatever facts come back, the machine asks for at most three of them: after three
/// accepted facts it waits for nothing.
pub proof fn lemma_steps_bounded(s: SourceView, p: PendingView, e1: EventView, e2: EventView, e3: EventView)
    requires
        p is NewestRevision,
        accepts(s, p, e1),
        ({
            let (s2, p2, a2) = resume(s, p, e1);
            p2 is Some ==> accepts(s2, p2->0, e2)
        }),
    ensures
        ({
            let (s2, p2, a2) = resume(s, p, e1);
            p2 is Some ==> {
                let (s3, p3, a3) = resume(s2, p2->0, e2);
                p3 is Some ==> {
                    let (s4, p4, a4) = resume(s3, p3->0, e3);
                    p4 is None
                }
            }
        }),
{
}

/// The model of what a machine may wait for.
pub open spec fn opt_pending(p: Option<Pending>) -> Option<PendingView> {
    match p {
        Some(p) => Some(p@),
        None => None,
    }
}

/// Locking a source to a revision asks for the hash of exactly what the source fetches
/// at that revision: for a Git source, `nix-prefetch-git` of its URL at the revision,
/// fetching submodules exactly when the source does; for a GitHub source, the tarball of
/// that revision of its repository. The machine then waits for that hash.
pub proof fn lemma_lock_asks_for_what_the_source_fetches(
    s: SourceView,
    revision: Seq<char>,
    report: Option<Seq<char>>,
)
    ensures
        start_lock(s, revision, report).0 == (Some(PendingView::Hash { revision, report })),
        (s matches SourceView::Git(g) ==> start_lock(s, revision, report).1
            == (ActionView::PrefetchGit { url: g.url, revision, submodules: g.submodules })),
        (s matches SourceView::GitHub(g) ==> start_lock(s, revision, report).1
            == (ActionView::PrefetchTarball {
            url: GITHUB_URL@ + "/"@ + g.owner + "/"@ + g.repo + "/archive/"@ + revision
                + ".tar.gz"@,
        })),
{
}

/// When an update finds a newer revision, the next thing it asks for is the hash of what
/// the source fetches at that revision (with the source's own submodules flag).
pub proof fn lemma_update_prefetches_newest(g: GitSourceView, newest: Seq<char>)
    requires
        !g.frozen,
        newest != g.revision,
    ensures
        ({
            let s = SourceView::Git(g);
            let (p, a) = begin_update(s);
            resume(s, p->0, EventView::NewestRevision(newest))
        }) == (
            SourceView::Git(g),
            Some(PendingView::Hash { revision: newest, report: Some(g.revision) }),
            ActionView::PrefetchGit { url: g.url, revision: newest, submodules: g.submodules },
        ),
{
}

/// No step of the machine changes the branch of a source.
pub proof fn lemma_resume_keeps_branch(s: SourceView, p: PendingView, e: EventView)
    ensures
        resume(s, p, e).0.branch() == s.branch(),
        resume(s, p, e).0.frozen() == s.frozen(),
{
}

/// Running the machine never changes the branch of a source.
pub proof fn lemma_drive_keeps_branch(
    s: SourceView,
    p: Option<PendingView>,
    a: ActionView,
    events: Seq<EventView>,
)
    ensures
        drive(s, p, a, events).0.branch() == s.branch(),
    decreases events.len(),
{
    if !(p is None || events.len() == 0) {
        let (s2, p2, a2) = resume(s, p->0, events[0]);
        lemma_resume_keeps_branch(s, p->0, events[0]);
        lemma_drive_keeps_branch(s2, p2, a2, events.drop_first());
    }
}

/// Modifying a source with a branch leaves the source on that branch, whatever revision
/// is asked for (also the revision it already has) and whatever facts come back; the
/// change of branch alone changes nothing else. Without a branch, the branch stays.
pub proof fn lemma_modify_sets_branch(
    s: SourceView,
    branch: Option<Seq<char>>,
    revision: Option<Seq<char>>,
    events: Seq<EventView>,
)
    ensures
        ({
            let (s1, p, a) = begin_modify(s, branch, revision);
            drive(s1, p, a, events).0.branch()
        }) == (match branch {
            Some(b) => b,
            None => s.branch(),
        }),
        ({
            let s1 = begin_modify(s, branch, revision).0;
            &&& s1.revision() == s.revision()
            &&& s1.hash() == s.hash()
            &&& s1.frozen() == s.frozen()
            &&& s1.repository_url() == s.repository_url()
        }),
{
    let (s1, p, a) = begin_modify(s, branch, revision);
    lemma_drive_keeps_branch(s1, p, a, events);
}

/// Adding a source without a revision asks for the newest revision of its branch, frozen
/// or not; once that revision, its hash (and, for Git, its commit time) come back, the
/// source is locked to them.
pub proof fn lemma_init_locks_newest(s: SourceView, newest: Seq<char>, hash: Seq<char>, time: u64)
    ensures
        begin_init(s, None).1 == (ActionView::FetchNewestRevision {
            url: s.repository_url(),
            branch: s.branch(),
        }),
        ({
            let (p, a) = begin_init(s, None);
            let (s2, a2) = drive(
                s,
                p,
                a,
                seq![
                    EventView::NewestRevision(newest),
                    EventView::Hash(hash),
                    EventView::LastModified(time),
                ],
            );
            &&& s2.revision() == newest
            &&& s2.hash() == hash
            &&& s2.branch() == s.branch()
            &&& s2.frozen() == s.frozen()
            &&& a2 == ActionView::Finished(None)
            &&& (s2 matches SourceView::Git(g) ==> (g.last_modified == Some(time)))
        }),
{
    reveal_with_fuel(drive, 4);
    let events = seq![
        EventView::NewestRevision(newest),
        EventView::Hash(hash),
        EventView::LastModified(time),
    ];
    assert(events.drop_first() =~= seq![EventView::Hash(hash), EventView::LastModified(time)]);
    assert(events.drop_first().drop_first() =~= seq![EventView::LastModified(time)]);
    assert(events.drop_first().drop_first().drop_first() =~= Seq::<EventView>::empty());
}

/// The commits of an update are listed from its old revision to its new one, at most
/// the number asked for, in the repository that the source follows.
pub proof fn lemma_rev_list_request(s: SourceView, old: Seq<char>, new: Seq<char>, n: usize)
    ensures
        (s matches SourceView::Git(g) ==> rev_list_request(s, old, new, n)
            == (RevListRequestView::Git { url: g.url, old_revision: old, new_revision: new, num_commits: n })),
        (s matches SourceView::GitHub(g) ==> rev_list_request(s, old, new, n)
            == (RevListRequestView::GitHub {
            repository: g.owner + "/"@ + g.repo,
            old_revision: old,
            new_revision: new,
            num_commits: n,
        })),
{
}

// ---------------------------------------------------------------------------------------------
// The machine, executable
// ---------------------------------------------------------------------------------------------
impl Source {
    fn ask_newest(&self, mode: Mode) -> (r: (Option<Pending>, Action))
        ensures
            (opt_pending(r.0), r.1@) == ask_newest(self@, mode),
    {
        let url = self.repository_url();
        let branch = self.branch().to_owned();
        (Some(Pending::NewestRevision { mode }), Action::FetchNewestRevision { url, branch })
    }

    fn start_lock(&self, revision: Revision, report: Option<Revision>) -> (r: (
        Option<Pending>,
        Action,
    ))
        ensures
            (opt_pending(r.0), r.1@) == start_lock(
                self@,
                revision@,
                match report {
                    Some(o) => Some(o@),
                    None => None,
                },
            ),
    {
        let action = match self {
            Source::Git(g) => Action::PrefetchGit {
                url: g.url().to_owned(),
                revision: revision.to_string(),
                submodules: g.submodules(),
            },
            Source::GitHub(g) => Action::PrefetchTarball {
                url: GitHubSource::url(g.owner(), g.repo(), revision.as_str()),
            },
        };
        (Some(Pending::Hash { revision, report }), action)
    }

    /// Start updating the source: by finding the newest commit of its branch.
    pub fn begin_update(&self) -> (r: (Option<Pending>, Action))
        ensures
            (opt_pending(r.0), r.1@) == begin_update(self@),
    {
        if self.frozen() {
            (None, Action::Finished(None))
        } else {
            self.ask_newest(Mode::Update)
        }
    }

    /// Start modifying the source by changing its branch and/or its revision.
    pub fn begin_modify(&mut self, branch: Option<&String>, revision: Option<&String>) -> (r: (
        Option<Pending>,
        Action,
    ))
        ensures
            (final(self)@, opt_pending(r.0), r.1@) == begin_modify(
                old(self)@,
                match branch {
                    Some(b) => Some(b@),
                    None => None,
                },
                match revision {
                    Some(v) => Some(v@),
                    None => None,
                },
            ),
    {
        let mut changed = false;
        if let Some(b) = branch {
            let same = crate::text::equal(b.as_str(), self.branch());
            if !same {
                match self {
                    Source::Git(g) => g.set_branch(b.as_str()),
                    Source::GitHub(g) => g.set_branch(b.as_str()),
                }
                changed = true;
            }
        }
        if changed && revision.is_none() {
            if self.frozen() {
                return (None, Action::Finished(None));
            } else {
                return self.ask_newest(Mode::Modify);
            }
        }
        match revision {
            Some(v) => {
                let new_revision = Revision::new(v.as_str());
                if new_revision.same_as(self.revision()) {
                    (None, Action::Finished(None))
                } else {
                    self.start_lock(new_revision, None)
                }
            },
            None => (None, Action::Finished(None)),
        }
    }

    /// Start locking a new source: to `revision` when it is given, or else to the newest
    /// revision of its branch.
    pub fn begin_init(&self, revision: Option<&String>) -> (r: (Option<Pending>, Action))
        ensures
            (opt_pending(r.0), r.1@) == begin_init(
                self@,
                match revision {
                    Some(v) => Some(v@),
                    None => None,
                },
            ),
    {
        match revision {
            Some(v) => self.start_lock(Revision::new(v.as_str()), None),
            None => self.ask_newest(Mode::Init),
        }
    }

    /// Whether `event` is the fact that `pending` waits for.
    pub fn accepts(&self, pending: &Pending, event: &Event) -> (r: bool)
        ensures
            r == accepts(self@, pending@, event@),
    {
        match pending {
            Pending::NewestRevision { .. } => matches!(event, Event::NewestRevision(_)),
            Pending::Hash { .. } => matches!(event, Event::Hash(_)),
            Pending::LastModified { .. } => matches!(event, Event::LastModified(_)) && matches!(
                self,
                Source::Git(_)
            ),
        }
    }

    /// Hand the machine the fact that it waits for: it changes the source and says what
    /// it waits for next, and what to do.
    pub fn resume(&mut self, pending: Pending, event: Event) -> (r: (Option<Pending>, Action))
        requires
            accepts(old(self)@, pending@, event@),
        ensures
            (final(self)@, opt_pending(r.0), r.1@) == resume(old(self)@, pending@, event@),
    {
        match pending {
            Pending::NewestRevision { mode } => {
                let newest = match event {
                    Event::NewestRevision(r) => r,
                    _ => {
                        proof {
                            assert(false);
                        }
                        Revision::new("")
                    },
                };
                if mode == Mode::Init {
                    self.start_lock(newest, None)
                } else if newest.same_as(self.revision()) {
                    (None, Action::Finished(None))
                } else {
                    let report = if mode == Mode::Update {
                        Some(self.revision().clone())
                    } else {
                        None
                    };
                    self.start_lock(newest, report)
                }
            },
            Pending::Hash { revision, report } => {
                let hash = match event {
                    Event::Hash(h) => h,
                    _ => {
                        proof {
                            assert(false);
                        }
                        String::new()
                    },
                };
                match self {
                    Source::Git(g) => {
                        let url = g.url().to_owned();
                        let rev_text = revision.to_string();
                        g.set_locked(revision.clone(), hash.as_str());
                        (
                            Some(Pending::LastModified { revision, report }),
                            Action::FetchLastModified { url, revision: rev_text },
                        )
                    },
                    Source::GitHub(g) => {
                        let url = GitHubSource::url(g.owner(), g.repo(), revision.as_str());
                        g.set_locked(revision.clone(), url, hash.as_str());
                        (None, Action::Finished(finished_report(report, revision)))
                    },
                }
            },
            Pending::LastModified { revision, report } => {
                let time = match event {
                    Event::LastModified(t) => t,
                    _ => {
                        proof {
                            assert(false);
                        }
                        0
                    },
                };
                match self {
                    Source::Git(g) => {
                        g.set_last_modified(time);
                        (None, Action::Finished(finished_report(report, revision)))
                    },
                    Source::GitHub(_) => {
                        proof {
                            assert(false);
                        }
                        (None, Action::Finished(None))
                    },
                }
            },
        }
    }
}

fn finished_report(report: Option<Revision>, revision: Revision) -> (r: Option<UpdateSummary>)
    ensures
        crate::sources::opt_summary(r) == report_of(
            match report {
                Some(o) => Some(o@),
                None => None,
            },
            revision@,
        ),
{
    match report {
        Some(old) => Some(UpdateSummary::new(old, revision)),
        None => None,
    }
}

// ---------------------------------------------------------------------------------------------
// Listing the commits of an update
// ---------------------------------------------------------------------------------------------
/// Where to find the commits between the two revisions of an update.
#[derive(Debug)]
pub enum RevListRequest {
    /// Ask the Git repository at `url`.
    Git { url: String, old_revision: String, new_revision: String, num_commits: usize },
    /// Ask the GitHub API about the repository `repository` (`owner/repo`).
    GitHub {
        repository: String,
        old_revision: String,
        new_revision: String,
        num_commits: usize,
    },
}

/// The plain-value model of a [`RevListRequest`].
pub enum RevListRequestView {
    Git { url: Seq<char>, old_revision: Seq<char>, new_revision: Seq<char>, num_commits: usize },
    GitHub {
        repository: Seq<char>,
        old_revision: Seq<char>,
        new_revision: Seq<char>,
        num_commits: usize,
    },
}

impl View for RevListRequest {
    type V = RevListRequestView;

    open spec fn view(&self) -> RevListRequestView {
        match self {
            RevListRequest::Git { url, old_revision, new_revision, num_commits } =>
                RevListRequestView::Git {
                url: url@,
                old_revision: old_revision@,
                new_revision: new_revision@,
                num_commits: *num_commits,
            },
            RevListRequest::GitHub { repository, old_revision, new_revision, num_commits } =>
                RevListRequestView::GitHub {
                repository: repository@,
                old_revision: old_revision@,
                new_revision: new_revision@,
                num_commits: *num_commits,
            },
        }
    }
}

/// Where the commits of an update of `s` are listed.
pub open spec fn rev_list_request(s: SourceView, old: Seq<char>, new: Seq<char>, n: usize) -> RevListRequestView {
    match s {
        SourceView::Git(g) => RevListRequestView::Git {
            url: g.url,
            old_revision: old,
            new_revision: new,
            num_commits: n,
        },
        SourceView::GitHub(g) => RevListRequestView::GitHub {
            repository: g.owner + "/"@ + g.repo,
            old_revision: old,
            new_revision: new,
            num_commits: n,
        },
    }
}

impl Source {
    /// Where to find (at most `num_commits` of) the commits between the revisions of `summary`.
    pub fn rev_list(&self, summary: &RevisionUpdate, num_commits: usize) -> (r: RevListRequest)
        ensures
            r@ == rev_list_request(
                self@,
                summary.old_revision@,
                summary.new_revision@,
                num_commits,
            ),
    {
        match self {
            Source::Git(g) => RevListRequest::Git {
                url: g.url().to_owned(),
                old_revision: summary.old_revision.to_string(),
                new_revision: summary.new_revision.to_string(),
                num_commits,
            },
            Source::GitHub(g) => {
                let mut repository = g.owner().to_owned();
                repository.append("/");
                repository.append(g.repo());
                RevListRequest::GitHub {
                    repository,
                    old_revision: summary.old_revision.to_string(),
                    new_revision: summary.new_revision.to_string(),
                    num_commits,
                }
            },
        }
    }
}

} // verus!
