//! The sources that Lon locks, and summaries of their updates.
use vstd::prelude::*;
use vstd::string::*;

use crate::git::{CommitView, RevList, Revision};
use crate::text::{
    lemma_seq_lt_irreflexive, lemma_seq_lt_total,
    lemma_seq_lt_transitive, less_than, seq_lt,
};

verus! {

/// Where GitHub repositories live.
pub const GITHUB_URL: &'static str = "https://github.com";

// ---------------------------------------------------------------------------------------------
// Update summaries
// ---------------------------------------------------------------------------------------------
/// An update that moved a source from one revision to another.
#[derive(Debug)]
pub struct RevisionUpdate {
    pub old_revision: Revision,
    pub new_revision: Revision,
    pub rev_list: Option<RevList>,
}

/// The plain-value model of a [`RevisionUpdate`].
pub struct RevisionUpdateView {
    pub old_revision: Seq<char>,
    pub new_revision: Seq<char>,
    pub rev_list: Option<Seq<CommitView>>,
}

impl View for RevisionUpdate {
    type V = RevisionUpdateView;

    open spec fn view(&self) -> RevisionUpdateView {
        RevisionUpdateView {
            old_revision: self.old_revision@,
            new_revision: self.new_revision@,
            rev_list: match self.rev_list {
                Some(l) => Some(l@),
                None => None,
            },
        }
    }
}

impl Clone for RevisionUpdate {
    fn clone(&self) -> (r: Self)
        ensures
            r@ == self@,
    {
        let rev_list = match &self.rev_list {
            Some(l) => Some(l.clone()),
            None => None,
        };
        RevisionUpdate {
            old_revision: self.old_revision.clone(),
            new_revision: self.new_revision.clone(),
            rev_list,
        }
    }
}

impl RevisionUpdate {
    pub fn new(old_revision: Revision, new_revision: Revision) -> (r: Self)
        ensures
            r@ == (RevisionUpdateView {
                old_revision: old_revision@,
                new_revision: new_revision@,
                rev_list: None,
            }),
    {
        RevisionUpdate { old_revision, new_revision, rev_list: None }
    }

    pub fn add_rev_list(&mut self, rev_list: RevList)
        ensures
            final(self)@ == (RevisionUpdateView { rev_list: Some(rev_list@), ..old(self)@ }),
    {
        self.rev_list = Some(rev_list);
    }
}

/// An update that moved a source from one URL to another.
#[derive(Debug)]
pub struct UrlUpdate {
    pub old_url: String,
    pub new_url: String,
}

/// Information summarizing the update of a single source.
#[derive(Debug)]
pub enum UpdateSummary {
    Rev(RevisionUpdate),
    Url(UrlUpdate),
}

/// The plain-value model of an [`UpdateSummary`].
pub enum UpdateSummaryView {
    Rev(RevisionUpdateView),
    Url { old_url: Seq<char>, new_url: Seq<char> },
}

impl View for UpdateSummary {
    type V = UpdateSummaryView;

    open spec fn view(&self) -> UpdateSummaryView {
        match self {
            UpdateSummary::Rev(r) => UpdateSummaryView::Rev(r@),
            UpdateSummary::Url(u) => UpdateSummaryView::Url {
                old_url: u.old_url@,
                new_url: u.new_url@,
            },
        }
    }
}

/// The model of an optional summary.
pub open spec fn opt_summary(s: Option<UpdateSummary>) -> Option<UpdateSummaryView> {
    match s {
        Some(s) => Some(s@),
        None => None,
    }
}

/// The summary of a move from `old` to `new` without a list of commits.
pub open spec fn rev_summary(old: Seq<char>, new: Seq<char>) -> UpdateSummaryView {
    UpdateSummaryView::Rev(
        RevisionUpdateView { old_revision: old, new_revision: new, rev_list: None },
    )
}

impl Clone for UpdateSummary {
    fn clone(&self) -> (r: Self)
        ensures
            r@ == self@,
    {
        match self {
            UpdateSummary::Rev(r) => UpdateSummary::Rev(r.clone()),
            UpdateSummary::Url(u) => UpdateSummary::Url(
                UrlUpdate { old_url: u.old_url.clone(), new_url: u.new_url.clone() },
            ),
        }
    }
}

impl UpdateSummary {
    /// Create a new update summary of a move between two revisions.
    pub fn new(old_revision: Revision, new_revision: Revision) -> (r: Self)
        ensures
            r@ == rev_summary(old_revision@, new_revision@),
    {
        UpdateSummary::Rev(RevisionUpdate::new(old_revision, new_revision))
    }

    /// Same as [`UpdateSummary::new`].
    pub fn from_revs(old_revision: Revision, new_revision: Revision) -> (r: Self)
        ensures
            r@ == rev_summary(old_revision@, new_revision@),
    {
        Self::new(old_revision, new_revision)
    }

    /// Attach the list of commits between the two revisions. A URL update has no
    /// revisions and stays as it is.
    pub fn add_rev_list(&mut self, rev_list: RevList)
        ensures
            match old(self)@ {
                UpdateSummaryView::Rev(r) => final(self)@ == UpdateSummaryView::Rev(
                    RevisionUpdateView { rev_list: Some(rev_list@), ..r },
                ),
                UpdateSummaryView::Url { .. } => final(self)@ == old(self)@,
            },
    {
        match self {
            UpdateSummary::Rev(r) => r.add_rev_list(rev_list),
            UpdateSummary::Url(_) => {},
        }
    }
}

// ---------------------------------------------------------------------------------------------
// Sources
// ---------------------------------------------------------------------------------------------
/// A source fetched with `builtins.fetchGit`.
#[derive(Debug)]
pub struct GitSource {
    url: String,
    branch: String,
    revision: Revision,
    hash: String,
    last_modified: Option<u64>,
    /// Whether to fetch submodules
    submodules: bool,
    frozen: bool,
}

/// The plain-value model of a [`GitSource`].
pub struct GitSourceView {
    pub url: Seq<char>,
    pub branch: Seq<char>,
    pub revision: Seq<char>,
    pub hash: Seq<char>,
    pub last_modified: Option<u64>,
    pub submodules: bool,
    pub frozen: bool,
}

impl View for GitSource {
    type V = GitSourceView;

    closed spec fn view(&self) -> GitSourceView {
        GitSourceView {
            url: self.url@,
            branch: self.branch@,
            revision: self.revision@,
            hash: self.hash@,
            last_modified: self.last_modified,
            submodules: self.submodules,
            frozen: self.frozen,
        }
    }
}

impl Clone for GitSource {
    fn clone(&self) -> (r: Self)
        ensures
            r@ == self@,
    {
        GitSource {
            url: self.url.clone(),
            branch: self.branch.clone(),
            revision: self.revision.clone(),
            hash: self.hash.clone(),
            last_modified: self.last_modified,
            submodules: self.submodules,
            frozen: self.frozen,
        }
    }
}

impl GitSource {
    /// A source with all its locked fields given.
    pub fn from_parts(
        url: &str,
        branch: &str,
        revision: Revision,
        hash: &str,
        last_modified: Option<u64>,
        submodules: bool,
        frozen: bool,
    ) -> (r: Self)
        ensures
            r@ == (GitSourceView {
                url: url@,
                branch: branch@,
                revision: revision@,
                hash: hash@,
                last_modified,
                submodules,
                frozen,
            }),
    {
        GitSource {
            url: url.to_owned(),
            branch: branch.to_owned(),
            revision,
            hash: hash.to_owned(),
            last_modified,
            submodules,
            frozen,
        }
    }

    /// A source that is not locked yet: no revision, no hash and no modification time.
    /// Locking it (see [`crate::update`]) fills these in.
    pub fn unlocked(url: &str, branch: &str, submodules: bool, frozen: bool) -> (r: Self)
        ensures
            r@ == unlocked_git(url@, branch@, submodules, frozen),
    {
        proof {
            reveal_strlit("");
            assert(""@ =~= Seq::<char>::empty());
        }
        Self::from_parts(url, branch, Revision::new(""), "", None, submodules, frozen)
    }

    pub fn url(&self) -> (r: &str)
        ensures
            r@ == self@.url,
    {
        self.url.as_str()
    }

    pub fn branch(&self) -> (r: &str)
        ensures
            r@ == self@.branch,
    {
        self.branch.as_str()
    }

    pub fn revision(&self) -> (r: &Revision)
        ensures
            r@ == self@.revision,
    {
        &self.revision
    }

    pub fn hash(&self) -> (r: &str)
        ensures
            r@ == self@.hash,
    {
        self.hash.as_str()
    }

    pub fn last_modified(&self) -> (r: Option<u64>)
        ensures
            r == self@.last_modified,
    {
        self.last_modified
    }

    pub fn submodules(&self) -> (r: bool)
        ensures
            r == self@.submodules,
    {
        self.submodules
    }

    pub fn frozen(&self) -> (r: bool)
        ensures
            r == self@.frozen,
    {
        self.frozen
    }

    pub fn set_branch(&mut self, branch: &str)
        ensures
            final(self)@ == (GitSourceView { branch: branch@, ..old(self)@ }),
    {
        self.branch = branch.to_owned();
    }

    pub fn set_frozen(&mut self, frozen: bool)
        ensures
            final(self)@ == (GitSourceView { frozen, ..old(self)@ }),
    {
        self.frozen = frozen;
    }

    /// Record a new revision and its hash.
    pub fn set_locked(&mut self, revision: Revision, hash: &str)
        ensures
            final(self)@ == (GitSourceView { revision: revision@, hash: hash@, ..old(self)@ }),
    {
        self.revision = revision;
        self.hash = hash.to_owned();
    }

    pub fn set_last_modified(&mut self, last_modified: u64)
        ensures
            final(self)@ == (GitSourceView { last_modified: Some(last_modified), ..old(self)@ }),
    {
        self.last_modified = Some(last_modified);
    }
}

/// The model of a Git source that is not locked yet.
pub open spec fn unlocked_git(url: Seq<char>, branch: Seq<char>, submodules: bool, frozen: bool) -> GitSourceView {
    GitSourceView {
        url,
        branch,
        revision: Seq::empty(),
        hash: Seq::empty(),
        last_modified: None,
        submodules,
        frozen,
    }
}

/// A source fetched as a tarball of a GitHub repository.
#[derive(Debug)]
pub struct GitHubSource {
    owner: String,
    repo: String,
    branch: String,
    revision: Revision,
    url: String,
    hash: String,
    frozen: bool,
}

/// The plain-value model of a [`GitHubSource`].
pub struct GitHubSourceView {
    pub owner: Seq<char>,
    pub repo: Seq<char>,
    pub branch: Seq<char>,
    pub revision: Seq<char>,
    pub url: Seq<char>,
    pub hash: Seq<char>,
    pub frozen: bool,
}

impl View for GitHubSource {
    type V = GitHubSourceView;

    closed spec fn view(&self) -> GitHubSourceView {
        GitHubSourceView {
            owner: self.owner@,
            repo: self.repo@,
            branch: self.branch@,
            revision: self.revision@,
            url: self.url@,
            hash: self.hash@,
            frozen: self.frozen,
        }
    }
}

impl Clone for GitHubSource {
    fn clone(&self) -> (r: Self)
        ensures
            r@ == self@,
    {
        GitHubSource {
            owner: self.owner.clone(),
            repo: self.repo.clone(),
            branch: self.branch.clone(),
            revision: self.revision.clone(),
            url: self.url.clone(),
            hash: self.hash.clone(),
            frozen: self.frozen,
        }
    }
}

/// The URL of the tarball of `revision` of the GitHub repository `owner/repo`.
pub open spec fn github_tarball_url(owner: Seq<char>, repo: Seq<char>, revision: Seq<char>) -> Seq<char> {
    GITHUB_URL@ + "/"@ + owner + "/"@ + repo + "/archive/"@ + revision + ".tar.gz"@
}

/// The URL of the GitHub repository `owner/repo` for Git.
pub open spec fn github_git_url(owner: Seq<char>, repo: Seq<char>) -> Seq<char> {
    GITHUB_URL@ + "/"@ + owner + "/"@ + repo + ".git"@
}

impl GitHubSource {
    /// A source with all its locked fields given.
    pub fn from_parts(
        owner: &str,
        repo: &str,
        branch: &str,
        revision: Revision,
        url: &str,
        hash: &str,
        frozen: bool,
    ) -> (r: Self)
        ensures
            r@ == (GitHubSourceView {
                owner: owner@,
                repo: repo@,
                branch: branch@,
                revision: revision@,
                url: url@,
                hash: hash@,
                frozen,
            }),
    {
        GitHubSource {
            owner: owner.to_owned(),
            repo: repo.to_owned(),
            branch: branch.to_owned(),
            revision,
            url: url.to_owned(),
            hash: hash.to_owned(),
            frozen,
        }
    }

    /// A source that is not locked yet: no revision, no URL and no hash. Locking it
    /// (see [`crate::update`]) fills these in.
    pub fn unlocked(owner: &str, repo: &str, branch: &str, frozen: bool) -> (r: Self)
        ensures
            r@ == unlocked_github(owner@, repo@, branch@, frozen),
    {
        proof {
            reveal_strlit("");
            assert(""@ =~= Seq::<char>::empty());
        }
        Self::from_parts(owner, repo, branch, Revision::new(""), "", "", frozen)
    }

    /// Return the URL to a GitHub tarball for the revision of the source.
    pub fn url(owner: &str, repo: &str, revision: &str) -> (r: String)
        ensures
            r@ == github_tarball_url(owner@, repo@, revision@),
    {
        let mut s = String::from_str(GITHUB_URL);
        s.append("/");
        s.append(owner);
        s.append("/");
        s.append(repo);
        s.append("/archive/");
        s.append(revision);
        s.append(".tar.gz");
        s
    }

    /// Return the URL to the GitHub repository.
    pub fn git_url(owner: &str, repo: &str) -> (r: String)
        ensures
            r@ == github_git_url(owner@, repo@),
    {
        let mut s = String::from_str(GITHUB_URL);
        s.append("/");
        s.append(owner);
        s.append("/");
        s.append(repo);
        s.append(".git");
        s
    }

    pub fn owner(&self) -> (r: &str)
        ensures
            r@ == self@.owner,
    {
        self.owner.as_str()
    }

    pub fn repo(&self) -> (r: &str)
        ensures
            r@ == self@.repo,
    {
        self.repo.as_str()
    }

    pub fn branch(&self) -> (r: &str)
        ensures
            r@ == self@.branch,
    {
        self.branch.as_str()
    }

    pub fn revision(&self) -> (r: &Revision)
        ensures
            r@ == self@.revision,
    {
        &self.revision
    }

    pub fn locked_url(&self) -> (r: &str)
        ensures
            r@ == self@.url,
    {
        self.url.as_str()
    }

    pub fn hash(&self) -> (r: &str)
        ensures
            r@ == self@.hash,
    {
        self.hash.as_str()
    }

    pub fn frozen(&self) -> (r: bool)
        ensures
            r == self@.frozen,
    {
        self.frozen
    }

    pub fn set_branch(&mut self, branch: &str)
        ensures
            final(self)@ == (GitHubSourceView { branch: branch@, ..old(self)@ }),
    {
        self.branch = branch.to_owned();
    }

    pub fn set_frozen(&mut self, frozen: bool)
        ensures
            final(self)@ == (GitHubSourceView { frozen, ..old(self)@ }),
    {
        self.frozen = frozen;
    }

    /// Record a new revision, the URL of its tarball and the tarball's hash.
    pub fn set_locked(&mut self, revision: Revision, url: String, hash: &str)
        ensures
            final(self)@ == (GitHubSourceView {
                revision: revision@,
                url: url@,
                hash: hash@,
                ..old(self)@
            }),
    {
        self.revision = revision;
        self.url = url;
        self.hash = hash.to_owned();
    }
}

/// The model of a GitHub source that is not locked yet.
pub open spec fn unlocked_github(owner: Seq<char>, repo: Seq<char>, branch: Seq<char>, frozen: bool) -> GitHubSourceView {
    GitHubSourceView {
        owner,
        repo,
        branch,
        revision: Seq::empty(),
        url: Seq::empty(),
        hash: Seq::empty(),
        frozen,
    }
}

/// A source of either kind.
#[derive(Debug)]
pub enum Source {
    Git(GitSource),
    GitHub(GitHubSource),
}

/// The plain-value model of a [`Source`].
pub enum SourceView {
    Git(GitSourceView),
    GitHub(GitHubSourceView),
}

impl View for Source {
    type V = SourceView;

    open spec fn view(&self) -> SourceView {
        match self {
            Source::Git(s) => SourceView::Git(s@),
            Source::GitHub(s) => SourceView::GitHub(s@),
        }
    }
}

impl SourceView {
    pub open spec fn frozen(self) -> bool {
        match self {
            SourceView::Git(s) => s.frozen,
            SourceView::GitHub(s) => s.frozen,
        }
    }

    pub open spec fn branch(self) -> Seq<char> {
        match self {
            SourceView::Git(s) => s.branch,
            SourceView::GitHub(s) => s.branch,
        }
    }

    pub open spec fn revision(self) -> Seq<char> {
        match self {
            SourceView::Git(s) => s.revision,
            SourceView::GitHub(s) => s.revision,
        }
    }

    pub open spec fn hash(self) -> Seq<char> {
        match self {
            SourceView::Git(s) => s.hash,
            SourceView::GitHub(s) => s.hash,
        }
    }

    /// The source with its frozen flag set to `frozen` and nothing else changed.
    pub open spec fn with_frozen(self, frozen: bool) -> SourceView {
        match self {
            SourceView::Git(s) => SourceView::Git(GitSourceView { frozen, ..s }),
            SourceView::GitHub(s) => SourceView::GitHub(GitHubSourceView { frozen, ..s }),
        }
    }

    /// The source with its branch set to `branch` and nothing else changed.
    pub open spec fn with_branch(self, branch: Seq<char>) -> SourceView {
        match self {
            SourceView::Git(s) => SourceView::Git(GitSourceView { branch, ..s }),
            SourceView::GitHub(s) => SourceView::GitHub(GitHubSourceView { branch, ..s }),
        }
    }

    /// The URL of the Git repository whose branch the source follows.
    pub open spec fn repository_url(self) -> Seq<char> {
        match self {
            SourceView::Git(s) => s.url,
            SourceView::GitHub(s) => github_git_url(s.owner, s.repo),
        }
    }
}

impl Clone for Source {
    fn clone(&self) -> (r: Self)
        ensures
            r@ == self@,
    {
        match self {
            Source::Git(s) => Source::Git(s.clone()),
            Source::GitHub(s) => Source::GitHub(s.clone()),
        }
    }
}

impl Source {
    /// Stop the source from following its branch.
    pub fn freeze(&mut self)
        ensures
            final(self)@ == old(self)@.with_frozen(true),
    {
        match self {
            Source::Git(s) => s.set_frozen(true),
            Source::GitHub(s) => s.set_frozen(true),
        }
    }

    /// Let the source follow its branch again.
    pub fn unfreeze(&mut self)
        ensures
            final(self)@ == old(self)@.with_frozen(false),
    {
        match self {
            Source::Git(s) => s.set_frozen(false),
            Source::GitHub(s) => s.set_frozen(false),
        }
    }

    /// Return whether source is frozen.
    pub fn frozen(&self) -> (r: bool)
        ensures
            r == self@.frozen(),
    {
        match self {
            Source::Git(s) => s.frozen(),
            Source::GitHub(s) => s.frozen(),
        }
    }

    pub fn branch(&self) -> (r: &str)
        ensures
            r@ == self@.branch(),
    {
        match self {
            Source::Git(s) => s.branch(),
            Source::GitHub(s) => s.branch(),
        }
    }

    pub fn revision(&self) -> (r: &Revision)
        ensures
            r@ == self@.revision(),
    {
        match self {
            Source::Git(s) => s.revision(),
            Source::GitHub(s) => s.revision(),
        }
    }

    /// The URL of the Git repository whose branch the source follows.
    pub fn repository_url(&self) -> (r: String)
        ensures
            r@ == self@.repository_url(),
    {
        match self {
            Source::Git(s) => s.url().to_owned(),
            Source::GitHub(s) => GitHubSource::git_url(s.owner(), s.repo()),
        }
    }
}

/// Freezing and then unfreezing a source gives back the source as it was, when it was
/// not frozen before; freezing twice is freezing once.
pub proof fn lemma_freeze_unfreeze(s: SourceView)
    ensures
        !s.frozen() ==> s.with_frozen(true).with_frozen(false) == s,
        s.with_frozen(true).with_frozen(true) == s.with_frozen(true),
        s.with_frozen(true).frozen(),
        !s.with_frozen(false).frozen(),
{
}

// ---------------------------------------------------------------------------------------------
// The set of sources, kept sorted by name
// ---------------------------------------------------------------------------------------------
/// The text of each name.
pub open spec fn name_views(names: Seq<String>) -> Seq<Seq<char>> {
    names.map_values(|n: String| n@)
}

/// Every name orders strictly before the names after it.
pub open spec fn strictly_sorted(names: Seq<Seq<char>>) -> bool {
    forall|i: int, j: int| 0 <= i < j < names.len() ==> seq_lt(#[trigger] names[i], #[trigger] names[j])
}

/// Whether some name is `k`.
pub open spec fn has_name(names: Seq<Seq<char>>, k: Seq<char>) -> bool {
    exists|i: int| 0 <= i < names.len() && names[i] == k
}

/// A position of the name `k`.
pub open spec fn index_of_name(names: Seq<Seq<char>>, k: Seq<char>) -> int {
    choose|i: int| 0 <= i < names.len() && names[i] == k
}

/// The map that distinct names and the sources beside them describe.
pub open spec fn entries_map(names: Seq<Seq<char>>, sources: Seq<SourceView>) -> Map<
    Seq<char>,
    SourceView,
> {
    Map::new(|k: Seq<char>| has_name(names, k), |k: Seq<char>| sources[index_of_name(names, k)])
}

/// The views of a sequence of sources.
pub open spec fn source_views(sources: Seq<Source>) -> Seq<SourceView> {
    sources.map_values(|s: Source| s@)
}

proof fn lemma_sorted_distinct(names: Seq<Seq<char>>, i: int, j: int)
    requires
        strictly_sorted(names),
        0 <= i < names.len(),
        0 <= j < names.len(),
        names[i] == names[j],
    ensures
        i == j,
{
    if i < j {
        assert(seq_lt(names[i], names[j]));
        lemma_seq_lt_irreflexive(names[i]);
    } else if j < i {
        assert(seq_lt(names[j], names[i]));
        lemma_seq_lt_irreflexive(names[i]);
    }
}

/// In a map of sorted names, each name maps to the source beside it.
pub proof fn lemma_entries_map_at(names: Seq<Seq<char>>, sources: Seq<SourceView>, i: int)
    requires
        strictly_sorted(names),
        0 <= i < names.len(),
    ensures
        entries_map(names, sources).contains_key(names[i]),
        entries_map(names, sources)[names[i]] == sources[i],
{
    let k = names[i];
    assert(has_name(names, k));
    let j = index_of_name(names, k);
    lemma_sorted_distinct(names, i, j);
}

/// Replacing the source beside a name replaces what the map holds for that name.
proof fn lemma_map_update(names: Seq<Seq<char>>, sources: Seq<Source>, p: int)
    requires
        strictly_sorted(names),
        names.len() == sources.len(),
        0 <= p < names.len(),
    ensures
        forall|v: Source|
            #[trigger] entries_map(names, source_views(sources.update(p, v))) == entries_map(
                names,
                source_views(sources),
            ).insert(names[p], v@),
{
    assert forall|v: Source|
        #[trigger] entries_map(names, source_views(sources.update(p, v))) == entries_map(
            names,
            source_views(sources),
        ).insert(names[p], v@) by {
        let os = source_views(sources);
        let s = source_views(sources.update(p, v));
        assert(s =~= os.update(p, v@));
        let m = entries_map(names, s);
        let om = entries_map(names, os).insert(names[p], v@);
        assert forall|k: Seq<char>| #[trigger] m.contains_key(k) <==> om.contains_key(k) by {
            if k == names[p] {
                assert(has_name(names, k));
            }
        }
        assert forall|k: Seq<char>| #[trigger] m.contains_key(k) implies m[k] == om[k] by {
            let i = index_of_name(names, k);
            lemma_entries_map_at(names, s, i);
            lemma_entries_map_at(names, os, i);
            if k == names[p] {
                lemma_sorted_distinct(names, i, p);
            }
        }
        assert(m =~= om);
    }
}

/// After adding a source under a name, the name is there with that source; after removing
/// a name, it is gone; adding a new name and removing it again leaves the sources as they
/// were; and adding or removing a name leaves every other name as it was.
pub proof fn lemma_add_remove(
    m: Map<Seq<char>, SourceView>,
    name: Seq<char>,
    source: SourceView,
    other: Seq<char>,
)
    requires
        other != name,
    ensures
        m.insert(name, source).contains_key(name),
        m.insert(name, source)[name] == source,
        !m.remove(name).contains_key(name),
        !m.contains_key(name) ==> m.insert(name, source).remove(name) == m,
        m.insert(name, source).contains_key(other) == m.contains_key(other),
        m.remove(name).contains_key(other) == m.contains_key(other),
        m.contains_key(other) ==> m.insert(name, source)[other] == m[other] && m.remove(name)[other]
            == m[other],
{
    if !m.contains_key(name) {
        assert(m.insert(name, source).remove(name) =~= m);
    }
}

/// All the sources, each under its name, ordered by name.
pub struct Sources {
    names: Vec<String>,
    sources: Vec<Source>,
}

impl View for Sources {
    type V = Map<Seq<char>, SourceView>;

    closed spec fn view(&self) -> Map<Seq<char>, SourceView> {
        entries_map(name_views(self.names@), source_views(self.sources@))
    }
}

impl Sources {
    #[verifier::type_invariant]
    spec fn sorted(self) -> bool {
        &&& strictly_sorted(name_views(self.names@))
        &&& self.names@.len() == self.sources@.len()
    }

    /// The names of the sources, in the order in which they are kept.
    pub closed spec fn names_in_order(self) -> Seq<Seq<char>> {
        name_views(self.names@)
    }

    /// The sources, in the order of their names.
    pub closed spec fn sources_in_order(self) -> Seq<SourceView> {
        source_views(self.sources@)
    }

    /// Where `name` is or would be kept: the first position whose name does not order
    /// before `name`, and whether the name there is `name`.
    fn position(&self, name: &str) -> (r: (usize, bool))
        ensures
            r.0 <= self.names@.len(),
            forall|i: int| 0 <= i < r.0 ==> seq_lt(#[trigger] name_views(self.names@)[i], name@),
            r.0 < self.names@.len() ==> !seq_lt(name_views(self.names@)[r.0 as int], name@),
            r.1 == (r.0 < self.names@.len() && name_views(self.names@)[r.0 as int] == name@),
            !r.1 ==> forall|i: int|
                r.0 <= i < self.names@.len() ==> seq_lt(name@, #[trigger] name_views(self.names@)[i]),
            r.1 <==> self@.contains_key(name@),
            r.1 ==> self@[name@] == source_views(self.sources@)[r.0 as int],
    {
        proof {
            use_type_invariant(self);
        }
        let ghost names = name_views(self.names@);
        let mut p: usize = 0;
        while p < self.names.len() && less_than(self.names[p].as_str(), name)
            invariant
                p <= self.names@.len(),
                names == name_views(self.names@),
                strictly_sorted(names),
                forall|i: int| 0 <= i < p ==> seq_lt(#[trigger] names[i], name@),
            decreases self.names@.len() - p,
        {
            p = p + 1;
        }
        let found = if p < self.names.len() {
            !less_than(name, self.names[p].as_str())
        } else {
            false
        };
        proof {
            lemma_seq_lt_irreflexive(name@);
            if p < self.names@.len() {
                lemma_seq_lt_total(names[p as int], name@);
                if !found {
                    assert forall|i: int| p <= i < self.names@.len() implies seq_lt(
                        name@,
                        #[trigger] names[i],
                    ) by {
                        if i > p {
                            lemma_seq_lt_transitive(name@, names[p as int], names[i]);
                        }
                    }
                }
            }
            let sv = source_views(self.sources@);
            if found {
                lemma_entries_map_at(names, sv, p as int);
            } else if self@.contains_key(name@) {
                let i = index_of_name(names, name@);
                if i < p {
                    assert(seq_lt(names[i], name@));
                } else {
                    assert(seq_lt(name@, names[i]));
                }
            }
        }
        (p, found)
    }

    /// Add a new source, or replace the source of that name.
    pub fn add(&mut self, name: &str, source: Source)
        ensures
            final(self)@ == old(self)@.insert(name@, source@),
    {
        proof {
            use_type_invariant(&*self);
        }
        let (p, found) = self.position(name);
        let ghost on = name_views(self.names@);
        let ghost os = source_views(self.sources@);
        let ghost sv = source@;
        let mut taken = Sources { names: Vec::new(), sources: Vec::new() };
        std::mem::swap(&mut taken, self);
        let Sources { mut names, mut sources } = taken;
        if found {
            names.set(p, name.to_owned());
            sources.set(p, source);
        } else {
            names.insert(p, name.to_owned());
            sources.insert(p, source);
        }
        proof {
            let n = name_views(names@);
            let s = source_views(sources@);
            if found {
                assert(n =~= on.update(p as int, name@));
                assert(s =~= os.update(p as int, sv));
            } else {
                assert(n =~= on.insert(p as int, name@));
                assert(s =~= os.insert(p as int, sv));
                on.insert_ensures(p as int, name@);
                os.insert_ensures(p as int, sv);
            }
            // The order is kept.
            assert forall|i: int, j: int| 0 <= i < j < n.len() implies seq_lt(
                #[trigger] n[i],
                #[trigger] n[j],
            ) by {
                if found {
                    if i == p {
                        lemma_seq_lt_total(on[p as int], on[j]);
                    }
                    if j == p {
                        assert(seq_lt(on[i], name@));
                    }
                    if i != p && j != p {
                        assert(seq_lt(on[i], on[j]));
                    }
                } else {
                    if j < p {
                        assert(seq_lt(on[i], on[j]));
                    } else if j == p {
                        assert(n[i] == on[i]);
                    } else if i < p {
                        assert(n[j] == on[j - 1]);
                        assert(seq_lt(on[i], name@));
                        lemma_seq_lt_transitive(on[i], name@, on[j - 1]);
                    } else if i == p {
                        assert(n[j] == on[j - 1]);
                    } else {
                        assert(n[i] == on[i - 1]);
                        assert(n[j] == on[j - 1]);
                        assert(seq_lt(on[i - 1], on[j - 1]));
                    }
                }
            }
            // The map gains `name`.
            let m = entries_map(n, s);
            let om = entries_map(on, os).insert(name@, sv);
            assert forall|k: Seq<char>| #[trigger] m.contains_key(k) <==> om.contains_key(k) by {
                if m.contains_key(k) {
                    let i = index_of_name(n, k);
                    if k != name@ {
                        if found || i < p {
                            assert(on[i] == k);
                        } else {
                            assert(on[i - 1] == k);
                        }
                    }
                }
                if om.contains_key(k) {
                    if k == name@ {
                        assert(n[p as int] == k);
                    } else {
                        let i = index_of_name(on, k);
                        if found || i < p {
                            assert(n[i] == k);
                        } else {
                            assert(n[i + 1] == k);
                        }
                    }
                }
            }
            assert forall|k: Seq<char>| #[trigger] m.contains_key(k) implies m[k] == om[k] by {
                let i = index_of_name(n, k);
                lemma_entries_map_at(n, s, i);
                if i == p {
                    assert(n[i] == name@);
                } else {
                    let oi = if found || i < p {
                        i
                    } else {
                        i - 1
                    };
                    assert(n[i] == on[oi] && s[i] == os[oi]);
                    lemma_entries_map_at(on, os, oi);
                    if k == name@ {
                        assert(n[p as int] == name@);
                        lemma_sorted_distinct(n, i, p as int);
                    }
                }
            }
            assert(m =~= om);
        }
        *self = Sources { names, sources };
    }

    /// Remove a source.
    pub fn remove(&mut self, name: &str)
        ensures
            final(self)@ == old(self)@.remove(name@),
    {
        proof {
            use_type_invariant(&*self);
        }
        let (p, found) = self.position(name);
        let ghost on = name_views(self.names@);
        let ghost os = source_views(self.sources@);
        if found {
            let mut taken = Sources { names: Vec::new(), sources: Vec::new() };
            std::mem::swap(&mut taken, self);
            let Sources { mut names, mut sources } = taken;
            let _removed_name = names.remove(p);
            let _removed_source = sources.remove(p);
            proof {
                let n = name_views(names@);
                let s = source_views(sources@);
                assert(n =~= on.remove(p as int));
                assert(s =~= os.remove(p as int));
                on.remove_ensures(p as int);
                os.remove_ensures(p as int);
                assert forall|i: int, j: int| 0 <= i < j < n.len() implies seq_lt(
                    #[trigger] n[i],
                    #[trigger] n[j],
                ) by {
                    let oi = if i < p {
                        i
                    } else {
                        i + 1
                    };
                    let oj = if j < p {
                        j
                    } else {
                        j + 1
                    };
                    assert(n[i] == on[oi]);
                    assert(n[j] == on[oj]);
                }
                let m = entries_map(n, s);
                let om = entries_map(on, os).remove(name@);
                assert forall|k: Seq<char>| #[trigger] m.contains_key(k) <==> om.contains_key(k) by {
                    if m.contains_key(k) {
                        let i = index_of_name(n, k);
                        let oi = if i < p {
                            i
                        } else {
                            i + 1
                        };
                        assert(on[oi] == k);
                        if k == name@ {
                            lemma_sorted_distinct(on, oi, p as int);
                        }
                    }
                    if om.contains_key(k) {
                        let i = index_of_name(on, k);
                        if i < p {
                            assert(n[i] == k);
                        } else {
                            assert(i != p);
                            assert(n[i - 1] == k);
                        }
                    }
                }
                assert forall|k: Seq<char>| #[trigger] m.contains_key(k) implies m[k] == om[k] by {
                    let i = index_of_name(n, k);
                    lemma_entries_map_at(n, s, i);
                    let oi = if i < p {
                        i
                    } else {
                        i + 1
                    };
                    assert(n[i] == on[oi] && s[i] == os[oi]);
                    lemma_entries_map_at(on, os, oi);
                }
                assert(m =~= om);
            }
            *self = Sources { names, sources };
        } else {
            assert(self@.remove(name@) =~= self@);
        }
    }

    /// Get a mutable source: changes made through it are changes of the source of that
    /// name, and of nothing else.
    pub fn get_mut(&mut self, name: &str) -> (r: Option<&mut Source>)
        ensures
            r is None <==> !old(self)@.contains_key(name@),
            r is Some ==> (*r.unwrap())@ == old(self)@[name@],
            r is Some ==> final(self)@ == old(self)@.insert(name@, (*final(r.unwrap()))@),
            r is None ==> final(self)@ == old(self)@,
    {
        proof {
            use_type_invariant(&*self);
        }
        let (p, found) = self.position(name);
        if found {
            proof {
                lemma_map_update(name_views(self.names@), self.sources@, p as int);
            }
            let r = &mut self.sources[p];
            Some(r)
        } else {
            None
        }
    }

    /// The source named `name`, if there is one.
    pub fn get(&self, name: &str) -> (r: Option<&Source>)
        ensures
            r is None <==> !self@.contains_key(name@),
            r is Some ==> (*r.unwrap())@ == self@[name@],
    {
        proof {
            use_type_invariant(self);
        }
        let (p, found) = self.position(name);
        if found {
            Some(&self.sources[p])
        } else {
            None
        }
    }

    /// Check whether a source is already inside the map.
    pub fn contains(&self, name: &str) -> (r: bool)
        ensures
            r == self@.contains_key(name@),
    {
        let (_p, found) = self.position(name);
        found
    }

    /// Return the list of source names, in order: each name once, every name before the
    /// names that order after it.
    pub fn names(&self) -> (r: Vec<&String>)
        ensures
            r@.len() == self.names_in_order().len(),
            forall|i: int| 0 <= i < r@.len() ==> (#[trigger] r@[i])@ == self.names_in_order()[i],
            strictly_sorted(self.names_in_order()),
            forall|k: Seq<char>| self@.contains_key(k) <==> self.names_in_order().contains(k),
    {
        proof {
            use_type_invariant(self);
            self.lemma_contains();
        }
        let mut r: Vec<&String> = Vec::new();
        let mut i: usize = 0;
        while i < self.names.len()
            invariant
                i <= self.names@.len(),
                r@.len() == i,
                forall|j: int| 0 <= j < i ==> (#[trigger] r@[j])@ == name_views(self.names@)[j],
            decreases self.names@.len() - i,
        {
            r.push(&self.names[i]);
            i = i + 1;
        }
        r
    }

    /// The name at position `i` in the order of names.
    pub fn name_at(&self, i: usize) -> (r: &String)
        requires
            i < self.names_in_order().len(),
        ensures
            r@ == self.names_in_order()[i as int],
    {
        &self.names[i]
    }

    /// The source at position `i` in the order of names.
    pub fn source_at(&self, i: usize) -> (r: &Source)
        requires
            i < self.names_in_order().len(),
        ensures
            r@ == self.sources_in_order()[i as int],
    {
        proof {
            use_type_invariant(self);
        }
        &self.sources[i]
    }

    /// Number of sources. The names are kept sorted, each beside its source, and the map
    /// is what they describe.
    pub fn len(&self) -> (r: usize)
        ensures
            r == self.names_in_order().len(),
            r == self.sources_in_order().len(),
            strictly_sorted(self.names_in_order()),
            self@ == entries_map(self.names_in_order(), self.sources_in_order()),
            forall|k: Seq<char>| self@.contains_key(k) <==> self.names_in_order().contains(k),
    {
        proof {
            use_type_invariant(self);
            self.lemma_contains();
        }
        self.names.len()
    }

    proof fn lemma_contains(self)
        ensures
            forall|k: Seq<char>| self@.contains_key(k) <==> self.names_in_order().contains(k),
    {
        assert forall|k: Seq<char>| self@.contains_key(k) <==> self.names_in_order().contains(
            k,
        ) by {
            if self.names_in_order().contains(k) {
                assert(has_name(self.names_in_order(), k));
            }
        }
    }

}

impl Default for Sources {
    fn default() -> (r: Self)
        ensures
            r@ == Map::<Seq<char>, SourceView>::empty(),
            r.names_in_order() == Seq::<Seq<char>>::empty(),
    {
        let r = Sources { names: Vec::new(), sources: Vec::new() };
        assert(name_views(r.names@) =~= Seq::<Seq<char>>::empty());
        assert(entries_map(name_views(r.names@), source_views(r.sources@)) =~= Map::<
            Seq<char>,
            SourceView,
        >::empty());
        r
    }
}

impl Clone for Sources {
    fn clone(&self) -> (r: Self)
        ensures
            r@ == self@,
            r.names_in_order() == self.names_in_order(),
            r.sources_in_order() == self.sources_in_order(),
    {
        proof {
            use_type_invariant(self);
        }
        let mut names: Vec<String> = Vec::new();
        let mut sources: Vec<Source> = Vec::new();
        let mut i: usize = 0;
        while i < self.names.len()
            invariant
                i <= self.names@.len(),
                self.names@.len() == self.sources@.len(),
                names@.len() == i,
                sources@.len() == i,
                forall|j: int| 0 <= j < i ==> (#[trigger] names@[j])@ == self.names@[j]@,
                forall|j: int| 0 <= j < i ==> (#[trigger] sources@[j])@ == self.sources@[j]@,
            decreases self.names@.len() - i,
        {
            let n = self.names[i].clone();
            let src = self.sources[i].clone();
            let ghost (on, os) = (names@, sources@);
            names.push(n);
            sources.push(src);
            proof {
                assert(names@ == on.push(n));
                assert(sources@ == os.push(src));
                assert(names@[i as int]@ == self.names@[i as int]@);
                assert(sources@[i as int]@ == self.sources@[i as int]@);
            }
            i = i + 1;
        }
        proof {
            assert(name_views(names@) =~= name_views(self.names@));
            assert(source_views(sources@) =~= source_views(self.sources@));
        }
        Sources { names, sources }
    }
}

} // verus!
