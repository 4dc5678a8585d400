//! Converting the lock file of Niv.
use vstd::prelude::*;

use crate::sources::{
    unlocked_git, unlocked_github, GitHubSource, GitSource, Source, SourceView,
};

verus! {

/// A package of a Niv lock file.
#[derive(Debug)]
pub struct Package {
    owner: Option<String>,
    repo: String,
    branch: String,
    rev: String,
}

/// The plain-value model of a [`Package`].
pub struct PackageView {
    pub owner: Option<Seq<char>>,
    pub repo: Seq<char>,
    pub branch: Seq<char>,
    pub rev: Seq<char>,
}

impl View for Package {
    type V = PackageView;

    closed spec fn view(&self) -> PackageView {
        PackageView {
            owner: match self.owner {
                Some(o) => Some(o@),
                None => None,
            },
            repo: self.repo@,
            branch: self.branch@,
            rev: self.rev@,
        }
    }
}

impl Package {
    pub fn new(owner: Option<&str>, repo: &str, branch: &str, rev: &str) -> (r: Self)
        ensures
            r@ == (PackageView {
                owner: match owner {
                    Some(o) => Some(o@),
                    None => None,
                },
                repo: repo@,
                branch: branch@,
                rev: rev@,
            }),
    {
        let owner = match owner {
            Some(o) => Some(o.to_owned()),
            None => None,
        };
        Package { owner, repo: repo.to_owned(), branch: branch.to_owned(), rev: rev.to_owned() }
    }
}

/// The Niv lock file: its packages, each under its name.
#[derive(Debug)]
pub struct LockFile(Vec<(String, Package)>);

impl View for LockFile {
    type V = Seq<(Seq<char>, PackageView)>;

    closed spec fn view(&self) -> Seq<(Seq<char>, PackageView)> {
        self.0@.map_values(|e: (String, Package)| (e.0@, e.1@))
    }
}

/// The Lon source that a Niv package becomes before it is locked: a GitHub source when
/// the package names an owner, else a Git source whose URL is the package's `repo`;
/// neither frozen, and no submodules.
pub open spec fn niv_source(p: PackageView) -> SourceView {
    match p.owner {
        Some(owner) => SourceView::GitHub(unlocked_github(owner, p.repo, p.branch, false)),
        None => SourceView::Git(unlocked_git(p.repo, p.branch, false, false)),
    }
}

/// A source to be locked to `revision` and added under `name`.
#[derive(Debug)]
pub struct UnlockedSource {
    pub name: String,
    pub source: Source,
    pub revision: String,
}

impl LockFile {
    pub fn new(packages: Vec<(String, Package)>) -> (r: Self)
        ensures
            r@ == packages@.map_values(|e: (String, Package)| (e.0@, e.1@)),
    {
        LockFile(packages)
    }

    /// Convert the packages to Lon sources: each one, in order, with the revision that Niv
    /// locked it to. Locking each of them (see [`crate::update`]) and adding them gives
    /// the Lon sources.
    pub fn convert(&self) -> (r: Vec<UnlockedSource>)
        ensures
            r@.len() == self@.len(),
            forall|i: int|
                0 <= i < r@.len() ==> {
                    &&& (#[trigger] r@[i]).name@ == self@[i].0
                    &&& r@[i].source@ == niv_source(self@[i].1)
                    &&& r@[i].revision@ == self@[i].1.rev
                },
    {
        let mut out: Vec<UnlockedSource> = Vec::new();
        let mut i: usize = 0;
        while i < self.0.len()
            invariant
                i <= self.0@.len(),
                out@.len() == i,
                forall|j: int|
                    0 <= j < i ==> {
                        &&& (#[trigger] out@[j]).name@ == self@[j].0
                        &&& out@[j].source@ == niv_source(self@[j].1)
                        &&& out@[j].revision@ == self@[j].1.rev
                    },
            decreases self.0@.len() - i,
        {
            let name = &self.0[i].0;
            let package = &self.0[i].1;
            proof {
                assert(self@[i as int] == (name@, package@));
            }
            let source = match &package.owner {
                Some(owner) => Source::GitHub(
                    GitHubSource::unlocked(
                        owner.as_str(),
                        package.repo.as_str(),
                        package.branch.as_str(),
                        false,
                    ),
                ),
                None => Source::Git(
                    GitSource::unlocked(package.repo.as_str(), package.branch.as_str(), false, false),
                ),
            };
            out.push(UnlockedSource { name: name.clone(), source, revision: package.rev.clone() });
            i = i + 1;
        }
        out
    }
}

} // verus!
