//! Version 1 of the lock file.
use vstd::prelude::*;

use crate::sources::{GitHubSourceView, GitSourceView, SourceView};

verus! {

/// How Nix fetches a source.
#[derive(Debug, Clone, Copy, PartialEq, Eq, Structural)]
pub enum FetchType {
    Git,
    Tarball,
}

/// A Git source as the lock file records it.
#[derive(Debug)]
pub struct GitSource {
    pub fetch_type: FetchType,
    pub branch: String,
    pub revision: String,
    pub url: String,
    pub hash: String,
    pub last_modified: Option<u64>,
    pub submodules: bool,
    pub frozen: bool,
}

/// A GitHub source as the lock file records it.
#[derive(Debug)]
pub struct GitHubSource {
    pub fetch_type: FetchType,
    pub owner: String,
    pub repo: String,
    pub branch: String,
    pub revision: String,
    pub url: String,
    pub hash: String,
    pub frozen: bool,
}

/// A source as the lock file records it.
#[derive(Debug)]
pub enum Source {
    Git(GitSource),
    GitHub(GitHubSource),
}

/// A recorded source: how it is fetched, and the source.
pub type SourceRecord = (FetchType, SourceView);

impl View for Source {
    type V = SourceRecord;

    open spec fn view(&self) -> SourceRecord {
        match self {
            Source::Git(s) => (
                s.fetch_type,
                SourceView::Git(
                    GitSourceView {
                        url: s.url@,
                        branch: s.branch@,
                        revision: s.revision@,
                        hash: s.hash@,
                        last_modified: s.last_modified,
                        submodules: s.submodules,
                        frozen: s.frozen,
                    },
                ),
            ),
            Source::GitHub(s) => (
                s.fetch_type,
                SourceView::GitHub(
                    GitHubSourceView {
                        owner: s.owner@,
                        repo: s.repo@,
                        branch: s.branch@,
                        revision: s.revision@,
                        url: s.url@,
                        hash: s.hash@,
                        frozen: s.frozen,
                    },
                ),
            ),
        }
    }
}

/// All sources of the lock file, each under its name.
#[derive(Debug)]
pub struct Lock {
    pub sources: Vec<(String, Source)>,
}

impl View for Lock {
    type V = Seq<(Seq<char>, SourceRecord)>;

    open spec fn view(&self) -> Seq<(Seq<char>, SourceRecord)> {
        self.sources@.map_values(|e: (String, Source)| (e.0@, e.1@))
    }
}

} // verus!
