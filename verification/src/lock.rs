//! The lock file: what it holds and where it lives.
use vstd::prelude::*;
use vstd::string::*;

use crate::sources::{
    entries_map, strictly_sorted, GitHubSource, GitSource, Source, SourceView, Sources,
    lemma_entries_map_at,
};
use crate::git::Revision;
use crate::text::{lemma_seq_lt_asymmetric, lemma_seq_lt_irreflexive, seq_lt};

pub mod v1;

use v1::{FetchType, SourceRecord};

verus! {

/// The name of the lock file inside a directory.
pub const LOCK_FILENAME: &'static str = "lon.lock";

/// Lock containing all information necessary to retrieve the locked resources.
///
/// Only add a new version when it is backwards incompatible. Backwards compatible changes
/// (e.g. adding new fields) should be done in the same version.
#[derive(Debug)]
pub enum Lock {
    V1(v1::Lock),
}

/// `name` inside the directory `directory`: joined with a `/` unless the directory is
/// empty or already ends with one.
pub open spec fn path_in(directory: Seq<char>, name: Seq<char>) -> Seq<char> {
    if directory.len() == 0 {
        name
    } else if directory.last() == '/' {
        directory + name
    } else {
        directory + "/"@ + name
    }
}

impl Lock {
    /// The path of the lock file inside `directory`.
    pub fn path(directory: &str) -> (r: String)
        ensures
            r@ == path_in(directory@, LOCK_FILENAME@),
    {
        let n = directory.unicode_len();
        let mut r = directory.to_owned();
        if n > 0 && directory.get_char(n - 1) != '/' {
            r.append("/");
        }
        r.append(LOCK_FILENAME);
        r
    }
}

// ---------------------------------------------------------------------------------------------
// Converting between the sources and the lock file
// ---------------------------------------------------------------------------------------------
/// The fetch type that the lock file records for a kind of source.
pub open spec fn fetch_type_of(s: SourceView) -> FetchType {
    match s {
        SourceView::Git(_) => FetchType::Git,
        SourceView::GitHub(_) => FetchType::Tarball,
    }
}

/// What the lock file records of a source.
pub open spec fn record_of(s: SourceView) -> SourceRecord {
    (fetch_type_of(s), s)
}

/// The sources that a sequence of named records describes: each name maps to the
/// source that it was last recorded with.
pub open spec fn records_map(e: Seq<(Seq<char>, SourceRecord)>) -> Map<Seq<char>, SourceView>
    decreases e.len(),
{
    if e.len() == 0 {
        Map::empty()
    } else {
        records_map(e.drop_last()).insert(e.last().0, e.last().1.1)
    }
}

/// The names of a sequence of named records.
pub open spec fn record_names(e: Seq<(Seq<char>, SourceRecord)>) -> Seq<Seq<char>> {
    e.map_values(|r: (Seq<char>, SourceRecord)| r.0)
}

/// The sources of a sequence of named records.
pub open spec fn record_sources(e: Seq<(Seq<char>, SourceRecord)>) -> Seq<SourceView> {
    e.map_values(|r: (Seq<char>, SourceRecord)| r.1.1)
}

/// The records of the latest lock file for sources kept in the order `names`.
pub open spec fn latest_records(names: Seq<Seq<char>>, sources: Seq<SourceView>) -> Seq<
    (Seq<char>, SourceRecord),
> {
    Seq::new(names.len(), |i: int| (names[i], record_of(sources[i])))
}

impl Source {
    /// The source that the lock file records.
    pub fn from_lock_source(value: &v1::Source) -> (r: Self)
        ensures
            r@ == value@.1,
    {
        match value {
            v1::Source::Git(s) => Source::Git(
                GitSource::from_parts(
                    s.url.as_str(),
                    s.branch.as_str(),
                    Revision::new(s.revision.as_str()),
                    s.hash.as_str(),
                    s.last_modified,
                    s.submodules,
                    s.frozen,
                ),
            ),
            v1::Source::GitHub(s) => Source::GitHub(
                GitHubSource::from_parts(
                    s.owner.as_str(),
                    s.repo.as_str(),
                    s.branch.as_str(),
                    Revision::new(s.revision.as_str()),
                    s.url.as_str(),
                    s.hash.as_str(),
                    s.frozen,
                ),
            ),
        }
    }

    /// What the lock file records of the source.
    pub fn to_lock_source(&self) -> (r: v1::Source)
        ensures
            r@ == record_of(self@),
    {
        match self {
            Source::Git(s) => v1::Source::Git(
                v1::GitSource {
                    fetch_type: FetchType::Git,
                    branch: s.branch().to_owned(),
                    revision: s.revision().to_string(),
                    url: s.url().to_owned(),
                    hash: s.hash().to_owned(),
                    last_modified: s.last_modified(),
                    submodules: s.submodules(),
                    frozen: s.frozen(),
                },
            ),
            Source::GitHub(s) => v1::Source::GitHub(
                v1::GitHubSource {
                    fetch_type: FetchType::Tarball,
                    owner: s.owner().to_owned(),
                    repo: s.repo().to_owned(),
                    branch: s.branch().to_owned(),
                    revision: s.revision().to_string(),
                    url: s.locked_url().to_owned(),
                    hash: s.hash().to_owned(),
                    frozen: s.frozen(),
                },
            ),
        }
    }
}

impl Sources {
    /// Read the sources that a lock file holds.
    pub fn from_lock(value: Lock) -> (r: Self)
        ensures
            match value {
                Lock::V1(l) => r@ == records_map(l@),
            },
    {
        match value {
            Lock::V1(l) => Self::from_lock_v1(l),
        }
    }

    /// Read the sources that a version 1 lock file holds.
    pub fn from_lock_v1(value: v1::Lock) -> (r: Self)
        ensures
            r@ == records_map(value@),
    {
        let mut sources = Sources::default();
        let mut i: usize = 0;
        while i < value.sources.len()
            invariant
                i <= value.sources@.len(),
                sources@ == records_map(value@.take(i as int)),
            decreases value.sources@.len() - i,
        {
            let name = value.sources[i].0.as_str();
            let source = Source::from_lock_source(&value.sources[i].1);
            sources.add(name, source);
            proof {
                let t = value@.take(i + 1);
                assert(t.drop_last() =~= value@.take(i as int));
            }
            i = i + 1;
        }
        proof {
            assert(value@.take(value@.len() as int) =~= value@);
        }
        sources
    }

    /// Convert the sources to the latest lock format: every source, in the order of
    /// their names.
    pub fn into_latest_lock(self) -> (r: Lock)
        ensures
            r matches Lock::V1(l) && l@ == latest_records(
                self.names_in_order(),
                self.sources_in_order(),
            ),
    {
        let n = self.len();
        let mut entries: Vec<(String, v1::Source)> = Vec::new();
        let mut i: usize = 0;
        while i < n
            invariant
                n == self.names_in_order().len(),
                n == self.sources_in_order().len(),
                i <= n,
                entries@.len() == i,
                forall|j: int|
                    0 <= j < i ==> (#[trigger] entries@[j]).0@ == self.names_in_order()[j]
                        && entries@[j].1@ == record_of(self.sources_in_order()[j]),
            decreases n - i,
        {
            let name = self.name_at(i).clone();
            let record = self.source_at(i).to_lock_source();
            entries.push((name, record));
            i = i + 1;
        }
        let l = v1::Lock { sources: entries };
        proof {
            assert(l@ =~= latest_records(self.names_in_order(), self.sources_in_order()));
        }
        Lock::V1(l)
    }
}

// ---------------------------------------------------------------------------------------------
// The laws of the conversion
// ---------------------------------------------------------------------------------------------
/// The map of distinct names is the map of their records.
proof fn lemma_records_map_distinct(e: Seq<(Seq<char>, SourceRecord)>)
    requires
        strictly_sorted(record_names(e)),
    ensures
        records_map(e) == entries_map(record_names(e), record_sources(e)),
    decreases e.len(),
{
    let names = record_names(e);
    let sources = record_sources(e);
    if e.len() == 0 {
        assert(entries_map(names, sources) =~= Map::<Seq<char>, SourceView>::empty());
    } else {
        let d = e.drop_last();
        assert(record_names(d) =~= names.drop_last());
        assert(record_sources(d) =~= sources.drop_last());
        lemma_records_map_distinct(d);
        let m = entries_map(names, sources);
        let om = entries_map(names.drop_last(), sources.drop_last()).insert(
            e.last().0,
            e.last().1.1,
        );
        let last = e.len() - 1;
        assert forall|k: Seq<char>| #[trigger] m.contains_key(k) <==> om.contains_key(k) by {
            if m.contains_key(k) {
                let i = crate::sources::index_of_name(names, k);
                if i < last {
                    assert(names.drop_last()[i] == k);
                }
            }
            if om.contains_key(k) && k != e.last().0 {
                let i = crate::sources::index_of_name(names.drop_last(), k);
                assert(names[i] == k);
            }
            if k == e.last().0 {
                assert(names[last] == k);
            }
        }
        assert forall|k: Seq<char>| #[trigger] m.contains_key(k) implies m[k] == om[k] by {
            let i = crate::sources::index_of_name(names, k);
            lemma_entries_map_at(names, sources, i);
            if i < last {
                lemma_entries_map_at(names.drop_last(), sources.drop_last(), i);
                assert(seq_lt(names[i], names[last]));
                lemma_seq_lt_irreflexive(names[i]);
            }
        }
        assert(m =~= om);
    }
}

/// Two strictly sorted sequences that hold the same names are the same sequence.
proof fn lemma_sorted_unique(a: Seq<Seq<char>>, b: Seq<Seq<char>>)
    requires
        strictly_sorted(a),
        strictly_sorted(b),
        forall|k: Seq<char>| a.contains(k) <==> b.contains(k),
    ensures
        a == b,
    decreases a.len() + b.len(),
{
    if a.len() == 0 {
        if b.len() > 0 {
            assert(b.contains(b[0]));
        }
        assert(a =~= b);
    } else if b.len() == 0 {
        assert(a.contains(a[0]));
    } else {
        assert(a.contains(a[0]));
        assert(b.contains(b[0]));
        let i = choose|i: int| 0 <= i < a.len() && a[i] == b[0];
        let j = choose|j: int| 0 <= j < b.len() && b[j] == a[0];
        if i > 0 && j > 0 {
            assert(seq_lt(a[0], a[i]));
            assert(seq_lt(b[0], b[j]));
            lemma_seq_lt_asymmetric(a[0], b[0]);
        }
        if i > 0 && j == 0 {
            assert(seq_lt(a[0], a[i]));
            lemma_seq_lt_irreflexive(a[0]);
        }
        if i == 0 && j > 0 {
            assert(seq_lt(b[0], b[j]));
            lemma_seq_lt_irreflexive(b[0]);
        }
        assert(a[0] == b[0]);
        let a1 = a.drop_first();
        let b1 = b.drop_first();
        assert forall|k: Seq<char>| a1.contains(k) <==> b1.contains(k) by {
            if a1.contains(k) {
                let x = choose|x: int| 0 <= x < a1.len() && a1[x] == k;
                assert(a[x + 1] == k);
                assert(seq_lt(a[0], k));
                assert(b.contains(k));
                let y = choose|y: int| 0 <= y < b.len() && b[y] == k;
                if y == 0 {
                    lemma_seq_lt_irreflexive(k);
                }
                assert(b1[y - 1] == k);
            }
            if b1.contains(k) {
                let x = choose|x: int| 0 <= x < b1.len() && b1[x] == k;
                assert(b[x + 1] == k);
                assert(seq_lt(b[0], k));
                assert(a.contains(k));
                let y = choose|y: int| 0 <= y < a.len() && a[y] == k;
                if y == 0 {
                    lemma_seq_lt_irreflexive(k);
                }
                assert(a1[y - 1] == k);
            }
        }
        lemma_sorted_unique(a1, b1);
        assert(a =~= seq![a[0]] + a1);
        assert(b =~= seq![b[0]] + b1);
    }
}

/// Writing sources to a lock file and reading them back gives the same sources.
pub proof fn lemma_sources_roundtrip(names: Seq<Seq<char>>, sources: Seq<SourceView>)
    requires
        strictly_sorted(names),
        names.len() == sources.len(),
    ensures
        records_map(latest_records(names, sources)) == entries_map(names, sources),
{
    let lock = latest_records(names, sources);
    assert(record_names(lock) =~= names);
    assert(record_sources(lock) =~= sources);
    lemma_records_map_distinct(lock);
}

/// Reading a lock file into sources and writing them back gives the same lock file, when
/// its names are in order, each once, and each source is recorded with the fetch type
/// of its kind. (`names` and `sources` are the sources as they are kept: in order of
/// their names.)
pub proof fn lemma_lock_roundtrip(
    lock: Seq<(Seq<char>, SourceRecord)>,
    names: Seq<Seq<char>>,
    sources: Seq<SourceView>,
)
    requires
        strictly_sorted(record_names(lock)),
        forall|i: int| 0 <= i < lock.len() ==> (#[trigger] lock[i]).1 == record_of(lock[i].1.1),
        strictly_sorted(names),
        names.len() == sources.len(),
        entries_map(names, sources) == records_map(lock),
    ensures
        latest_records(names, sources) == lock,
{
    let s = entries_map(names, sources);
    let written = latest_records(names, sources);
    lemma_records_map_distinct(lock);
    let ln = record_names(lock);
    let ls = record_sources(lock);
    assert forall|k: Seq<char>| ln.contains(k) <==> names.contains(k) by {
        if ln.contains(k) {
            let i = choose|i: int| 0 <= i < ln.len() && ln[i] == k;
            lemma_entries_map_at(ln, ls, i);
            assert(s.contains_key(k));
            let j = crate::sources::index_of_name(names, k);
            assert(names[j] == k);
        }
        if names.contains(k) {
            let j = choose|j: int| 0 <= j < names.len() && names[j] == k;
            lemma_entries_map_at(names, sources, j);
            let i = crate::sources::index_of_name(ln, k);
            assert(ln[i] == k);
        }
    }
    lemma_sorted_unique(ln, names);
    assert forall|i: int| 0 <= i < lock.len() implies written[i] == lock[i] by {
        lemma_entries_map_at(ln, ls, i);
        lemma_entries_map_at(names, sources, i);
        assert(lock[i].0 == ln[i]);
        assert(lock[i].1.1 == ls[i]);
    }
    assert(written =~= lock);
}

} // verus!
