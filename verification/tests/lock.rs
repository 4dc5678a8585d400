use lon::lock::v1::{self, FetchType};
use lon::lock::Lock;
use lon::sources::Sources;

fn git_record(rev: &str) -> v1::Source {
    v1::Source::Git(v1::GitSource {
        fetch_type: FetchType::Git,
        branch: "main".to_string(),
        revision: rev.to_string(),
        url: "https://git.example.org/lon.git".to_string(),
        hash: "sha256-AAAAAAAAAAAAAAAAAAAAAAAAAAAAAAAAAAAAAAAAAAA=".to_string(),
        last_modified: Some(1736932385),
        submodules: true,
        frozen: false,
    })
}

fn github_record(rev: &str) -> v1::Source {
    v1::Source::GitHub(v1::GitHubSource {
        fetch_type: FetchType::Tarball,
        owner: "nixos".to_string(),
        repo: "nixpkgs".to_string(),
        branch: "nixos-unstable".to_string(),
        revision: rev.to_string(),
        url: format!("https://github.com/nixos/nixpkgs/archive/{rev}.tar.gz"),
        hash: "sha256-BBBBBBBBBBBBBBBBBBBBBBBBBBBBBBBBBBBBBBBBBBB=".to_string(),
        frozen: true,
    })
}

fn same_source(a: &v1::Source, b: &v1::Source) -> bool {
    match (a, b) {
        (v1::Source::Git(a), v1::Source::Git(b)) => {
            a.fetch_type == b.fetch_type
                && a.branch == b.branch
                && a.revision == b.revision
                && a.url == b.url
                && a.hash == b.hash
                && a.last_modified == b.last_modified
                && a.submodules == b.submodules
                && a.frozen == b.frozen
        }
        (v1::Source::GitHub(a), v1::Source::GitHub(b)) => {
            a.fetch_type == b.fetch_type
                && a.owner == b.owner
                && a.repo == b.repo
                && a.branch == b.branch
                && a.revision == b.revision
                && a.url == b.url
                && a.hash == b.hash
                && a.frozen == b.frozen
        }
        _ => false,
    }
}

fn sample_lock() -> v1::Lock {
    v1::Lock {
        sources: vec![
            ("lon".to_string(), git_record("6c1da4c913f0edf2835c3cc47c3889c36c05e6ca")),
            ("nixpkgs".to_string(), github_record("629f1e13eb7d09738538ba1b3c2ce35d9c1bef3e")),
        ],
    }
}

/// Parsing to internal representation and converting it back produces the same representation.
#[test]
fn parse_and_convert() {
    let lock = sample_lock();
    let expected = sample_lock();
    let sources = Sources::from_lock_v1(lock);
    let latest_lock = sources.into_latest_lock();
    let Lock::V1(latest) = latest_lock;
    assert_eq!(latest.sources.len(), expected.sources.len());
    for (a, b) in latest.sources.iter().zip(expected.sources.iter()) {
        assert_eq!(a.0, b.0);
        assert!(same_source(&a.1, &b.1));
    }
}

#[test]
fn lock_path() {
    assert_eq!(Lock::path("/tmp/project"), "/tmp/project/lon.lock");
    assert_eq!(Lock::path("/tmp/project/"), "/tmp/project/lon.lock");
    assert_eq!(Lock::path("."), "./lon.lock");
    assert_eq!(Lock::path(""), "lon.lock");
}

#[test]
fn from_lock_sorts_and_keeps_last_of_a_name() {
    let lock = v1::Lock {
        sources: vec![
            ("b".to_string(), git_record("1")),
            ("a".to_string(), git_record("2")),
            ("b".to_string(), github_record("3")),
        ],
    };
    let sources = Sources::from_lock(Lock::V1(lock));
    let names: Vec<&str> = sources.names().into_iter().map(|s| s.as_str()).collect();
    assert_eq!(names, vec!["a", "b"]);
    assert_eq!(sources.get("b").unwrap().revision().as_str(), "3");
}

#[test]
fn sources_roundtrip_through_lock() {
    let sources = Sources::from_lock_v1(sample_lock());
    let again = Sources::from_lock(sources.clone().into_latest_lock());
    assert_eq!(again.len(), sources.len());
    for i in 0..sources.len() {
        assert_eq!(again.name_at(i), sources.name_at(i));
        let a = again.source_at(i).to_lock_source();
        let b = sources.source_at(i).to_lock_source();
        assert!(same_source(&a, &b));
    }
}

#[test]
fn fetch_type_follows_the_kind_of_source() {
    let mut lock = sample_lock();
    // A record with an inconsistent fetch type is written back with the fetch type of its kind.
    if let v1::Source::Git(g) = &mut lock.sources[0].1 {
        g.fetch_type = FetchType::Tarball;
    }
    let Lock::V1(latest) = Sources::from_lock_v1(lock).into_latest_lock();
    match &latest.sources[0].1 {
        v1::Source::Git(g) => assert_eq!(g.fetch_type, FetchType::Git),
        _ => panic!(),
    }
}
