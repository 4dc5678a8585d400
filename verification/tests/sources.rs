use lon::git::Revision;
use lon::sources::{GitHubSource, GitSource, Source, Sources};

fn git(url: &str, rev: &str) -> Source {
    Source::Git(GitSource::from_parts(
        url,
        "main",
        Revision::new(rev),
        "sha256-AAAA",
        Some(1700000000),
        false,
        false,
    ))
}

fn github(owner: &str, repo: &str, rev: &str) -> Source {
    let url = GitHubSource::url(owner, repo, rev);
    Source::GitHub(GitHubSource::from_parts(
        owner,
        repo,
        "nixos-unstable",
        Revision::new(rev),
        &url,
        "sha256-BBBB",
        false,
    ))
}

#[test]
fn sources_add_contains_remove() {
    let mut sources = Sources::default();
    assert!(!sources.contains("nixpkgs"));
    sources.add("nixpkgs", github("nixos", "nixpkgs", "abc"));
    assert!(sources.contains("nixpkgs"));
    sources.remove("nixpkgs");
    assert!(!sources.contains("nixpkgs"));
    // Removing what is not there changes nothing.
    sources.remove("nixpkgs");
    assert_eq!(sources.len(), 0);
}

#[test]
fn sources_names_are_sorted() {
    let mut sources = Sources::default();
    sources.add("zeta", git("https://example.org/z.git", "1"));
    sources.add("alpha", git("https://example.org/a.git", "2"));
    sources.add("mid", git("https://example.org/m.git", "3"));
    sources.add("Mid", git("https://example.org/M.git", "4"));
    sources.add("alph", git("https://example.org/al.git", "5"));
    let names: Vec<&str> = sources.names().into_iter().map(|s| s.as_str()).collect();
    assert_eq!(names, vec!["Mid", "alph", "alpha", "mid", "zeta"]);
}

#[test]
fn sources_add_replaces() {
    let mut sources = Sources::default();
    sources.add("a", git("https://example.org/a.git", "1"));
    sources.add("a", git("https://example.org/a.git", "2"));
    assert_eq!(sources.len(), 1);
    assert_eq!(sources.get("a").unwrap().revision().as_str(), "2");
}

#[test]
fn sources_get_mut_changes_only_that_source() {
    let mut sources = Sources::default();
    sources.add("a", git("https://example.org/a.git", "1"));
    sources.add("b", git("https://example.org/b.git", "1"));
    sources.get_mut("a").unwrap().freeze();
    assert!(sources.get("a").unwrap().frozen());
    assert!(!sources.get("b").unwrap().frozen());
    assert!(sources.get_mut("c").is_none());
}

#[test]
fn source_freeze_unfreeze() {
    let mut s = github("nixos", "nixpkgs", "abc");
    assert!(!s.frozen());
    s.freeze();
    assert!(s.frozen());
    s.freeze();
    assert!(s.frozen());
    s.unfreeze();
    assert!(!s.frozen());
    assert_eq!(s.revision().as_str(), "abc");
}

#[test]
fn github_urls() {
    assert_eq!(
        GitHubSource::url("nixos", "nixpkgs", "abc"),
        "https://github.com/nixos/nixpkgs/archive/abc.tar.gz"
    );
    assert_eq!(GitHubSource::git_url("nixos", "nixpkgs"), "https://github.com/nixos/nixpkgs.git");
    assert_eq!(
        github("nixos", "nixpkgs", "abc").repository_url(),
        "https://github.com/nixos/nixpkgs.git"
    );
    assert_eq!(git("https://example.org/a.git", "1").repository_url(), "https://example.org/a.git");
}

#[test]
fn sources_clone_is_equal() {
    let mut sources = Sources::default();
    sources.add("b", git("https://example.org/b.git", "1"));
    sources.add("a", github("o", "r", "2"));
    let copy = sources.clone();
    assert_eq!(copy.len(), 2);
    assert_eq!(copy.name_at(0), "a");
    assert_eq!(copy.source_at(1).revision().as_str(), "1");
}
