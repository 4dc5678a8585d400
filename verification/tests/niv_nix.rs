use lon::init::niv::{LockFile, Package};
use lon::nix::{prefetch_git_args, prefetch_tarball_args};
use lon::sources::Source;

#[test]
fn niv_packages_become_sources() {
    let lock = LockFile::new(vec![
        ("home-manager".to_string(), Package::new(Some("nix-community"), "home-manager", "master", "abc")),
        ("other".to_string(), Package::new(None, "https://example.org/other.git", "main", "def")),
    ]);
    let converted = lock.convert();
    assert_eq!(converted.len(), 2);
    assert_eq!(converted[0].name, "home-manager");
    assert_eq!(converted[0].revision, "abc");
    match &converted[0].source {
        Source::GitHub(g) => {
            assert_eq!(g.owner(), "nix-community");
            assert_eq!(g.repo(), "home-manager");
            assert_eq!(g.branch(), "master");
            assert!(!g.frozen());
        }
        _ => panic!("a package with an owner is a GitHub source"),
    }
    match &converted[1].source {
        Source::Git(g) => {
            assert_eq!(g.url(), "https://example.org/other.git");
            assert_eq!(g.branch(), "main");
            assert!(!g.submodules());
            assert!(!g.frozen());
        }
        _ => panic!("a package without an owner is a Git source"),
    }
    assert_eq!(converted[1].revision, "def");
}

#[test]
fn prefetch_arguments() {
    assert_eq!(
        prefetch_git_args("https://example.org/a.git", "abc", false),
        vec!["--name", "source", "https://example.org/a.git", "abc"]
    );
    assert_eq!(
        prefetch_git_args("https://example.org/a.git", "abc", true),
        vec!["--fetch-submodules", "--name", "source", "https://example.org/a.git", "abc"]
    );
    assert_eq!(
        prefetch_tarball_args("https://example.org/a.tar.gz"),
        vec!["--unpack", "--name", "source", "--type", "sha256", "https://example.org/a.tar.gz"]
    );
}
