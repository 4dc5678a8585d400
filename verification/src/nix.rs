//! The Nix tools that fetch sources and compute their hashes.
use vstd::prelude::*;
use vstd::string::*;

verus! {

/// The texts of a sequence of strings.
pub open spec fn texts(v: Seq<String>) -> Seq<Seq<char>> {
    v.map_values(|s: String| s@)
}

/// The arguments of `nix-prefetch-git`. It fetches with the same store path (via
/// `--name source`) as `builtins.fetchGit`, so the source is downloaded only once.
pub open spec fn git_prefetch_arguments(url: Seq<char>, revision: Seq<char>, submodules: bool) -> Seq<
    Seq<char>,
> {
    (if submodules {
        seq!["--fetch-submodules"@]
    } else {
        Seq::empty()
    }) + seq!["--name"@, "source"@, url, revision]
}

/// The arguments of `nix-prefetch-url`. It unpacks with the same store path (via
/// `--name source`) as `builtins.fetchTarball`, so the source is downloaded only once.
pub open spec fn tarball_prefetch_arguments(url: Seq<char>) -> Seq<Seq<char>> {
    seq!["--unpack"@, "--name"@, "source"@, "--type"@, "sha256"@, url]
}

/// The arguments with which to run `nix-prefetch-git` to fetch a Git source and hash it.
pub fn prefetch_git_args(url: &str, revision: &str, submodules: bool) -> (r: Vec<String>)
    ensures
        texts(r@) == git_prefetch_arguments(url@, revision@, submodules),
{
    let mut args: Vec<String> = Vec::new();
    if submodules {
        args.push(String::from_str("--fetch-submodules"));
    }
    args.push(String::from_str("--name"));
    args.push(String::from_str("source"));
    args.push(url.to_owned());
    args.push(revision.to_owned());
    assert(texts(args@) =~= git_prefetch_arguments(url@, revision@, submodules));
    args
}

/// The arguments with which to run `nix-prefetch-url` to fetch a tarball and hash it.
pub fn prefetch_tarball_args(url: &str) -> (r: Vec<String>)
    ensures
        texts(r@) == tarball_prefetch_arguments(url@),
{
    let mut args: Vec<String> = Vec::new();
    args.push(String::from_str("--unpack"));
    args.push(String::from_str("--name"));
    args.push(String::from_str("source"));
    args.push(String::from_str("--type"));
    args.push(String::from_str("sha256"));
    args.push(url.to_owned());
    assert(texts(args@) =~= tarball_prefetch_arguments(url@));
    args
}

} // verus!
