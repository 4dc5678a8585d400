# lon

Lon locks Nix sources that live in Git repositories: it records, for each source, the
revision it follows and the hash of what Nix fetches there, updates them to the newest
commit of their branch, and writes commit messages that summarize the updates.

This crate is written in Verus. Every function under `src/` carries a contract that
Verus proves:

- `text` — characters, lines, decimal numbers and the order of names.
- `git` — revisions, commits, lists of commits and the parsing of Git's output.
- `sources` — the sources (Git and GitHub), their update summaries, and the sorted set
  of named sources.
- `update` — locking, updating and modifying a source as a state machine that asks the
  caller for the facts it needs (newest revision, hash, commit time); its laws are
  proved over the machine's spec functions.
- `lock` (and `lock::v1`) — the lock file's contents, its path, and the conversion
  between it and the sources, with both round trips proved.
- `commit_message` — the commit message, specified character by character.
- `http::github` — URLs, client settings and pull requests for the GitHub API.
- `init::niv` — converting a Niv lock file.
- `nix` — the arguments of the Nix prefetch tools.

`app/` holds what talks to the world: reading and writing files, running `git` and the
Nix tools, HTTP requests, JSON (de)serialization, and the loop that runs the update
machine.
