use lon::git::Revision;
use lon::sources::{GitHubSource, GitSource, RevisionUpdate, Source, UpdateSummary};
use lon::update::{Action, Event, Pending, RevListRequest};

fn git(frozen: bool) -> Source {
    Source::Git(GitSource::from_parts(
        "https://example.org/repo.git",
        "main",
        Revision::new("old"),
        "sha256-OLD",
        Some(1),
        true,
        frozen,
    ))
}

fn github(frozen: bool) -> Source {
    Source::GitHub(GitHubSource::from_parts(
        "nixos",
        "nixpkgs",
        "nixos-unstable",
        Revision::new("old"),
        "https://github.com/nixos/nixpkgs/archive/old.tar.gz",
        "sha256-OLD",
        frozen,
    ))
}

/// Runs the machine on the facts `events`, checking each action it asks for with
/// `check`, and gives back what it finished with.
fn run(
    source: &mut Source,
    start: (Option<Pending>, Action),
    events: Vec<Event>,
    mut check: impl FnMut(usize, &Action),
) -> Option<UpdateSummary> {
    let (mut pending, mut action) = start;
    let mut events = events.into_iter();
    let mut step = 0;
    loop {
        if let Action::Finished(summary) = action {
            assert!(pending.is_none());
            assert!(events.next().is_none(), "the machine finished early");
            return summary;
        }
        check(step, &action);
        step += 1;
        let event = events.next().expect("the machine asks for more facts");
        let p = pending.take().expect("an action other than Finished waits for a fact");
        assert!(source.accepts(&p, &event));
        let (p2, a2) = source.resume(p, event);
        pending = p2;
        action = a2;
    }
}

#[test]
fn update_frozen_does_nothing() {
    let mut s = git(true);
    let start = s.begin_update();
    let summary = run(&mut s, start, vec![], |_, _| {});
    assert!(summary.is_none());
    assert_eq!(s.revision().as_str(), "old");
}

#[test]
fn update_up_to_date_does_nothing() {
    let mut s = github(false);
    let start = s.begin_update();
    let summary = run(
        &mut s,
        start,
        vec![Event::NewestRevision(Revision::new("old"))],
        |_, a| match a {
            Action::FetchNewestRevision { url, branch } => {
                assert_eq!(url, "https://github.com/nixos/nixpkgs.git");
                assert_eq!(branch, "nixos-unstable");
            }
            _ => panic!("unexpected action"),
        },
    );
    assert!(summary.is_none());
    match &s {
        Source::GitHub(g) => {
            assert_eq!(g.hash(), "sha256-OLD");
            assert_eq!(g.locked_url(), "https://github.com/nixos/nixpkgs/archive/old.tar.gz");
        }
        _ => panic!(),
    }
}

#[test]
fn update_git_locks_newest() {
    let mut s = git(false);
    let start = s.begin_update();
    let summary = run(
        &mut s,
        start,
        vec![
            Event::NewestRevision(Revision::new("new")),
            Event::Hash("sha256-NEW".to_string()),
            Event::LastModified(42),
        ],
        |step, a| match (step, a) {
            (0, Action::FetchNewestRevision { url, branch }) => {
                assert_eq!(url, "https://example.org/repo.git");
                assert_eq!(branch, "main");
            }
            (1, Action::PrefetchGit { url, revision, submodules }) => {
                assert_eq!(url, "https://example.org/repo.git");
                assert_eq!(revision, "new");
                assert!(*submodules);
            }
            (2, Action::FetchLastModified { url, revision }) => {
                assert_eq!(url, "https://example.org/repo.git");
                assert_eq!(revision, "new");
            }
            _ => panic!("unexpected action at step {step}"),
        },
    );
    match summary {
        Some(UpdateSummary::Rev(r)) => {
            assert_eq!(r.old_revision.as_str(), "old");
            assert_eq!(r.new_revision.as_str(), "new");
            assert!(r.rev_list.is_none());
        }
        _ => panic!("an update reports its move"),
    }
    match &s {
        Source::Git(g) => {
            assert_eq!(g.revision().as_str(), "new");
            assert_eq!(g.hash(), "sha256-NEW");
            assert_eq!(g.last_modified(), Some(42));
            assert_eq!(g.branch(), "main");
            assert!(g.submodules());
        }
        _ => panic!(),
    }
}

#[test]
fn update_github_locks_newest() {
    let mut s = github(false);
    let start = s.begin_update();
    let summary = run(
        &mut s,
        start,
        vec![Event::NewestRevision(Revision::new("new")), Event::Hash("sha256-NEW".to_string())],
        |step, a| {
            if step == 1 {
                match a {
                    Action::PrefetchTarball { url } => {
                        assert_eq!(url, "https://github.com/nixos/nixpkgs/archive/new.tar.gz")
                    }
                    _ => panic!(),
                }
            }
        },
    );
    assert!(matches!(summary, Some(UpdateSummary::Rev(_))));
    match &s {
        Source::GitHub(g) => {
            assert_eq!(g.revision().as_str(), "new");
            assert_eq!(g.hash(), "sha256-NEW");
            assert_eq!(g.locked_url(), "https://github.com/nixos/nixpkgs/archive/new.tar.gz");
        }
        _ => panic!(),
    }
}

#[test]
fn modify_to_same_branch_and_revision_does_nothing() {
    let mut s = git(false);
    let branch = "main".to_string();
    let revision = "old".to_string();
    let start = s.begin_modify(Some(&branch), Some(&revision));
    assert!(run(&mut s, start, vec![], |_, _| {}).is_none());
    assert_eq!(s.revision().as_str(), "old");
}

#[test]
fn modify_branch_follows_new_branch_without_report() {
    let mut s = git(false);
    let branch = "release".to_string();
    let start = s.begin_modify(Some(&branch), None);
    let summary = run(
        &mut s,
        start,
        vec![
            Event::NewestRevision(Revision::new("rel")),
            Event::Hash("sha256-REL".to_string()),
            Event::LastModified(7),
        ],
        |step, a| {
            if step == 0 {
                match a {
                    Action::FetchNewestRevision { branch, .. } => assert_eq!(branch, "release"),
                    _ => panic!(),
                }
            }
        },
    );
    assert!(summary.is_none());
    assert_eq!(s.branch(), "release");
    assert_eq!(s.revision().as_str(), "rel");
}

#[test]
fn modify_branch_of_frozen_source_keeps_revision() {
    let mut s = git(true);
    let branch = "release".to_string();
    let start = s.begin_modify(Some(&branch), None);
    assert!(run(&mut s, start, vec![], |_, _| {}).is_none());
    assert_eq!(s.branch(), "release");
    assert_eq!(s.revision().as_str(), "old");
}

#[test]
fn modify_revision_locks_it_even_when_frozen() {
    let mut s = github(true);
    let revision = "pinned".to_string();
    let start = s.begin_modify(None, Some(&revision));
    let summary = run(&mut s, start, vec![Event::Hash("sha256-PIN".to_string())], |_, _| {});
    assert!(summary.is_none());
    assert_eq!(s.revision().as_str(), "pinned");
    assert!(s.frozen());
}

#[test]
fn init_with_and_without_revision() {
    let mut s = Source::Git(GitSource::unlocked("https://example.org/x.git", "main", false, false));
    let rev = "given".to_string();
    let start = s.begin_init(Some(&rev));
    run(
        &mut s,
        start,
        vec![Event::Hash("sha256-X".to_string()), Event::LastModified(9)],
        |_, _| {},
    );
    match &s {
        Source::Git(g) => {
            assert_eq!(g.revision().as_str(), "given");
            assert_eq!(g.hash(), "sha256-X");
            assert_eq!(g.last_modified(), Some(9));
        }
        _ => panic!(),
    }

    let mut s = Source::GitHub(GitHubSource::unlocked("o", "r", "main", false));
    let start = s.begin_init(None);
    run(
        &mut s,
        start,
        vec![Event::NewestRevision(Revision::new("tip")), Event::Hash("sha256-T".to_string())],
        |_, _| {},
    );
    match &s {
        Source::GitHub(g) => {
            assert_eq!(g.revision().as_str(), "tip");
            assert_eq!(g.locked_url(), "https://github.com/o/r/archive/tip.tar.gz");
        }
        _ => panic!(),
    }
}

#[test]
fn accepts_only_the_awaited_fact() {
    let s = github(false);
    let (pending, _) = s.begin_update();
    let pending = pending.unwrap();
    assert!(s.accepts(&pending, &Event::NewestRevision(Revision::new("x"))));
    assert!(!s.accepts(&pending, &Event::Hash("h".to_string())));
    assert!(!s.accepts(&pending, &Event::LastModified(1)));
}

#[test]
fn rev_list_requests() {
    let summary = RevisionUpdate::new(Revision::new("a"), Revision::new("b"));
    match github(false).rev_list(&summary, 10) {
        RevListRequest::GitHub { repository, old_revision, new_revision, num_commits } => {
            assert_eq!(repository, "nixos/nixpkgs");
            assert_eq!(old_revision, "a");
            assert_eq!(new_revision, "b");
            assert_eq!(num_commits, 10);
        }
        _ => panic!(),
    }
    match git(false).rev_list(&summary, 3) {
        RevListRequest::Git { url, num_commits, .. } => {
            assert_eq!(url, "https://example.org/repo.git");
            assert_eq!(num_commits, 3);
        }
        _ => panic!(),
    }
}
