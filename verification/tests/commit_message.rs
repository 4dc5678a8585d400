use lon::commit_message::CommitMessage;
use lon::git::{Commit, RevList, Revision};
use lon::sources::{RevisionUpdate, UpdateSummary, UrlUpdate};

fn summary_1() -> UpdateSummary {
    UpdateSummary::from_revs(
        Revision::new("043344a1c19619435e2b79cd42de6592308af0aa"),
        Revision::new("21386f9d14831b594048e1e4340ac7a300e312d6"),
    )
}

fn summary_2() -> UpdateSummary {
    UpdateSummary::from_revs(
        Revision::new("ad3bc97747c651e23fbc12c70a5849d3d8e9fdf4"),
        Revision::new("75962bcd89dcccc9fe125c9ab46377d6cd1ddb00"),
    )
}

/// Summary with a rev list from git commandline
fn summary_rev_list_1() -> UpdateSummary {
    let mut summary = RevisionUpdate::new(
        Revision::new("043344a1c19619435e2b79cd42de6592308af0aa"),
        Revision::new("21386f9d14831b594048e1e4340ac7a300e312d6"),
    );
    let rev_list_git_output = "1ba800e readme: reorganize\n\
        26244f0 readme: add section about bot\n\
        c67d352 changelog: add entry about bot\n\
        5de6d54 bot: init\n";
    let rev_list = RevList::from_git_output(rev_list_git_output);
    summary.add_rev_list(rev_list);
    UpdateSummary::Rev(summary)
}

/// Summary with a rev list from GitHub
fn summary_rev_list_2() -> UpdateSummary {
    let mut summary = RevisionUpdate::new(
        Revision::new("6c1da4c913f0edf2835c3cc47c3889c36c05e6ca"),
        Revision::new("629f1e13eb7d09738538ba1b3c2ce35d9c1bef3e"),
    );
    // Long message to test that it only shows the summary line
    let msg = "emacs: remove native-comp-compiler-options-28.patch\n\
        \n\
        Since we do not deal with older Emacsen.\n\
        \n\
        P.S.: We can't delete native-comp-compiler-options.patch yet, because Emacs\n\
        Macport is stuck in Emacs 29.\n";
    let rev_list = RevList::from_commits(vec![
        Commit::from_str("1ba800e", msg),
        Commit::from_str("26244f0", "readme: add section about bot"),
        Commit::from_str("6232894", ".gitignore: ignore .env"),
    ]);
    summary.add_rev_list(rev_list);
    UpdateSummary::Rev(summary)
}

#[test]
fn commit_message_single_update() {
    let mut commit_message = CommitMessage::new();
    commit_message.add_summary("fake_1", summary_1());

    let expected = "lon: update fake_1\n\
        \n  043344a1c19619435e2b79cd42de6592308af0aa\n\
        → 21386f9d14831b594048e1e4340ac7a300e312d6\n";
    assert_eq!(commit_message.to_string(), expected);
}

#[test]
fn commit_message_multiple_updates() {
    let mut commit_message = CommitMessage::new();
    commit_message.add_summary("fake_1", summary_1());
    commit_message.add_summary("fake_2", summary_2());

    let expected = "lon: update\n\
        \n\
        • fake_1:\n    043344a1c19619435e2b79cd42de6592308af0aa\n  \
        → 21386f9d14831b594048e1e4340ac7a300e312d6\n\
        \n\
        • fake_2:\n    ad3bc97747c651e23fbc12c70a5849d3d8e9fdf4\n  \
        → 75962bcd89dcccc9fe125c9ab46377d6cd1ddb00\n";
    assert_eq!(commit_message.to_string(), expected);
}

#[test]
fn commit_message_rev_list_single_update() {
    let mut commit_message = CommitMessage::new();
    commit_message.add_summary("fake_1", summary_rev_list_1());

    let expected = "lon: update fake_1\n\
        \n  043344a1c19619435e2b79cd42de6592308af0aa\n\
        → 21386f9d14831b594048e1e4340ac7a300e312d6\n\
        \n\
        Last 4 commits:\n  \
        1ba800e readme: reorganize\n  \
        26244f0 readme: add section about bot\n  \
        c67d352 changelog: add entry about bot\n  \
        5de6d54 bot: init\n";
    assert_eq!(commit_message.to_string(), expected);
}

#[test]
fn commit_message_rev_list_multiple_updates() {
    let mut commit_message = CommitMessage::new();
    commit_message.add_summary("fake_1", summary_rev_list_1());
    commit_message.add_summary("fake_2", summary_rev_list_2());

    let expected = "lon: update\n\
        \n\
        • fake_1:\n    043344a1c19619435e2b79cd42de6592308af0aa\n  \
        → 21386f9d14831b594048e1e4340ac7a300e312d6\n\
        \n  \
        Last 4 commits:\n    \
        1ba800e readme: reorganize\n    \
        26244f0 readme: add section about bot\n    \
        c67d352 changelog: add entry about bot\n    \
        5de6d54 bot: init\n\
        \n\
        • fake_2:\n    6c1da4c913f0edf2835c3cc47c3889c36c05e6ca\n  \
        → 629f1e13eb7d09738538ba1b3c2ce35d9c1bef3e\n\
        \n  \
        Last 3 commits:\n    \
        1ba800e emacs: remove native-comp-compiler-options-28.patch\n    \
        26244f0 readme: add section about bot\n    \
        6232894 .gitignore: ignore .env\n";
    assert_eq!(commit_message.to_string(), expected);
}

#[test]
fn commit_message_empty() {
    let commit_message = CommitMessage::new();
    assert!(commit_message.is_empty());
    assert_eq!(commit_message.body().unwrap(), "");
    assert_eq!(commit_message.to_string(), "lon: update\n");
}

#[test]
fn commit_message_not_empty_after_add() {
    let mut commit_message = CommitMessage::new();
    commit_message.add_summary("a", summary_1());
    assert!(!commit_message.is_empty());
}

#[test]
fn commit_message_body_without_subject() {
    let mut commit_message = CommitMessage::new();
    commit_message.add_summary("fake_1", summary_1());
    assert_eq!(
        commit_message.body().unwrap(),
        "\n  043344a1c19619435e2b79cd42de6592308af0aa\n→ 21386f9d14831b594048e1e4340ac7a300e312d6\n"
    );
}

#[test]
fn commit_message_url_update() {
    let mut commit_message = CommitMessage::new();
    commit_message.add_summary(
        "tarball",
        UpdateSummary::Url(UrlUpdate {
            old_url: "https://example.org/a.tar.gz".to_string(),
            new_url: "https://example.org/b.tar.gz".to_string(),
        }),
    );
    assert_eq!(
        commit_message.to_string(),
        "lon: update tarball\n\n  https://example.org/a.tar.gz\n→ https://example.org/b.tar.gz\n"
    );
}

#[test]
fn commit_message_url_update_among_several() {
    let mut commit_message = CommitMessage::new();
    commit_message.add_summary(
        "tarball",
        UpdateSummary::Url(UrlUpdate {
            old_url: "u1".to_string(),
            new_url: "u2".to_string(),
        }),
    );
    commit_message.add_summary("fake_1", summary_1());
    assert_eq!(
        commit_message.to_string(),
        "lon: update\n\n• tarball:\n    u1\n  → u2\n\n• fake_1:\n    043344a1c19619435e2b79cd42de6592308af0aa\n  → 21386f9d14831b594048e1e4340ac7a300e312d6\n"
    );
}

#[test]
fn commit_message_many_commits_count() {
    let commits: Vec<Commit> = (0..12)
        .map(|i| Commit::from_str(&format!("{:07}", i), "m"))
        .collect();
    let mut summary = RevisionUpdate::new(Revision::new("a"), Revision::new("b"));
    summary.add_rev_list(RevList::from_commits(commits));
    let mut commit_message = CommitMessage::new();
    commit_message.add_summary("x", UpdateSummary::Rev(summary));
    let text = commit_message.to_string();
    assert!(text.contains("\nLast 12 commits:\n  0000000 m\n"));
    assert!(text.ends_with("  0000011 m\n"));
}

#[test]
fn update_summary_add_rev_list_on_url_is_ignored() {
    let mut summary = UpdateSummary::Url(UrlUpdate {
        old_url: "a".to_string(),
        new_url: "b".to_string(),
    });
    summary.add_rev_list(RevList::from_commits(vec![]));
    match summary {
        UpdateSummary::Url(u) => {
            assert_eq!(u.old_url, "a");
            assert_eq!(u.new_url, "b");
        }
        UpdateSummary::Rev(_) => panic!("a URL update stays a URL update"),
    }
}

#[test]
fn update_summary_new_has_no_rev_list() {
    let mut summary = UpdateSummary::new(Revision::new("old"), Revision::new("new"));
    match &summary {
        UpdateSummary::Rev(r) => {
            assert_eq!(r.old_revision.as_str(), "old");
            assert_eq!(r.new_revision.as_str(), "new");
            assert!(r.rev_list.is_none());
        }
        UpdateSummary::Url(_) => panic!("a revision update"),
    }
    summary.add_rev_list(RevList::from_commits(vec![Commit::from_str("abc", "msg")]));
    match &summary {
        UpdateSummary::Rev(r) => assert_eq!(r.rev_list.as_ref().unwrap().len(), 1),
        UpdateSummary::Url(_) => panic!("a revision update"),
    }
}
