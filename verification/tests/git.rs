use lon::git::{number_from_output, revision_from_ls_remote, Commit, RevList, Revision};

#[test]
fn revision_short_takes_seven_characters() {
    let r = Revision::new("043344a1c19619435e2b79cd42de6592308af0aa");
    assert_eq!(r.short(), "043344a");
    assert_eq!(Revision::new("abc").short(), "abc");
    assert_eq!(Revision::new("").short(), "");
    assert_eq!(r.as_str(), "043344a1c19619435e2b79cd42de6592308af0aa");
    assert_eq!(r.to_string(), "043344a1c19619435e2b79cd42de6592308af0aa");
}

#[test]
fn revision_same_as() {
    assert!(Revision::new("abc").same_as(&Revision::new("abc")));
    assert!(!Revision::new("abc").same_as(&Revision::new("abd")));
    assert!(!Revision::new("abc").same_as(&Revision::new("abcd")));
}

#[test]
fn message_summary_is_first_line() {
    let c = Commit::from_str("1ba800e", "subject line\n\nbody\n");
    assert_eq!(c.message_summary(), "subject line");
    let c = Commit::from_str("1ba800e", "windows line\r\nmore");
    assert_eq!(c.message_summary(), "windows line");
    let c = Commit::from_str("1ba800e", "");
    assert_eq!(c.message_summary(), "");
    let c = Commit::from_str("1ba800e", "no newline");
    assert_eq!(c.message_summary(), "no newline");
    let c = Commit::from_str("1ba800e", "\nsecond");
    assert_eq!(c.message_summary(), "");
}

#[test]
fn rev_list_from_git_output_parses_each_line() {
    let output = "1ba800e readme: reorganize\n26244f0 readme: add section about bot\n";
    let list = RevList::from_git_output(output);
    let revs = list.revs();
    assert_eq!(revs.len(), 2);
    assert_eq!(revs[0].revision.as_str(), "1ba800e");
    assert_eq!(revs[0].message, "readme: reorganize");
    assert_eq!(revs[1].revision.as_str(), "26244f0");
    assert_eq!(revs[1].message, "readme: add section about bot");
}

#[test]
fn rev_list_from_git_output_edge_cases() {
    assert_eq!(RevList::from_git_output("").len(), 0);
    assert_eq!(RevList::from_git_output("\n\n").len(), 0);
    // A line without a space describes no commit.
    let list = RevList::from_git_output("abcdef\n1234567 fix: it\r\nlast line without newline");
    let revs = list.revs();
    assert_eq!(revs.len(), 2);
    assert_eq!(revs[0].revision.as_str(), "1234567");
    assert_eq!(revs[0].message, "fix: it");
    assert_eq!(revs[1].revision.as_str(), "last");
    assert_eq!(revs[1].message, "line without newline");
}

#[test]
fn rev_list_clone_keeps_commits() {
    let list = RevList::from_git_output("a b\nc d\n");
    let copy = list.clone();
    assert_eq!(copy.len(), 2);
    assert_eq!(copy.revs()[1].revision.as_str(), "c");
    assert_eq!(copy.revs()[1].message, "d");
}

#[test]
fn ls_remote_revision_is_first_field() {
    let out = "21386f9d14831b594048e1e4340ac7a300e312d6\trefs/heads/main\n";
    let r = revision_from_ls_remote(out).unwrap();
    assert_eq!(r.as_str(), "21386f9d14831b594048e1e4340ac7a300e312d6");
    assert!(revision_from_ls_remote("").is_none());
    assert!(revision_from_ls_remote("\tx\n").is_none());
    assert_eq!(revision_from_ls_remote("abc def").unwrap().as_str(), "abc");
}

#[test]
fn numbers_from_output() {
    assert_eq!(number_from_output("1712345678\n"), Some(1712345678));
    assert_eq!(number_from_output("0"), Some(0));
    assert_eq!(number_from_output("18446744073709551615\n"), Some(u64::MAX));
    assert_eq!(number_from_output("18446744073709551616\n"), None);
    assert_eq!(number_from_output("99999999999999999999x"), None);
    assert_eq!(number_from_output(""), None);
    assert_eq!(number_from_output("12a"), None);
    assert_eq!(number_from_output(" 12"), None);
    assert_eq!(number_from_output("12\n34"), Some(12));
}
