//! Git revisions, commits and lists of commits.
use vstd::prelude::*;
use vstd::string::*;

use crate::text::{
    chars_of, find_line_break, find_space, first_line, lemma_line_break_bound,
    lemma_space_index_bound, lines, space_index, strip_cr, strip_cr_end, substring,
};

verus! {

/// Number of characters in the short form of a revision.
pub const SHORT_REVISION_LEN: usize = 7;

/// A Git revision (a commit hash), kept as its text.
#[derive(Debug)]
pub struct Revision(String);

impl View for Revision {
    type V = Seq<char>;

    closed spec fn view(&self) -> Seq<char> {
        self.0@
    }
}

/// The short form of a revision: its first characters.
pub open spec fn short_revision(r: Seq<char>) -> Seq<char> {
    if r.len() <= SHORT_REVISION_LEN {
        r
    } else {
        r.take(SHORT_REVISION_LEN as int)
    }
}

impl Clone for Revision {
    fn clone(&self) -> (r: Self)
        ensures
            r@ == self@,
    {
        Revision(self.0.clone())
    }
}

impl Revision {
    pub fn new(revision: &str) -> (r: Self)
        ensures
            r@ == revision@,
    {
        Revision(revision.to_owned())
    }

    pub fn as_str(&self) -> (r: &str)
        ensures
            r@ == self@,
    {
        self.0.as_str()
    }

    /// The revision as an owned string.
    pub fn to_string(&self) -> (r: String)
        ensures
            r@ == self@,
    {
        self.0.clone()
    }

    /// Whether two revisions are the same.
    pub fn same_as(&self, other: &Revision) -> (b: bool)
        ensures
            b == (self@ == other@),
    {
        self.0 == other.0
    }

    /// The abbreviated revision shown in overviews.
    pub fn short(&self) -> (r: String)
        ensures
            r@ == short_revision(self@),
    {
        let s = self.0.as_str();
        let n = s.unicode_len();
        if n <= SHORT_REVISION_LEN {
            let r = s.to_owned();
            r
        } else {
            substring(s, 0, SHORT_REVISION_LEN)
        }
    }
}

/// A commit: its revision and its full message.
#[derive(Debug)]
pub struct Commit {
    pub revision: Revision,
    pub message: String,
}

/// The plain-value model of a commit: revision text and message text.
pub type CommitView = (Seq<char>, Seq<char>);

impl View for Commit {
    type V = CommitView;

    open spec fn view(&self) -> CommitView {
        (self.revision@, self.message@)
    }
}

impl Clone for Commit {
    fn clone(&self) -> (r: Self)
        ensures
            r@ == self@,
    {
        Commit { revision: self.revision.clone(), message: self.message.clone() }
    }
}

impl Commit {
    pub fn from_str(revision: &str, message: &str) -> (c: Self)
        ensures
            c@ == (revision@, message@),
    {
        Commit { revision: Revision::new(revision), message: message.to_owned() }
    }

    /// The summary line of the commit message: its first line.
    pub fn message_summary(&self) -> (r: String)
        ensures
            r@ == first_line(self.message@),
    {
        let s = self.message.as_str();
        let v = chars_of(s);
        let k = find_line_break(&v, 0);
        let e = strip_cr_end(&v, 0, k);
        proof {
            assert(v@.skip(0) =~= v@);
            assert(v@.subrange(0, k as int) =~= v@.take(k as int));
        }
        substring(s, 0, e)
    }
}

/// The commit that a line of `git log --oneline` output describes: the text up to the
/// first space is the revision and the rest is the message. A line without a space
/// describes no commit.
pub open spec fn commit_of_line(l: Seq<char>) -> Option<CommitView> {
    let k = space_index(l);
    if k < l.len() {
        Some((l.take(k as int), l.skip(k + 1 as int)))
    } else {
        None
    }
}

/// The commits described by a sequence of lines, in order.
pub open spec fn commits_of_lines(ls: Seq<Seq<char>>) -> Seq<CommitView>
    decreases ls.len(),
{
    if ls.len() == 0 {
        seq![]
    } else {
        match commit_of_line(ls[0]) {
            Some(c) => seq![c] + commits_of_lines(ls.drop_first()),
            None => commits_of_lines(ls.drop_first()),
        }
    }
}

/// The views of a sequence of commits.
pub open spec fn commit_views(cs: Seq<Commit>) -> Seq<CommitView> {
    cs.map_values(|c: Commit| c@)
}

/// A list of commits, newest last, as Git or GitHub reports them.
#[derive(Debug)]
pub struct RevList(Vec<Commit>);

impl View for RevList {
    type V = Seq<CommitView>;

    closed spec fn view(&self) -> Seq<CommitView> {
        commit_views(self.0@)
    }
}

impl Clone for RevList {
    fn clone(&self) -> (r: Self)
        ensures
            r@ == self@,
    {
        let mut out: Vec<Commit> = Vec::new();
        let mut i: usize = 0;
        while i < self.0.len()
            invariant
                i <= self.0.len(),
                commit_views(out@) == commit_views(self.0@).take(i as int),
            decreases self.0.len() - i,
        {
            let c = self.0[i].clone();
            let ghost before = out@;
            out.push(c);
            proof {
                assert(out@ == before.push(c));
                assert(commit_views(out@) =~= commit_views(before).push(c@));
                assert(c@ == commit_views(self.0@)[i as int]);
            }
            i = i + 1;
            assert(commit_views(out@) =~= commit_views(self.0@).take(i as int));
        }
        assert(commit_views(self.0@).take(i as int) =~= commit_views(self.0@));
        RevList(out)
    }
}

impl RevList {
    pub fn from_commits(commits: Vec<Commit>) -> (r: Self)
        ensures
            r@ == commit_views(commits@),
    {
        RevList(commits)
    }

    /// The commits of the list, in order.
    pub fn revs(&self) -> (r: &Vec<Commit>)
        ensures
            commit_views(r@) == self@,
    {
        &self.0
    }

    /// Number of commits in the list.
    pub fn len(&self) -> (n: usize)
        ensures
            n == self@.len(),
    {
        self.0.len()
    }

    /// Parse the output of `git log --oneline`: one commit per line, its short revision,
    /// a space and the summary of its message.
    pub fn from_git_output(output: &str) -> (r: Self)
        ensures
            r@ == commits_of_lines(lines(output@)),
    {
        let v = chars_of(output);
        let n = v.len();
        let mut commits: Vec<Commit> = Vec::new();
        let mut pos: usize = 0;
        proof {
            assert(v@.skip(0) =~= v@);
            assert(commit_views(commits@) =~= Seq::<CommitView>::empty());
            assert(commit_views(commits@) + commits_of_lines(lines(v@.skip(0)))
                =~= commits_of_lines(lines(output@)));
        }
        while pos < n
            invariant
                n == v.len(),
                v@ == output@,
                pos <= n,
                commit_views(commits@) + commits_of_lines(lines(v@.skip(pos as int)))
                    == commits_of_lines(lines(output@)),
            decreases n - pos,
        {
            let ghost rest = v@.skip(pos as int);
            let k = find_line_break(&v, pos);
            let e = strip_cr_end(&v, pos, k);
            let sp = find_space(&v, pos, e);
            proof {
                lemma_line_break_bound(rest);
                let line = strip_cr(rest.take((k - pos) as int));
                assert(v@.subrange(pos as int, k as int) =~= rest.take((k - pos) as int));
                assert(line == v@.subrange(pos as int, e as int));
                if k < n {
                    assert(rest.skip((k - pos) + 1) =~= v@.skip(k + 1));
                    assert(lines(rest) == seq![line] + lines(v@.skip(k + 1)));
                    assert(lines(rest).drop_first() =~= lines(v@.skip(k + 1)));
                } else {
                    assert(rest.take((k - pos) as int) =~= rest);
                    assert(lines(rest) == seq![line]);
                    assert(lines(rest).drop_first() =~= lines(v@.skip(n as int)));
                }
                assert(lines(rest)[0] == line);
            }
            if sp < e {
                let rev = substring(output, pos, sp);
                let msg = substring(output, sp + 1, e);
                let c = Commit { revision: Revision(rev), message: msg };
                proof {
                    let line = v@.subrange(pos as int, e as int);
                    lemma_space_index_bound(line);
                    assert(line.take((sp - pos) as int) =~= v@.subrange(pos as int, sp as int));
                    assert(line.skip((sp - pos) + 1) =~= v@.subrange(sp + 1, e as int));
                    assert(commit_views(commits@.push(c)) =~= commit_views(commits@).push(c@));
                    assert(commit_views(commits@).push(c@) + commits_of_lines(
                        lines(rest).drop_first(),
                    ) =~= commit_views(commits@) + commits_of_lines(lines(rest)));
                }
                commits.push(c);
            }
            if k < n {
                pos = k + 1;
            } else {
                pos = n;
            }
        }
        proof {
            assert(v@.skip(n as int) =~= Seq::<char>::empty());
            assert(commit_views(commits@) + commits_of_lines(lines(v@.skip(n as int)))
                =~= commit_views(commits@));
        }
        RevList(commits)
    }
}

/// Index of the first space or tab in `s`, or `s.len()` when there is none.
pub open spec fn field_end(s: Seq<char>) -> nat
    decreases s.len(),
{
    if s.len() == 0 {
        0
    } else if s[0] == ' ' || s[0] == '\t' {
        0
    } else {
        1 + field_end(s.drop_first())
    }
}

proof fn lemma_field_end_at(s: Seq<char>, k: int)
    requires
        0 <= k <= s.len(),
        forall|j: int| 0 <= j < k ==> s[j] != ' ' && s[j] != '\t',
        k == s.len() || s[k] == ' ' || s[k] == '\t',
    ensures
        field_end(s) == k,
    decreases s.len(),
{
    if s.len() > 0 && k > 0 {
        assert forall|j: int| 0 <= j < k - 1 implies s.drop_first()[j] != ' '
            && s.drop_first()[j] != '\t' by {
            assert(s.drop_first()[j] == s[j + 1]);
        }
        lemma_field_end_at(s.drop_first(), k - 1);
    }
}

/// The revision that `git ls-remote` reports first: the first field of its first line.
pub open spec fn ls_remote_revision(output: Seq<char>) -> Option<Seq<char>> {
    let l = first_line(output);
    let f = l.take(field_end(l) as int);
    if f.len() == 0 {
        None
    } else {
        Some(f)
    }
}

/// Read the revision that `git ls-remote` reports first, if it reports any.
pub fn revision_from_ls_remote(output: &str) -> (r: Option<Revision>)
    ensures
        match ls_remote_revision(output@) {
            Some(f) => r matches Some(rev) && rev@ == f,
            None => r is None,
        },
{
    let v = chars_of(output);
    let k = find_line_break(&v, 0);
    let e = strip_cr_end(&v, 0, k);
    let mut f: usize = 0;
    while f < e && v[f] != ' ' && v[f] != '\t'
        invariant
            f <= e <= v.len(),
            forall|j: int| 0 <= j < f ==> v@[j] != ' ' && v@[j] != '\t',
        decreases e - f,
    {
        f = f + 1;
    }
    proof {
        assert(v@.skip(0) =~= v@);
        assert(v@.subrange(0, k as int) =~= v@.take(k as int));
        let l = first_line(output@);
        assert(l == v@.subrange(0, e as int));
        lemma_field_end_at(l, f as int);
        assert(l.take(f as int) =~= v@.subrange(0, f as int));
    }
    if f == 0 {
        None
    } else {
        Some(Revision(substring(output, 0, f)))
    }
}

/// Whether `c` is a decimal digit.
pub open spec fn is_digit(c: char) -> bool {
    '0' <= c && c <= '9'
}

/// The number that a sequence of decimal digits writes.
pub open spec fn digits_value(s: Seq<char>) -> nat
    decreases s.len(),
{
    if s.len() == 0 {
        0
    } else {
        digits_value(s.drop_last()) * 10 + ((s.last() as int) - ('0' as int)) as nat
    }
}

/// The number (such as a Unix time) that the first line of `output` writes: only
/// decimal digits, at least one, and a value that fits in 64 bits.
pub open spec fn number_of(output: Seq<char>) -> Option<u64> {
    let l = first_line(output);
    if l.len() > 0 && (forall|i: int| 0 <= i < l.len() ==> is_digit(#[trigger] l[i]))
        && digits_value(l) <= u64::MAX {
        Some(digits_value(l) as u64)
    } else {
        None
    }
}

proof fn lemma_digits_value_mono(s: Seq<char>, i: int)
    requires
        0 <= i <= s.len(),
        forall|j: int| 0 <= j < s.len() ==> is_digit(#[trigger] s[j]),
    ensures
        digits_value(s.take(i)) <= digits_value(s),
    decreases s.len() - i,
{
    if i < s.len() {
        lemma_digits_value_mono(s, i + 1);
        assert(s.take(i + 1).drop_last() =~= s.take(i));
    } else {
        assert(s.take(i) =~= s);
    }
}

/// Read the number that the first line of `output` writes, such as the commit time that
/// `git log --format=%ct` prints.
pub fn number_from_output(output: &str) -> (r: Option<u64>)
    ensures
        r == number_of(output@),
{
    let v = chars_of(output);
    let k = find_line_break(&v, 0);
    let e = strip_cr_end(&v, 0, k);
    let ghost l = v@.subrange(0, e as int);
    proof {
        assert(v@.skip(0) =~= v@);
        assert(v@.subrange(0, k as int) =~= v@.take(k as int));
        assert(l == first_line(output@));
    }
    if e == 0 {
        return None;
    }
    let mut value: u64 = 0;
    let mut i: usize = 0;
    while i < e
        invariant
            i <= e <= v.len(),
            e > 0,
            l == v@.subrange(0, e as int),
            l == first_line(output@),
            forall|j: int| 0 <= j < i ==> is_digit(#[trigger] l[j]),
            value == digits_value(l.take(i as int)),
        decreases e - i,
    {
        let c = v[i];
        if c < '0' || c > '9' {
            proof {
                assert(l[i as int] == c);
                assert(!is_digit(l[i as int]));
            }
            return None;
        }
        let d: u64 = (c as u32 - '0' as u32) as u64;
        proof {
            assert(l.take(i + 1).drop_last() =~= l.take(i as int));
            assert(l.take(i + 1).last() == c);
        }
        if value > (u64::MAX - d) / 10 {
            proof {
                assert(digits_value(l.take(i + 1)) == value * 10 + d);
                assert(digits_value(l.take(i + 1)) > u64::MAX);
                if forall|j: int| 0 <= j < l.len() ==> is_digit(#[trigger] l[j]) {
                    lemma_digits_value_mono(l, i + 1);
                }
            }
            return None;
        }
        value = value * 10 + d;
        i = i + 1;
    }
    proof {
        assert(l.take(e as int) =~= l);
    }
    Some(value)
}

} // verus!
