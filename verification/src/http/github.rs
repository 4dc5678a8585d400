//! What Lon asks of the GitHub REST API, and what it makes of the answers.
use vstd::prelude::*;
use vstd::string::*;

use vstd::utf8::encode_utf8;
use crate::git::{commit_views, Commit, CommitView, RevList};
use crate::text::{push_signed_decimal, signed_decimal};

verus! {

/// The root of the GitHub REST API.
pub const GITHUB_API: &'static str = "https://api.github.com";

/// The user agent that Lon sends.
pub const USER_AGENT: &'static str = "LonBot";

/// The media type that GitHub recommends asking for.
pub const ACCEPT: &'static str = "application/vnd.github+json";

/// The version of the API that Lon was written against.
pub const API_VERSION: &'static str = "2022-11-28";

/// Whether a byte may stand in an HTTP header value: a visible ASCII character, a space, a
/// tab, or any byte of a non-ASCII character.
pub open spec fn header_byte_valid(b: u8) -> bool {
    (b >= 32 && b != 127) || b == 9
}

/// Whether text may stand as an HTTP header value: each byte of its UTF-8 encoding may.
pub open spec fn header_value_valid(text: Seq<char>) -> bool {
    forall|i: int|
        0 <= i < encode_utf8(text).len() ==> header_byte_valid(#[trigger] encode_utf8(text)[i])
}

/// Whether `reqwest::header::HeaderValue::from_str` accepts `text`. Its source (in the
/// `http` crate) accepts exactly the texts whose bytes are all valid header bytes:
/// `b >= 32 && b != 127 || b == b'\t'`.
#[verifier::external_body]
fn header_value_accepted(text: &str) -> (r: bool)
    ensures
        r == header_value_valid(text@),
{
    reqwest::header::HeaderValue::from_str(text).is_ok()
}

/// Why the HTTP client for the API cannot be built.
#[derive(Debug, Clone, Copy, PartialEq, Eq, Structural)]
pub enum BuildError {
    /// The token cannot be sent as the value of the `authorization` header.
    InvalidToken,
}

/// The answer of GitHub to a new pull request.
#[derive(Debug)]
pub struct PullRequestResponse {
    pub html_url: String,
    pub number: i64,
}

/// What the HTTP client sends with every request: its user agent and default headers,
/// and the API URL of the repository.
#[derive(Debug)]
pub struct ClientConfig {
    pub user_agent: String,
    pub headers: Vec<(String, String)>,
    pub repo_api_url: String,
}

/// A header as plain text: name and value.
pub type HeaderView = (Seq<char>, Seq<char>);

/// The API URL of the repository `repo` (`owner/name`).
pub open spec fn repo_api_url(repo: Seq<char>) -> Seq<char> {
    GITHUB_API@ + "/repos/"@ + repo
}

/// The default headers: the token as a bearer credential, when there is one, then the
/// media type and the API version.
pub open spec fn default_headers(token: Option<Seq<char>>) -> Seq<HeaderView> {
    let fixed = seq![("accept"@, ACCEPT@), ("x-github-api-version"@, API_VERSION@)];
    match token {
        Some(t) => seq![("authorization"@, "Bearer "@ + t)] + fixed,
        None => fixed,
    }
}

/// Builds access to the API of one repository.
#[derive(Debug)]
pub struct GitHubRepoApiBuilder {
    repository: String,
    token: Option<String>,
}

/// The plain-value model of a [`GitHubRepoApiBuilder`]: the repository and the token.
pub struct GitHubRepoApiBuilderView {
    pub repository: Seq<char>,
    pub token: Option<Seq<char>>,
}

impl View for GitHubRepoApiBuilder {
    type V = GitHubRepoApiBuilderView;

    closed spec fn view(&self) -> GitHubRepoApiBuilderView {
        GitHubRepoApiBuilderView {
            repository: self.repository@,
            token: match self.token {
                Some(t) => Some(t@),
                None => None,
            },
        }
    }
}

impl GitHubRepoApiBuilder {
    pub fn new(repository: &str) -> (r: Self)
        ensures
            r@ == (GitHubRepoApiBuilderView { repository: repository@, token: None }),
    {
        GitHubRepoApiBuilder { repository: repository.to_owned(), token: None }
    }

    /// Authenticate with `token`.
    pub fn token(self, token: &str) -> (r: Self)
        ensures
            r@ == (GitHubRepoApiBuilderView { token: Some(token@), ..self@ }),
    {
        let mut b = self;
        b.token = Some(token.to_owned());
        b
    }

    fn repo_api_url(repo: &str) -> (r: String)
        ensures
            r@ == repo_api_url(repo@),
    {
        let mut s = String::from_str(GITHUB_API);
        s.append("/repos/");
        s.append(repo);
        s
    }

    /// What the client needs to be built with: fails when the token cannot be sent as a
    /// header value.
    pub fn client_config(&self) -> (r: Result<ClientConfig, BuildError>)
        ensures
            match r {
                Ok(c) => {
                    &&& self@.token is Some ==> header_value_valid("Bearer "@ + self@.token->0)
                    &&& c.user_agent@ == USER_AGENT@
                    &&& c.headers@.len() == default_headers(self@.token).len()
                    &&& forall|i: int|
                        0 <= i < c.headers@.len() ==> ((#[trigger] c.headers@[i]).0@,
                        c.headers@[i].1@) == default_headers(self@.token)[i]
                    &&& c.repo_api_url@ == repo_api_url(self@.repository)
                },
                Err(e) => e == BuildError::InvalidToken && self@.token is Some && !header_value_valid(
                    "Bearer "@ + self@.token->0,
                ),
            },
    {
        let mut headers: Vec<(String, String)> = Vec::new();
        match &self.token {
            Some(token) => {
                let mut value = String::from_str("Bearer ");
                value.append(token.as_str());
                if !header_value_accepted(value.as_str()) {
                    return Err(BuildError::InvalidToken);
                }
                headers.push((String::from_str("authorization"), value));
            },
            None => {},
        }
        headers.push((String::from_str("accept"), String::from_str(ACCEPT)));
        headers.push((String::from_str("x-github-api-version"), String::from_str(API_VERSION)));
        Ok(
            ClientConfig {
                user_agent: String::from_str(USER_AGENT),
                headers,
                repo_api_url: Self::repo_api_url(self.repository.as_str()),
            },
        )
    }
}

/// The URL of the labels of issue `number`.
pub open spec fn spec_issue_labels_url(repo_api_url: Seq<char>, number: int) -> Seq<char> {
    repo_api_url + "/issues/"@ + signed_decimal(number) + "/labels"@
}

/// The URL of the comparison of two revisions.
pub open spec fn spec_compare_url(repo_api_url: Seq<char>, old: Seq<char>, new: Seq<char>) -> Seq<char> {
    repo_api_url + "/compare/"@ + old + "..."@ + new
}

/// The URL of the pull requests.
pub open spec fn spec_pulls_url(repo_api_url: Seq<char>) -> Seq<char> {
    repo_api_url + "/pulls"@
}

/// Where to add labels to issue `number`.
pub fn issue_labels_url(repo_api_url: &str, number: i64) -> (r: String)
    ensures
        r@ == spec_issue_labels_url(repo_api_url@, number as int),
{
    let mut s = repo_api_url.to_owned();
    s.append("/issues/");
    push_signed_decimal(&mut s, number);
    s.append("/labels");
    s
}

/// Where to compare two revisions.
pub fn compare_url(repo_api_url: &str, old_revision: &str, new_revision: &str) -> (r: String)
    ensures
        r@ == spec_compare_url(repo_api_url@, old_revision@, new_revision@),
{
    let mut s = repo_api_url.to_owned();
    s.append("/compare/");
    s.append(old_revision);
    s.append("...");
    s.append(new_revision);
    s
}

/// Where to open pull requests.
pub fn pulls_url(repo_api_url: &str) -> (r: String)
    ensures
        r@ == spec_pulls_url(repo_api_url@),
{
    let mut s = repo_api_url.to_owned();
    s.append("/pulls");
    s
}

/// A pull request to open.
#[derive(Debug)]
pub struct PullRequest {
    pub head: String,
    pub base: String,
    pub title: String,
    pub body: Option<String>,
    pub maintainer_can_modify: bool,
}

impl PullRequest {
    /// A pull request of `branch` into the default branch of the repository, that the
    /// maintainers may change.
    pub fn new(branch: &str, title: &str, body: Option<String>, default_branch: &str) -> (r: Self)
        ensures
            r.head@ == branch@,
            r.base@ == default_branch@,
            r.title@ == title@,
            r.body == body,
            r.maintainer_can_modify,
    {
        PullRequest {
            head: branch.to_owned(),
            base: default_branch.to_owned(),
            title: title.to_owned(),
            body,
            maintainer_can_modify: true,
        }
    }
}

/// The first `n` commits of a comparison (revision and message of each), as a list of
/// commits.
pub open spec fn comparison_commits(commits: Seq<(Seq<char>, Seq<char>)>, n: nat) -> Seq<CommitView> {
    if commits.len() <= n {
        commits
    } else {
        commits.take(n as int)
    }
}

/// The list of the first `num_commits` commits that GitHub reported in a comparison,
/// each given by its revision (`sha`) and its message.
pub fn rev_list_from_comparison(commits: &Vec<(String, String)>, num_commits: usize) -> (r: RevList)
    ensures
        r@ == comparison_commits(
            commits@.map_values(|c: (String, String)| (c.0@, c.1@)),
            num_commits as nat,
        ),
{
    let ghost all = commits@.map_values(|c: (String, String)| (c.0@, c.1@));
    let n = if commits.len() < num_commits {
        commits.len()
    } else {
        num_commits
    };
    let mut out: Vec<Commit> = Vec::new();
    let mut i: usize = 0;
    while i < n
        invariant
            n <= commits@.len(),
            i <= n,
            all == commits@.map_values(|c: (String, String)| (c.0@, c.1@)),
            commit_views(out@) == all.take(i as int),
        decreases n - i,
    {
        let c = Commit::from_str(commits[i].0.as_str(), commits[i].1.as_str());
        let ghost before = out@;
        out.push(c);
        proof {
            assert(out@ == before.push(c));
            assert(commit_views(out@) =~= commit_views(before).push(c@));
            assert(all.take(i + 1) =~= all.take(i as int).push(all[i as int]));
        }
        i = i + 1;
    }
    proof {
        if commits@.len() <= num_commits {
            assert(all.take(n as int) =~= all);
        }
    }
    RevList::from_commits(out)
}

} // verus!
