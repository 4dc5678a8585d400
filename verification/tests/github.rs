use lon::http::github::{
    compare_url, issue_labels_url, pulls_url, rev_list_from_comparison, BuildError,
    GitHubRepoApiBuilder, PullRequest, PullRequestResponse,
};

#[test]
fn client_config_without_token() {
    let config = GitHubRepoApiBuilder::new("nikstur/lon").client_config().unwrap();
    assert_eq!(config.user_agent, "LonBot");
    assert_eq!(config.repo_api_url, "https://api.github.com/repos/nikstur/lon");
    assert_eq!(
        config.headers,
        vec![
            ("accept".to_string(), "application/vnd.github+json".to_string()),
            ("x-github-api-version".to_string(), "2022-11-28".to_string()),
        ]
    );
}

#[test]
fn client_config_with_token() {
    let config = GitHubRepoApiBuilder::new("nikstur/lon").token("ghp_secret").client_config().unwrap();
    assert_eq!(config.headers.len(), 3);
    assert_eq!(config.headers[0], ("authorization".to_string(), "Bearer ghp_secret".to_string()));
}

#[test]
fn client_config_with_invalid_token() {
    let err = GitHubRepoApiBuilder::new("nikstur/lon").token("bad\ntoken").client_config().unwrap_err();
    assert_eq!(err, BuildError::InvalidToken);
    let err = GitHubRepoApiBuilder::new("nikstur/lon").token("del\u{7f}").client_config().unwrap_err();
    assert_eq!(err, BuildError::InvalidToken);
    // Tabs and non-ASCII characters may stand in a header value.
    assert!(GitHubRepoApiBuilder::new("o/r").token("a\tb").client_config().is_ok());
    assert!(GitHubRepoApiBuilder::new("o/r").token("ä").client_config().is_ok());
}

#[test]
fn api_urls() {
    let base = "https://api.github.com/repos/nikstur/lon";
    assert_eq!(issue_labels_url(base, 42), "https://api.github.com/repos/nikstur/lon/issues/42/labels");
    assert_eq!(issue_labels_url(base, 0), "https://api.github.com/repos/nikstur/lon/issues/0/labels");
    assert_eq!(issue_labels_url(base, -7), "https://api.github.com/repos/nikstur/lon/issues/-7/labels");
    assert_eq!(
        issue_labels_url(base, i64::MIN),
        "https://api.github.com/repos/nikstur/lon/issues/-9223372036854775808/labels"
    );
    assert_eq!(compare_url(base, "a1", "b2"), "https://api.github.com/repos/nikstur/lon/compare/a1...b2");
    assert_eq!(pulls_url(base), "https://api.github.com/repos/nikstur/lon/pulls");
}

#[test]
fn pull_request_targets_default_branch() {
    let pr = PullRequest::new("lon/update", "lon: update", Some("body".to_string()), "main");
    assert_eq!(pr.head, "lon/update");
    assert_eq!(pr.base, "main");
    assert_eq!(pr.title, "lon: update");
    assert_eq!(pr.body.as_deref(), Some("body"));
    assert!(pr.maintainer_can_modify);
    let response = PullRequestResponse { html_url: "https://github.com/o/r/pull/1".to_string(), number: 1 };
    assert_eq!(response.number, 1);
}

#[test]
fn comparison_takes_first_commits() {
    let commits = vec![
        ("aaaaaaa1".to_string(), "first\n\nbody".to_string()),
        ("bbbbbbb2".to_string(), "second".to_string()),
        ("ccccccc3".to_string(), "third".to_string()),
    ];
    let list = rev_list_from_comparison(&commits, 2);
    assert_eq!(list.len(), 2);
    assert_eq!(list.revs()[0].revision.as_str(), "aaaaaaa1");
    assert_eq!(list.revs()[0].message, "first\n\nbody");
    assert_eq!(list.revs()[1].revision.as_str(), "bbbbbbb2");
    assert_eq!(rev_list_from_comparison(&commits, 10).len(), 3);
    assert_eq!(rev_list_from_comparison(&commits, 0).len(), 0);
}
