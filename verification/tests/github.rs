use gist_service::github::split_body_and_status;
use gist_service::{AppError, GitHubClient};

fn upstream_text(e: AppError) -> String {
    match e {
        AppError::Upstream(m) => m,
        other => panic!("expected an upstream error, got {:?}", other),
    }
}

#[test]
fn gists_url_names_the_user() {
    assert_eq!(GitHubClient::gists_url("octocat"), "https://api.github.com/users/octocat/gists");
}

#[test]
fn curl_arguments_ask_for_the_status_code() {
    let args = GitHubClient::new().curl_arguments("octocat");
    assert_eq!(
        args,
        vec![
            "--silent",
            "--show-error",
            "--location",
            "--header",
            "Accept: application/vnd.github+json",
            "--header",
            "X-GitHub-Api-Version: 2022-11-28",
            "--header",
            "User-Agent: equal-experts-operability-assignment",
            "--write-out",
            "\n%{http_code}",
            "https://api.github.com/users/octocat/gists",
        ]
    );
}

#[test]
fn default_client_is_the_new_client() {
    let _client: GitHubClient = Default::default();
}

#[test]
fn split_reads_body_and_status() {
    assert_eq!(split_body_and_status("[]\n200").unwrap(), ("[]", 200));
    assert_eq!(split_body_and_status("[1,\n2]\n404\r\n\n").unwrap(), ("[1,\n2]", 404));
    assert_eq!(split_body_and_status("\n 200 ").unwrap(), ("", 200));
    assert_eq!(split_body_and_status("body\n+7").unwrap(), ("body", 7));
}

#[test]
fn split_without_a_line_break_has_no_status() {
    assert_eq!(
        upstream_text(split_body_and_status("200").unwrap_err()),
        "GitHub response did not include an HTTP status code"
    );
    assert_eq!(
        upstream_text(split_body_and_status("\r\n\r\n").unwrap_err()),
        "GitHub response did not include an HTTP status code"
    );
}

#[test]
fn split_reports_an_unreadable_status() {
    assert_eq!(
        upstream_text(split_body_and_status("[]\nabc").unwrap_err()),
        "Could not parse GitHub status code: invalid digit found in string"
    );
    assert_eq!(
        upstream_text(split_body_and_status("[]\n70000").unwrap_err()),
        "Could not parse GitHub status code: number too large to fit in target type"
    );
    assert_eq!(
        upstream_text(split_body_and_status("[]\n ").unwrap_err()),
        "Could not parse GitHub status code: cannot parse integer from empty string"
    );
}

#[test]
fn listing_body_keeps_the_body_of_a_success() {
    let client = GitHubClient::new();
    let body = client.listing_body("octocat", b"[{\"id\":\"1\"}]\n200".to_vec()).unwrap();
    assert_eq!(body, "[{\"id\":\"1\"}]");
}

#[test]
fn listing_body_reports_an_unknown_user() {
    let client = GitHubClient::new();
    match client.listing_body("missing-user", b"{}\n404".to_vec()).unwrap_err() {
        AppError::UserNotFound(user) => assert_eq!(user, "missing-user"),
        other => panic!("unexpected {:?}", other),
    }
}

#[test]
fn listing_body_reports_other_statuses() {
    let client = GitHubClient::new();
    let e = client.listing_body("octocat", b"{}\n500".to_vec()).unwrap_err();
    assert_eq!(upstream_text(e), "GitHub API returned unexpected status code 500");
}

#[test]
fn listing_body_refuses_invalid_utf8() {
    let client = GitHubClient::new();
    let e = client.listing_body("octocat", vec![0xff, b'\n', b'2', b'0', b'0']).unwrap_err();
    assert_eq!(
        upstream_text(e),
        "GitHub response was not valid UTF-8: invalid utf-8 sequence of 1 bytes from index 0"
    );
}

#[test]
fn curl_failure_reports_stderr() {
    assert_eq!(
        upstream_text(GitHubClient::curl_failure(b"  curl: (6) Could not resolve host\n")),
        "GitHub API request failed: curl: (6) Could not resolve host"
    );
    assert_eq!(
        upstream_text(GitHubClient::curl_failure(b" \n")),
        "GitHub API request failed: curl exited with a non-zero status"
    );
    assert_eq!(
        upstream_text(GitHubClient::curl_failure(&[b'x', 0xff])),
        "GitHub API request failed: x\u{fffd}"
    );
}

#[test]
fn curl_output_decides_the_lookup() {
    let client = GitHubClient::new();
    let parse = |body: &str| -> Result<Vec<gist_service::GistSummary>, AppError> {
        assert_eq!(body, "[]");
        Ok(vec![])
    };
    assert_eq!(client.gists_from_curl_output("octocat", true, b"", b"[]\n200".to_vec(), parse).unwrap(), vec![]);
    let e = client
        .gists_from_curl_output("octocat", false, b"boom\n", b"[]\n200".to_vec(), parse)
        .unwrap_err();
    assert_eq!(upstream_text(e), "GitHub API request failed: boom");
    match client.gists_from_curl_output("ghost", true, b"", b"{}\n404".to_vec(), parse).unwrap_err() {
        AppError::UserNotFound(user) => assert_eq!(user, "ghost"),
        other => panic!("unexpected {:?}", other),
    }
}
