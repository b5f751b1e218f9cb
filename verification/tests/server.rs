use gist_service::server::{
    error_response, fetch_failure, fetch_from_curl_output, fetched_body, handle_path, listing_response, requested_user,
    serve_request,
};
use gist_service::GistSummary;

type Fetched = Result<Vec<GistSummary>, (u16, String)>;

fn no_gists(_user: &str) -> Fetched {
    Ok(vec![])
}

#[test]
fn error_response_wraps_the_message() {
    assert_eq!(error_response(400, "nope"), (400, r#"{"error":"nope"}"#.to_string()));
}

#[test]
fn requested_user_reads_the_path() {
    assert_eq!(requested_user("/octocat"), Some("octocat"));
    assert_eq!(requested_user("/"), None);
    assert_eq!(requested_user(""), None);
    assert_eq!(requested_user("octocat"), None);
    assert_eq!(requested_user("/a/b"), None);
}

#[test]
fn handle_path_refuses_paths_without_a_user() {
    for path in ["", "/", "octocat", "/octocat/gists"] {
        let response = handle_path(path, no_gists);
        assert_eq!(response, (400, r#"{"error":"Path must be /{user}"}"#.to_string()));
    }
}

#[test]
fn handle_path_asks_for_the_named_user() {
    let response = handle_path("/octocat", |user: &str| {
        assert_eq!(user, "octocat");
        Ok(vec![])
    });
    assert_eq!(response, (200, "[]".to_string()));
}

#[test]
fn listing_response_encodes_the_failure_once() {
    let (status, body) = listing_response(Err((404, "GitHub user 'x' was not found".to_string())));
    assert_eq!(status, 404);
    assert_eq!(body, r#"{"error":"GitHub user 'x' was not found"}"#);
}

#[test]
fn unknown_user_reply_is_a_single_json_object() {
    let fetched = fetched_body("missing-user", b"{}\n404".to_vec());
    let (status, body) = handle_path("/missing-user", |_| fetched.clone().map(|_| vec![]));
    assert_eq!(status, 404);
    assert_eq!(body, r#"{"error":"GitHub user 'missing-user' was not found"}"#);
}

#[test]
fn serve_request_only_serves_get() {
    assert_eq!(
        serve_request(false, "/octocat", no_gists),
        (400, r#"{"error":"Only GET requests are supported"}"#.to_string())
    );
    assert_eq!(serve_request(true, "/octocat", no_gists), (200, "[]".to_string()));
}

#[test]
fn fetch_failure_reports_stderr() {
    assert_eq!(
        fetch_failure(b"  boom \n"),
        (502, "GitHub API request failed: boom".to_string())
    );
}

#[test]
fn fetched_body_reads_the_status_line() {
    assert_eq!(fetched_body("octocat", b"[]\n200\n".to_vec()), Ok("[]".to_string()));
    assert_eq!(
        fetched_body("missing-user", b"{}\n404".to_vec()),
        Err((404, "GitHub user 'missing-user' was not found".to_string()))
    );
    assert_eq!(
        fetched_body("octocat", b"{}\n500".to_vec()),
        Err((502, "GitHub API returned status 500".to_string()))
    );
    assert_eq!(
        fetched_body("octocat", b"{}".to_vec()),
        Err((502, "GitHub response did not include a status code".to_string()))
    );
    assert_eq!(
        fetched_body("octocat", vec![0xc3]),
        Err((502, "Invalid GitHub response: incomplete utf-8 byte sequence from index 0".to_string()))
    );
}

#[test]
fn curl_output_decides_the_fetch() {
    let parse = |body: &str| -> Fetched {
        assert_eq!(body, "[]");
        Ok(vec![])
    };
    assert_eq!(fetch_from_curl_output("octocat", true, b"", b"[]\n200".to_vec(), parse), Ok(vec![]));
    assert_eq!(
        fetch_from_curl_output("octocat", false, b" down ", b"".to_vec(), parse),
        Err((502, "GitHub API request failed: down".to_string()))
    );
    assert_eq!(
        fetch_from_curl_output("ghost", true, b"", b"{}\n404".to_vec(), parse),
        Err((404, "GitHub user 'ghost' was not found".to_string()))
    );
}
