use gist_service::server::handle_path;
use gist_service::{json_error, GistSummary, GitHubGist};

#[test]
fn parses_github_gists_into_summaries() {
    let body = r#"
        [
          {
            "id": "1",
            "description": "octocat gist",
            "html_url": "https://gist.github.com/octocat/1",
            "files": {
              "zeta.txt": {},
              "alpha.txt": {}
            }
          }
        ]
        "#;

    let listing: serde_json::Value = serde_json::from_str(body).expect("gists should parse");
    let gists: Vec<GistSummary> = listing
        .as_array()
        .expect("gists should parse")
        .iter()
        .map(|gist| {
            GistSummary::from_gist(GitHubGist {
                id: gist["id"].as_str().unwrap().to_string(),
                description: gist["description"].as_str().map(|d| d.to_string()),
                html_url: gist["html_url"].as_str().unwrap().to_string(),
                files: gist["files"].as_object().unwrap().keys().cloned().collect(),
            })
        })
        .collect();

    assert_eq!(
        gists,
        vec![GistSummary {
            id: "1".to_string(),
            description: Some("octocat gist".to_string()),
            html_url: "https://gist.github.com/octocat/1".to_string(),
            files: vec!["alpha.txt".to_string(), "zeta.txt".to_string()],
        }]
    );
}

#[test]
fn returns_gists_for_octocat() {
    let response = handle_path("/octocat", |_| {
        Ok(vec![GistSummary {
            id: "1".to_string(),
            description: Some("octocat gist".to_string()),
            html_url: "https://gist.github.com/octocat/1".to_string(),
            files: vec!["hello.txt".to_string()],
        }])
    });

    assert_eq!(response.0, 200);
    assert!(response.1.contains("\"id\":\"1\""));
}

#[test]
fn returns_not_found_for_missing_user() {
    let response = handle_path("/missing-user", |_| {
        Err((404, json_error("GitHub user 'missing-user' was not found")))
    });

    assert_eq!(response.0, 404);
    assert!(response.1.contains("missing-user"));
}
