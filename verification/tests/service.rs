use gist_service::http::{
    connection_reply, http_response, parse_request_line, render_listing, reply, route_request,
};
use gist_service::json::{gist_json_text, gists_json_text};
use gist_service::{json_error, AppError, GistService, GistSummary};

struct StubGistService {
    response: Result<Vec<GistSummary>, AppError>,
}

impl GistService for StubGistService {
    fn list_public_gists(&self, _user: &str) -> Result<Vec<GistSummary>, AppError> {
        self.response.clone()
    }
}

fn ask(service: &dyn GistService) -> impl Fn(&str) -> Result<Vec<GistSummary>, AppError> + '_ {
    move |user: &str| service.list_public_gists(user)
}

fn octocat_gist() -> GistSummary {
    GistSummary {
        id: "1".to_string(),
        description: Some("octocat gist".to_string()),
        html_url: "https://gist.github.com/octocat/1".to_string(),
        files: vec!["hello.txt".to_string()],
    }
}

fn bad_request_text(e: AppError) -> String {
    match e {
        AppError::BadRequest(m) => m,
        other => panic!("expected a bad request, got {:?}", other),
    }
}

#[test]
fn status_codes_follow_the_error() {
    assert_eq!(AppError::BadRequest("x".to_string()).status_code(), 400);
    assert_eq!(AppError::UserNotFound("x".to_string()).status_code(), 404);
    assert_eq!(AppError::Upstream("x".to_string()).status_code(), 502);
}

#[test]
fn reason_phrases_follow_the_error() {
    assert_eq!(AppError::BadRequest("x".to_string()).reason_phrase(), "Bad Request");
    assert_eq!(AppError::UserNotFound("x".to_string()).reason_phrase(), "Not Found");
    assert_eq!(AppError::Upstream("x".to_string()).reason_phrase(), "Bad Gateway");
}

#[test]
fn messages_follow_the_error() {
    assert_eq!(AppError::BadRequest("bad".to_string()).message(), "bad");
    assert_eq!(
        AppError::UserNotFound("missing-user".to_string()).message(),
        "GitHub user 'missing-user' was not found"
    );
    assert_eq!(AppError::Upstream("down".to_string()).message(), "down");
}

#[test]
fn json_error_wraps_the_message() {
    assert_eq!(json_error("Request line was empty"), r#"{"error":"Request line was empty"}"#);
}

#[test]
fn json_error_escapes_quotes_and_line_breaks() {
    assert_eq!(json_error("say \"hi\"\n"), r#"{"error":"say \"hi\"\n"}"#);
}

#[test]
fn gist_json_lists_fields_in_order() {
    assert_eq!(
        gist_json_text(&octocat_gist()),
        r#"{"id":"1","description":"octocat gist","html_url":"https://gist.github.com/octocat/1","files":["hello.txt"]}"#
    );
}

#[test]
fn gist_json_writes_null_for_a_missing_description() {
    let gist = GistSummary {
        id: "2".to_string(),
        description: None,
        html_url: "u".to_string(),
        files: vec!["a".to_string(), "b".to_string()],
    };
    assert_eq!(
        gist_json_text(&gist),
        r#"{"id":"2","description":null,"html_url":"u","files":["a","b"]}"#
    );
}

#[test]
fn gists_json_is_an_array() {
    assert_eq!(gists_json_text(&vec![]), "[]");
    let two = vec![octocat_gist(), octocat_gist()];
    let one = gist_json_text(&octocat_gist());
    assert_eq!(gists_json_text(&two), format!("[{},{}]", one, one));
}

#[test]
fn http_response_counts_body_bytes() {
    assert_eq!(
        http_response(200, "OK", "[]"),
        "HTTP/1.1 200 OK\r\nContent-Type: application/json\r\nContent-Length: 2\r\nConnection: close\r\n\r\n[]"
    );
    assert!(http_response(404, "Not Found", "é").contains("Content-Length: 2\r\n"));
}

#[test]
fn request_line_names_the_user() {
    assert_eq!(parse_request_line("GET /octocat HTTP/1.1").unwrap(), "octocat");
    assert_eq!(parse_request_line("  GET\t/octocat  ").unwrap(), "octocat");
}

#[test]
fn request_line_errors() {
    let cases = [
        ("", "Request line is incomplete"),
        ("   ", "Request line is incomplete"),
        ("GET", "Request path is missing"),
        ("POST /octocat HTTP/1.1", "Only GET requests are supported"),
        ("POST", "Request path is missing"),
        ("GET / HTTP/1.1", "Path must be /{user}"),
        ("GET octocat HTTP/1.1", "Path must be /{user}"),
        ("GET /octocat/gists HTTP/1.1", "Path must contain a single user segment"),
    ];
    for (line, message) in cases {
        assert_eq!(bad_request_text(parse_request_line(line).unwrap_err()), message, "{line}");
    }
}

#[test]
fn render_listing_passes_errors_on() {
    let e = render_listing(Err(AppError::Upstream("down".to_string()))).unwrap_err();
    assert_eq!(e.message(), "down");
    assert_eq!(render_listing(Ok(vec![])).unwrap(), "[]");
}

#[test]
fn route_request_answers_with_the_gists() {
    let service = StubGistService { response: Ok(vec![octocat_gist()]) };
    let body = route_request("GET /octocat HTTP/1.1", ask(&service)).unwrap();
    assert_eq!(body, gists_json_text(&vec![octocat_gist()]));
}

#[test]
fn route_request_refuses_without_asking_the_service() {
    let service = StubGistService { response: Ok(vec![octocat_gist()]) };
    let e = route_request("DELETE /octocat HTTP/1.1", ask(&service)).unwrap_err();
    assert_eq!(e.status_code(), 400);
}

#[test]
fn reply_carries_status_and_reason_of_the_error() {
    let text = reply(Err(AppError::Upstream("down".to_string())));
    assert!(text.starts_with("HTTP/1.1 502 Bad Gateway\r\n"));
    assert!(text.ends_with("\r\n\r\n{\"error\":\"down\"}"));
}

#[test]
fn empty_request_line_is_a_bad_request() {
    let service = StubGistService { response: Ok(vec![]) };
    let text = connection_reply("", ask(&service));
    assert_eq!(text, http_response(400, "Bad Request", r#"{"error":"Request line was empty"}"#));
}

#[test]
fn returns_gists_for_a_user_line() {
    let service = StubGistService { response: Ok(vec![octocat_gist()]) };
    let response = connection_reply("GET /octocat HTTP/1.1\r\n", ask(&service));
    assert!(response.starts_with("HTTP/1.1 200 OK"));
    assert!(response.contains("\"id\":\"1\""));
    assert!(response.contains("\"html_url\":\"https://gist.github.com/octocat/1\""));
}

#[test]
fn returns_not_found_for_an_unknown_user_line() {
    let service = StubGistService {
        response: Err(AppError::UserNotFound("missing-user".to_string())),
    };
    let response = connection_reply("GET /missing-user HTTP/1.1\r\n", ask(&service));
    assert!(response.starts_with("HTTP/1.1 404 Not Found"));
    assert!(response.contains("GitHub user 'missing-user' was not found"));
}

#[test]
fn dyn_services_are_accepted() {
    let service: std::sync::Arc<dyn GistService> =
        std::sync::Arc::new(StubGistService { response: Ok(vec![]) });
    let response = connection_reply("GET /octocat HTTP/1.1\r\n", ask(service.as_ref()));
    assert!(response.ends_with("\r\n\r\n[]"));
}

#[test]
fn the_lookup_is_made_for_the_named_user_once() {
    let asked = std::cell::RefCell::new(Vec::new());
    let lookup = |user: &str| {
        asked.borrow_mut().push(user.to_string());
        Ok(vec![])
    };
    assert_eq!(route_request(" GET\t /octocat  extra ", &lookup).unwrap(), "[]");
    assert_eq!(route_request("GET /octocat HTTP/1.1", &lookup).unwrap(), "[]");
    assert!(route_request("GET /a/b HTTP/1.1", &lookup).is_err());
    assert_eq!(*asked.borrow(), vec!["octocat".to_string(), "octocat".to_string()]);
}

#[test]
fn header_lines_do_not_reach_the_reply() {
    let lookup = |_user: &str| Ok(vec![octocat_gist()]);
    assert_eq!(
        connection_reply("GET /octocat HTTP/1.1\r\n", lookup),
        reply(Ok(gists_json_text(&vec![octocat_gist()])))
    );
}

#[test]
fn json_error_escapes_control_characters() {
    assert_eq!(
        json_error("a\u{1}\u{1f}\t\r\u{8}\u{c}\\/\u{7f}é"),
        "{\"error\":\"a\\u0001\\u001f\\t\\r\\b\\f\\\\/\u{7f}é\"}"
    );
}

#[test]
fn json_error_reads_back_as_its_message() {
    for message in ["plain", "quote \" and \\ and \n\t\u{1}", "é"] {
        let value: serde_json::Value = serde_json::from_str(&json_error(message)).unwrap();
        let object = value.as_object().unwrap();
        assert_eq!(object.len(), 1);
        assert_eq!(object["error"].as_str().unwrap(), message);
    }
}
