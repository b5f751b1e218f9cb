//! The decisions of the stand-alone server, which answers `GET /{user}`
//! with a status code and a JSON body and leaves the HTTP framing to its
//! server library.

use vstd::prelude::*;
use vstd::utf8::{
    decode_utf8, encode_utf8, encode_utf8_decode_utf8, encode_utf8_valid_utf8, valid_utf8,
};

use crate::github::{utf8_error_text, utf8_lossy_text, utf8_string, utf8_string_lossy};
use crate::gist::GistSummary;
use crate::json::{gist_views, gists_json, gists_json_text, json_error, json_error_text};
use crate::text::{
    contains_char, is_space, last_index_of, last_index_of_char, lemma_last_index_before_suffix,
    same_text, trim, trim_end, trim_end_str, trim_str,
};

verus! {

/// A status code and a JSON error body `{"error": message}`.
pub fn error_response(status: u16, message: &str) -> (r: (u16, String))
    ensures
        r.0 == status,
        r.1@ == json_error_text(message@),
{
    (status, json_error(message))
}

/// The user that a request path names: the text after a leading `/`, when
/// it is not empty and holds no further `/`.
pub open spec fn path_user(path: Seq<char>) -> Option<Seq<char>> {
    if path.len() > 1 && path[0] == '/' && !path.drop_first().contains('/') {
        Some(path.drop_first())
    } else {
        None
    }
}

/// A failed fetch is answered with the status code it came with and its
/// message as `{"error": ...}`; a successful one with `200` and the JSON
/// array of the gists.
pub proof fn lemma_fetch_status_is_the_reply_status(
    fetched: Result<Vec<GistSummary>, (u16, String)>,
)
    ensures
        fetched matches Err((status, message)) ==> listing_reply(fetched) == (
            status,
            json_error_text(message@),
        ),
        fetched matches Ok(gists) ==> listing_reply(fetched) == (
            200u16,
            gists_json(gist_views(gists@)),
        ),
{
}

/// Every non-empty text without `/` is a user: the path `/` followed by it
/// names exactly that user; and a path names a user only in that form.
pub proof fn lemma_path_names_user(path: Seq<char>, user: Seq<char>)
    ensures
        user.len() > 0 && !user.contains('/') ==> path_user(seq!['/'] + user) == Some(user),
        path_user(path) == Some(user) ==> path == seq!['/'] + user && user.len() > 0
            && !user.contains('/'),
{
    assert((seq!['/'] + user).drop_first() =~= user);
    if path_user(path) == Some(user) {
        assert(path =~= seq!['/'] + path.drop_first());
    }
}

/// Reads the user out of a request path.
pub fn requested_user(path: &str) -> (r: Option<&str>)
    ensures
        match r {
            Some(user) => path_user(path@) == Some(user@),
            None => path_user(path@) is None,
        },
{
    let n = path.unicode_len();
    if n == 0 || path.get_char(0) != '/' {
        return None;
    }
    let user = path.substring_char(1, n);
    proof {
        assert(user@ =~= path@.drop_first());
    }
    if n == 1 || contains_char(user, '/') {
        return None;
    }
    Some(user)
}

pub open spec fn reply_view(r: (u16, String)) -> (u16, Seq<char>) {
    (r.0, r.1@)
}

/// The status code and body that answer a lookup of gists: `200` and the
/// JSON array of the gists, or the status code of the failure and the text
/// it came with, wrapped as `{"error": ...}`.
pub open spec fn listing_reply(fetched: Result<Vec<GistSummary>, (u16, String)>) -> (u16, Seq<char>) {
    match fetched {
        Ok(gists) => (200, gists_json(gist_views(gists@))),
        Err((status, message)) => (status, json_error_text(message@)),
    }
}

/// Answers a lookup of gists.
pub fn listing_response(fetched: Result<Vec<GistSummary>, (u16, String)>) -> (r: (u16, String))
    ensures
        reply_view(r) == listing_reply(fetched),
        fetched matches Err((status, message)) ==> r.0 == status && r.1@ == json_error_text(
            message@,
        ),
        fetched matches Ok(gists) ==> r.0 == 200 && r.1@ == gists_json(gist_views(gists@)),
{
    match fetched {
        Ok(gists) => (200, gists_json_text(&gists)),
        Err((status, message)) => error_response(status, message.as_str()),
    }
}

/// Answers a request for `path`: `400` for a path that names no user, and
/// otherwise the answer to what `fetcher` returns for that user.
pub fn handle_path<F>(path: &str, fetcher: F) -> (r: (u16, String)) where
    F: Fn(&str) -> Result<Vec<GistSummary>, (u16, String)>,

    requires
        forall|user: &str| Some(#[trigger] user@) == path_user(path@) ==> fetcher.requires((user,)),
    ensures
        path_user(path@) is None ==> r.0 == 400 && r.1@ == json_error_text("Path must be /{user}"@),
        path_user(path@) is Some ==> exists|user: &str, fetched: Result<Vec<GistSummary>, (u16, String)>|
            {
                &&& Some(user@) == path_user(path@)
                &&& fetcher.ensures((user,), fetched)
                &&& reply_view(r) == listing_reply(fetched)
                &&& fetched matches Err((status, message)) ==> r.0 == status && r.1@
                    == json_error_text(message@)
                &&& fetched is Ok ==> r.0 == 200
            },
{
    match requested_user(path) {
        None => error_response(400, "Path must be /{user}"),
        Some(user) => {
            let fetched = fetcher(user);
            let ghost got = fetched;
            let r = listing_response(fetched);
            proof {
                assert(fetcher.ensures((user,), got));
            }
            r
        },
    }
}

/// Answers a request: only `GET` is served.
pub fn serve_request<F>(is_get: bool, path: &str, fetcher: F) -> (r: (u16, String)) where
    F: Fn(&str) -> Result<Vec<GistSummary>, (u16, String)>,

    requires
        is_get ==> forall|user: &str|
            Some(#[trigger] user@) == path_user(path@) ==> fetcher.requires((user,)),
    ensures
        !is_get ==> r.0 == 400 && r.1@ == json_error_text("Only GET requests are supported"@),
        is_get && path_user(path@) is None ==> r.0 == 400 && r.1@ == json_error_text(
            "Path must be /{user}"@,
        ),
        is_get && path_user(path@) is Some ==> exists|
            user: &str,
            fetched: Result<Vec<GistSummary>, (u16, String)>,
        |
            {
                &&& Some(user@) == path_user(path@)
                &&& fetcher.ensures((user,), fetched)
                &&& reply_view(r) == listing_reply(fetched)
            },
{
    if !is_get {
        error_response(400, "Only GET requests are supported")
    } else {
        handle_path(path, fetcher)
    }
}

/// The failure when `curl` ran but reported an error: `502` and a message
/// with what it wrote to its standard error.
pub fn fetch_failure(stderr: &[u8]) -> (r: (u16, String))
    ensures
        r.0 == 502,
        r.1@ == "GitHub API request failed: "@ + trim(utf8_lossy_text(stderr@)),
{
    let lossy = utf8_string_lossy(stderr);
    let message = String::from_str("GitHub API request failed: ").concat(trim_str(lossy.as_str()));
    (502, message)
}

/// The body and the status text of what `curl` printed: what comes before
/// and after its last line break, once the white space at the end is left
/// out.
pub open spec fn split_last_line(response: Seq<char>) -> Option<(Seq<char>, Seq<char>)> {
    let t = trim_end(response);
    let i = last_index_of(t, '\n');
    if i < 0 {
        None
    } else {
        Some((t.take(i), t.skip(i + 1)))
    }
}

/// What GitHub's answer, as `curl` printed it, means for the gists of
/// `user`: the JSON body of the list, or a status code and the message that
/// the reply's error body carries.
pub open spec fn fetch_outcome(user: Seq<char>, stdout: Seq<u8>) -> Result<Seq<char>, (u16, Seq<char>)> {
    if !valid_utf8(stdout) {
        Err((502, "Invalid GitHub response: "@ + utf8_error_text(stdout)))
    } else {
        match split_last_line(decode_utf8(stdout)) {
            None => Err((502, "GitHub response did not include a status code"@)),
            Some((body, status)) => if status == "200"@ {
                Ok(body)
            } else if status =~= "404"@ {
                Err((404, "GitHub user '"@ + user + "' was not found"@))
            } else {
                Err((502, "GitHub API returned status "@ + status))
            },
        }
    }
}

/// A status text printed on its own line after the body is read back, and
/// so is the body, whatever it holds: a body that came with `200` is the
/// listing, `404` names an unknown user, and any other status is a failure.
pub proof fn lemma_fetch_outcome_by_status(user: Seq<char>, body: Seq<char>, status: Seq<char>)
    requires
        status.len() > 0,
        forall|i: int| 0 <= i < status.len() ==> !is_space(#[trigger] status[i]),
    ensures
        status == "200"@ ==> fetch_outcome(user, encode_utf8(body + "\n"@ + status)) == Ok::<
            Seq<char>,
            (u16, Seq<char>),
        >(body),
        status == "404"@ ==> fetch_outcome(user, encode_utf8(body + "\n"@ + status)) == Err::<
            Seq<char>,
            (u16, Seq<char>),
        >((404, "GitHub user '"@ + user + "' was not found"@)),
        status != "200"@ && status != "404"@ ==> fetch_outcome(
            user,
            encode_utf8(body + "\n"@ + status),
        ) == Err::<Seq<char>, (u16, Seq<char>)>(
            (502, "GitHub API returned status "@ + status),
        ),
{
    reveal_strlit("\n");
    reveal_strlit("200");
    reveal_strlit("404");
    let text = body + "\n"@ + status;
    encode_utf8_valid_utf8(text);
    encode_utf8_decode_utf8(text);
    assert(text.last() == status.last());
    assert(trim_end(text) == text);
    assert(!status.contains('\n')) by {
        if status.contains('\n') {
            let k = choose|k: int| 0 <= k < status.len() && status[k] == '\n';
            assert(is_space(status[k]));
        }
    }
    assert("\n"@ =~= seq!['\n']);
    lemma_last_index_before_suffix(body, '\n', status);
    assert(text.take(body.len() as int) =~= body);
    assert(text.skip(body.len() + 1int) =~= status);
    assert(split_last_line(text) == Some((body, status)));
}

/// What a lookup of `user`'s gists gives once `curl` has run: `502` with
/// its error output when the run failed, the status and message that
/// GitHub's answer means, or, for an answer of `200`, what `parse` makes of
/// the body, unchanged.
pub fn fetch_from_curl_output<P>(
    user: &str,
    succeeded: bool,
    stderr: &[u8],
    stdout: Vec<u8>,
    parse: P,
) -> (r: Result<Vec<GistSummary>, (u16, String)>) where
    P: Fn(&str) -> Result<Vec<GistSummary>, (u16, String)>,

    requires
        succeeded ==> forall|body: &str|
            Ok::<Seq<char>, (u16, Seq<char>)>(#[trigger] body@) == fetch_outcome(user@, stdout@)
                ==> parse.requires((body,)),
    ensures
        !succeeded ==> (r matches Err((status, message)) && status == 502 && message@
            == "GitHub API request failed: "@ + trim(utf8_lossy_text(stderr@))),
        succeeded ==> match fetch_outcome(user@, stdout@) {
            Err((status, m)) => (r matches Err((s, message)) && s == status && message@ == m),
            Ok(b) => exists|body: &str, parsed: Result<Vec<GistSummary>, (u16, String)>|
                {
                    &&& body@ == b
                    &&& parse.ensures((body,), parsed)
                    &&& r == parsed
                },
        },
{
    if !succeeded {
        return Err(fetch_failure(stderr));
    }
    let body = match fetched_body(user, stdout) {
        Ok(body) => body,
        Err(failure) => {
            return Err(failure);
        },
    };
    let text = body.as_str();
    let parsed = parse(text);
    proof {
        assert(parse.ensures((text,), parsed));
    }
    parsed
}

pub open spec fn fetch_view(r: Result<String, (u16, String)>) -> Result<Seq<char>, (u16, Seq<char>)> {
    match r {
        Ok(body) => Ok(body@),
        Err((status, message)) => Err((status, message@)),
    }
}

/// Reads what `curl` printed when it succeeded: the JSON body of the list of
/// gists when the status is `200`, the status code and error message to
/// reply with otherwise.
pub fn fetched_body(user: &str, stdout: Vec<u8>) -> (r: Result<String, (u16, String)>)
    ensures
        fetch_view(r) == fetch_outcome(user@, stdout@),
{
    let text = match utf8_string(stdout) {
        Ok(text) => text,
        Err(detail) => {
            let message = String::from_str("Invalid GitHub response: ").concat(detail.as_str());
            return Err((502, message));
        },
    };
    let trimmed = trim_end_str(text.as_str());
    let i = match last_index_of_char(trimmed, '\n') {
        Some(i) => i,
        None => {
            return Err((502, String::from_str("GitHub response did not include a status code")));
        },
    };
    let n = trimmed.unicode_len();
    let body = trimmed.substring_char(0, i);
    let status = trimmed.substring_char(i + 1, n);
    proof {
        assert(body@ =~= trimmed@.take(i as int));
        assert(status@ =~= trimmed@.skip(i + 1));
    }
    if same_text(status, "200") {
        Ok(String::from_str(body))
    } else if same_text(status, "404") {
        let message = String::from_str("GitHub user '").concat(user).concat("' was not found");
        Err((404, message))
    } else {
        let message = String::from_str("GitHub API returned status ").concat(status);
        Err((502, message))
    }
}

} // verus!
