//! Answering one HTTP request: which user a request line asks for, the JSON
//! body of the answer, and the HTTP text that carries it.

use vstd::prelude::*;
use vstd::utf8::encode_utf8;

use crate::error::AppError;
use crate::gist::GistSummary;
use crate::json::{gist_views, gists_json, gists_json_text, json_error, json_error_text};
use crate::text::{
    all_ascii_digits, contains_char, decimal, decimal_text, digits_value, is_space,
    lemma_decimal_reads_back, lemma_words_from_word, next_word, same_text,
    trim_end, trim_end_str, words, words_from,
};

verus! {

/// What a request line asks for: `Ok` with the user whose gists it asks
/// for, or `Err` with the reason it is refused.
pub open spec fn request_target(line: Seq<char>) -> Result<Seq<char>, Seq<char>> {
    let w = words(line);
    if w.len() == 0 {
        Err("Request line is incomplete"@)
    } else if w.len() == 1 {
        Err("Request path is missing"@)
    } else if w[0] != "GET"@ {
        Err("Only GET requests are supported"@)
    } else if !(w[1].len() > 1 && w[1][0] == '/') {
        Err("Path must be /{user}"@)
    } else if w[1].drop_first().contains('/') {
        Err("Path must contain a single user segment"@)
    } else {
        Ok(w[1].drop_first())
    }
}

/// A request line `GET /{user} {version}` asks for the gists of `user`,
/// whenever `user` is a non-empty text without `/` and without white space,
/// and `version` holds no white space.
pub proof fn lemma_get_line_asks_for_user(user: Seq<char>, version: Seq<char>)
    requires
        user.len() > 0,
        !user.contains('/'),
        forall|i: int| 0 <= i < user.len() ==> !is_space(#[trigger] user[i]),
        forall|i: int| 0 <= i < version.len() ==> !is_space(#[trigger] version[i]),
    ensures
        request_target("GET /"@ + user + " "@ + version) == Ok::<Seq<char>, Seq<char>>(user),
{
    reveal_strlit("GET /");
    reveal_strlit(" ");
    reveal_strlit("GET");
    let s = "GET /"@ + user + " "@ + version;
    let u = user.len() as int;
    assert(s.len() == 6 + u + version.len());
    assert(s[0] == 'G' && s[1] == 'E' && s[2] == 'T' && s[3] == ' ' && s[4] == '/');
    assert forall|j: int| 5 <= j < 5 + u implies s[j] == user[j - 5] by {}
    assert(s[5 + u] == ' ');
    lemma_words_from_word(s, 0, 3);
    assert(words_from(s, 3) == words_from(s, 4));
    assert forall|j: int| 4 <= j < 5 + u implies !is_space(#[trigger] s[j]) by {
        if j > 4 {
            assert(s[j] == user[j - 5]);
        }
    }
    lemma_words_from_word(s, 4, 5 + u);
    let w = words(s);
    assert(w =~= seq![s.subrange(0, 3)] + (seq![s.subrange(4, 5 + u)] + words_from(s, 5 + u)));
    assert(w[0] =~= "GET"@);
    assert(w[1] =~= seq!['/'] + user);
    assert(w[1].drop_first() =~= user);
}

/// Reads the user out of a request line such as `GET /octocat HTTP/1.1`.
pub fn parse_request_line(line: &str) -> (r: Result<String, AppError>)
    ensures
        match r {
            Ok(user) => request_target(line@) == Ok::<Seq<char>, Seq<char>>(user@),
            Err(e) => e is BadRequest && request_target(line@) == Err::<Seq<char>, Seq<char>>(
                e.spec_message(),
            ),
        },
{
    let n = line.unicode_len();
    let first = next_word(line, n, 0);
    let (mb, me) = match first {
        None => {
            return Err(AppError::BadRequest(String::from_str("Request line is incomplete")));
        },
        Some(bounds) => bounds,
    };
    let second = next_word(line, n, me);
    let (pb, pe) = match second {
        None => {
            proof {
                assert(words(line@) =~= seq![line@.subrange(mb as int, me as int)]);
            }
            return Err(AppError::BadRequest(String::from_str("Request path is missing")));
        },
        Some(bounds) => bounds,
    };
    let ghost w = words(line@);
    proof {
        let rest = words_from(line@, pe as int);
        assert(w =~= seq![line@.subrange(mb as int, me as int)] + (seq![
            line@.subrange(pb as int, pe as int),
        ] + rest));
        assert(w.len() >= 2);
        assert(w[0] == line@.subrange(mb as int, me as int));
        assert(w[1] == line@.subrange(pb as int, pe as int));
    }
    let method = line.substring_char(mb, me);
    if !same_text(method, "GET") {
        return Err(AppError::BadRequest(String::from_str("Only GET requests are supported")));
    }
    let path = line.substring_char(pb, pe);
    let plen = pe - pb;
    if plen <= 1 || path.get_char(0) != '/' {
        return Err(AppError::BadRequest(String::from_str("Path must be /{user}")));
    }
    let user = path.substring_char(1, plen);
    proof {
        assert(user@ =~= w[1].drop_first());
    }
    if contains_char(user, '/') {
        return Err(
            AppError::BadRequest(String::from_str("Path must contain a single user segment")),
        );
    }
    Ok(String::from_str(user))
}

/// The body of the answer to a request once the gists have been looked up:
/// the JSON array of the gists, or the error of the lookup.
pub fn render_listing(listing: Result<Vec<GistSummary>, AppError>) -> (r: Result<
    String,
    AppError,
>)
    ensures
        match listing {
            Ok(gists) => (r matches Ok(body) && body@ == gists_json(gist_views(gists@))),
            Err(e) => r == Err::<String, AppError>(e),
        },
{
    match listing {
        Ok(gists) => Ok(gists_json_text(&gists)),
        Err(e) => Err(e),
    }
}

/// The outcome of routing once the gists have been looked up: the JSON
/// array of the gists, or the error of the lookup.
pub open spec fn rendered_listing(listing: Result<Vec<GistSummary>, AppError>) -> Result<
    Seq<char>,
    AppError,
> {
    match listing {
        Ok(gists) => Ok(gists_json(gist_views(gists@))),
        Err(e) => Err(e),
    }
}

/// A failed lookup is passed on as it came: its error, and so its status
/// code and reason phrase, make the reply; a lookup that found gists is
/// answered `200 OK` with their JSON array.
pub proof fn lemma_lookup_outcome_is_the_reply(answer: Result<Vec<GistSummary>, AppError>)
    ensures
        answer matches Err(e) ==> rendered_listing(answer) == Err::<Seq<char>, AppError>(e)
            && reply_text(rendered_listing(answer)) == http_response_text(
            e.spec_status_code(),
            e.spec_reason_phrase(),
            json_error_text(e.spec_message()),
        ),
        answer matches Ok(gists) ==> rendered_listing(answer) == Ok::<Seq<char>, AppError>(
            gists_json(gist_views(gists@)),
        ) && reply_text(rendered_listing(answer)) == http_response_text(
            200,
            "OK"@,
            gists_json(gist_views(gists@)),
        ),
{
}

/// The status line and the `Content-Length` header of a reply read back as
/// the status code and as the number of UTF-8 bytes of the body, whatever
/// the body holds.
pub proof fn lemma_reply_numbers_read_back(status: u16, reason: Seq<char>, body: Seq<char>)
    ensures
        exists|code: Seq<char>, length: Seq<char>|
            {
                &&& http_response_text(status, reason, body) == "HTTP/1.1 "@ + code + " "@ + reason
                    + "\r\nContent-Type: application/json\r\nContent-Length: "@ + length
                    + "\r\nConnection: close\r\n\r\n"@ + body
                &&& code.len() > 0 && all_ascii_digits(code) && digits_value(code) == status
                &&& length.len() > 0 && all_ascii_digits(length) && digits_value(length)
                    == encode_utf8(body).len()
            },
{
    let code = decimal(status as nat);
    let length = decimal(encode_utf8(body).len());
    lemma_decimal_reads_back(status as nat);
    lemma_decimal_reads_back(encode_utf8(body).len());
    assert(http_response_text(status, reason, body) == "HTTP/1.1 "@ + code + " "@ + reason
        + "\r\nContent-Type: application/json\r\nContent-Length: "@ + length
        + "\r\nConnection: close\r\n\r\n"@ + body);
}

/// Answers a request line with the JSON body of the gists it asks for, or
/// with the reason it cannot be answered. A refused line never reaches
/// `lookup`; an accepted one is looked up for exactly the user it names, and
/// the answer is rendered as it came.
pub fn route_request<F>(request_line: &str, lookup: F) -> (r: Result<String, AppError>) where
    F: Fn(&str) -> Result<Vec<GistSummary>, AppError>,

    requires
        forall|user: &str|
            Ok::<Seq<char>, Seq<char>>(#[trigger] user@) == request_target(request_line@)
                ==> lookup.requires((user,)),
    ensures
        request_target(request_line@) is Err ==> (r matches Err(e) && e is BadRequest && Err::<
            Seq<char>,
            Seq<char>,
        >(e.spec_message()) == request_target(request_line@)),
        request_target(request_line@) is Ok ==> exists|
            user: &str,
            answer: Result<Vec<GistSummary>, AppError>,
        |
            {
                &&& Ok::<Seq<char>, Seq<char>>(user@) == request_target(request_line@)
                &&& lookup.ensures((user,), answer)
                &&& routed_view(r) == rendered_listing(answer)
                &&& answer matches Err(e) ==> r == Err::<String, AppError>(e)
                &&& answer matches Ok(gists) ==> (r matches Ok(body) && body@ == gists_json(
                    gist_views(gists@),
                ))
            },
{
    let user = match parse_request_line(request_line) {
        Ok(user) => user,
        Err(e) => {
            return Err(e);
        },
    };
    let name = user.as_str();
    let listing = lookup(name);
    let ghost answer = listing;
    let r = render_listing(listing);
    proof {
        assert(lookup.ensures((name,), answer));
        assert(routed_view(r) == rendered_listing(answer));
    }
    r
}

/// The HTTP text of a reply: status line, the three headers, a blank line
/// and the body. `Content-Length` counts the body's UTF-8 bytes.
pub open spec fn http_response_text(status: u16, reason: Seq<char>, body: Seq<char>) -> Seq<char> {
    "HTTP/1.1 "@ + decimal(status as nat) + " "@ + reason
        + "\r\nContent-Type: application/json\r\nContent-Length: "@ + decimal(
        encode_utf8(body).len(),
    ) + "\r\nConnection: close\r\n\r\n"@ + body
}

/// Writes the HTTP text of a reply.
pub fn http_response(status: u16, reason: &str, body: &str) -> (t: String)
    ensures
        t@ == http_response_text(status, reason@, body@),
{
    let mut t = String::from_str("HTTP/1.1 ");
    t.append(decimal_text(status as u64).as_str());
    t.append(" ");
    t.append(reason);
    t.append("\r\nContent-Type: application/json\r\nContent-Length: ");
    let length = body.as_bytes().len();
    t.append(decimal_text(length as u64).as_str());
    t.append("\r\nConnection: close\r\n\r\n");
    t.append(body);
    t
}

/// The HTTP reply to the outcome of routing a request: `200 OK` with the
/// body, or the error's status and reason with `{"error": message}`.
pub open spec fn reply_text(routed: Result<Seq<char>, AppError>) -> Seq<char> {
    match routed {
        Ok(body) => http_response_text(200, "OK"@, body),
        Err(e) => http_response_text(
            e.spec_status_code(),
            e.spec_reason_phrase(),
            json_error_text(e.spec_message()),
        ),
    }
}

pub open spec fn routed_view(routed: Result<String, AppError>) -> Result<Seq<char>, AppError> {
    match routed {
        Ok(body) => Ok(body@),
        Err(e) => Err(e),
    }
}

/// Writes the HTTP reply to the outcome of routing a request.
pub fn reply(routed: Result<String, AppError>) -> (t: String)
    ensures
        t@ == reply_text(routed_view(routed)),
{
    match routed {
        Ok(body) => http_response(200, "OK", body.as_str()),
        Err(e) => http_response(e.status_code(), e.reason_phrase(), json_error(e.message().as_str()).as_str()),
    }
}

/// The HTTP reply to a request whose first line is `request_line` (as read,
/// with its line break; empty when the client sent nothing).
pub fn connection_reply<F>(request_line: &str, lookup: F) -> (t: String) where
    F: Fn(&str) -> Result<Vec<GistSummary>, AppError>,

    requires
        request_line@.len() > 0 ==> forall|user: &str|
            Ok::<Seq<char>, Seq<char>>(#[trigger] user@) == request_target(trim_end(request_line@))
                ==> lookup.requires((user,)),
    ensures
        request_line@.len() == 0 ==> t@ == http_response_text(
            400,
            "Bad Request"@,
            json_error_text("Request line was empty"@),
        ),
        request_line@.len() > 0 ==> match request_target(trim_end(request_line@)) {
            Err(m) => t@ == http_response_text(400, "Bad Request"@, json_error_text(m)),
            Ok(u) => exists|user: &str, answer: Result<Vec<GistSummary>, AppError>|
                {
                    &&& user@ == u
                    &&& lookup.ensures((user,), answer)
                    &&& t@ == reply_text(rendered_listing(answer))
                },
        },
{
    if request_line.is_empty() {
        return http_response(400, "Bad Request", json_error("Request line was empty").as_str());
    }
    let routed = route_request(trim_end_str(request_line), lookup);
    reply(routed)
}

} // verus!
