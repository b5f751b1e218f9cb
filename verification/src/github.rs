//! Asking GitHub for a user's gists through `curl`, and reading its answer.
//!
//! The process is run by the caller; this module says with which arguments,
//! and what the bytes that come back mean.

use vstd::prelude::*;
use vstd::utf8::{
    decode_utf8, encode_utf8, encode_utf8_decode_utf8, encode_utf8_valid_utf8, valid_utf8,
};

use crate::error::{AppError, ErrorView};
use crate::gist::GistSummary;
use crate::names::texts;
use crate::text::{
    decimal, decimal_text, is_ascii_digit, last_index_of, last_index_of_char,
    lemma_decimal_reads_back, lemma_digits_not_space, lemma_last_index_before_suffix, parse_u16,
    trim, trim_end, trim_line_breaks, trim_line_breaks_str, trim_start, trim_str, is_space,
};

verus! {

/// The text of the error that `String::from_utf8` reports for `bytes`.
pub uninterp spec fn utf8_error_text(bytes: Seq<u8>) -> Seq<char>;

/// The text that `String::from_utf8_lossy` makes of `bytes`.
pub uninterp spec fn utf8_lossy_text(bytes: Seq<u8>) -> Seq<char>;

/// The text of the error that `str::parse::<u16>` reports for `text`.
pub uninterp spec fn u16_parse_error_text(text: Seq<char>) -> Seq<char>;

/// Calls `String::from_utf8`. The contract claims what its documentation
/// says: the bytes are taken as they are when they are valid UTF-8, and
/// refused otherwise; the text of the refusal is named.
#[verifier::external_body]
pub(crate) fn utf8_string(bytes: Vec<u8>) -> (r: Result<String, String>)
    ensures
        match r {
            Ok(s) => valid_utf8(bytes@) && s@ == decode_utf8(bytes@),
            Err(e) => !valid_utf8(bytes@) && e@ == utf8_error_text(bytes@),
        },
{
    match String::from_utf8(bytes) {
        Ok(s) => Ok(s),
        Err(e) => Err(e.to_string()),
    }
}

/// Calls `String::from_utf8_lossy`. The contract names its result and
/// claims, as its documentation says, that valid UTF-8 is taken as it is.
#[verifier::external_body]
pub(crate) fn utf8_string_lossy(bytes: &[u8]) -> (s: String)
    ensures
        s@ == utf8_lossy_text(bytes@),
        valid_utf8(bytes@) ==> s@ == decode_utf8(bytes@),
{
    String::from_utf8_lossy(bytes).into_owned()
}

/// Calls `str::parse::<u16>`. The contract claims what the documentation
/// of `u16::from_str` says it accepts (an optional `+` and ASCII digits of a
/// value that fits) and what it returns then; the text of a refusal is named.
#[verifier::external_body]
fn parse_status_number(text: &str) -> (r: Result<u16, String>)
    ensures
        match r {
            Ok(v) => parse_u16(text@) == Some(v),
            Err(e) => parse_u16(text@) is None && e@ == u16_parse_error_text(text@),
        },
{
    match text.parse::<u16>() {
        Ok(v) => Ok(v),
        Err(e) => Err(e.to_string()),
    }
}

/// The parts of what `curl --write-out "\n%{http_code}"` printed: the text
/// before the last line break (once the line breaks at the very end are left
/// out) and the text from that line break on.
pub open spec fn body_and_status_text(response: Seq<char>) -> Option<(Seq<char>, Seq<char>)> {
    let t = trim_line_breaks(response);
    let i = last_index_of(t, '\n');
    if i < 0 {
        None
    } else {
        Some((t.take(i), t.skip(i)))
    }
}

/// The body and status code in what `curl` printed, or why there are none.
pub open spec fn body_and_status(response: Seq<char>) -> Result<(Seq<char>, u16), ErrorView> {
    match body_and_status_text(response) {
        None => Err(ErrorView::Upstream("GitHub response did not include an HTTP status code"@)),
        Some((body, status)) => match parse_u16(trim(status)) {
            Some(code) => Ok((body, code)),
            None => Err(
                ErrorView::Upstream(
                    "Could not parse GitHub status code: "@ + u16_parse_error_text(trim(status)),
                ),
            ),
        },
    }
}

pub open spec fn split_view(r: Result<(&str, u16), AppError>) -> Result<(Seq<char>, u16), ErrorView> {
    match r {
        Ok((body, code)) => Ok((body@, code)),
        Err(e) => Err(e@),
    }
}

/// The decimal digits of a status code, after a line break, read back as
/// that status code: `curl --write-out "\n%{http_code}"` appends that line to
/// the body, and the body before it is kept exactly, whatever it holds.
pub proof fn lemma_status_line_reads_back(body: Seq<char>, code: u16)
    ensures
        body_and_status(body + "\n"@ + decimal(code as nat)) == Ok::<(Seq<char>, u16), ErrorView>(
            (body, code),
        ),
{
    reveal_strlit("\n");
    let d = decimal(code as nat);
    lemma_decimal_reads_back(code as nat);
    lemma_digits_not_space(d);
    let s = body + "\n"@ + d;
    assert(s.last() == d.last());
    assert(is_ascii_digit(d[d.len() - 1]));
    assert(trim_line_breaks(s) == s);
    assert(!d.contains('\n')) by {
        if d.contains('\n') {
            let k = choose|k: int| 0 <= k < d.len() && d[k] == '\n';
            assert(is_ascii_digit(d[k]));
        }
    }
    assert("\n"@ =~= seq!['\n']);
    lemma_last_index_before_suffix(body, '\n', d);
    let status = s.skip(body.len() as int);
    assert(s.take(body.len() as int) =~= body);
    assert(status =~= seq!['\n'] + d);
    assert(trim_end(status) == status) by {
        assert(status.last() == d.last());
    }
    assert(trim_start(status) == trim_start(d)) by {
        assert(status.drop_first() =~= d);
    }
    assert(trim_start(d) == d) by {
        assert(!is_space(d[0]));
    }
    assert(trim(status) == d);
}

/// A body that `curl` printed with status `200` is the listing; `404` means
/// that the user is unknown; any other status is a failure of GitHub's.
pub proof fn lemma_listing_outcome_by_status(user: Seq<char>, body: Seq<char>, code: u16)
    ensures
        ({
            let printed = encode_utf8(body + "\n"@ + decimal(code as nat));
            &&& code == 200 ==> listing_outcome(user, printed) == Ok::<Seq<char>, ErrorView>(body)
            &&& code == 404 ==> listing_outcome(user, printed) == Err::<Seq<char>, ErrorView>(
                ErrorView::UserNotFound(user),
            )
            &&& code != 200 && code != 404 ==> listing_outcome(user, printed) == Err::<
                Seq<char>,
                ErrorView,
            >(
                ErrorView::Upstream(
                    "GitHub API returned unexpected status code "@ + decimal(code as nat),
                ),
            )
        }),
{
    let text = body + "\n"@ + decimal(code as nat);
    encode_utf8_valid_utf8(text);
    encode_utf8_decode_utf8(text);
    lemma_status_line_reads_back(body, code);
}

/// Splits what `curl` printed into the response body and the status code
/// that `--write-out "\n%{http_code}"` put after it.
pub fn split_body_and_status(response: &str) -> (r: Result<(&str, u16), AppError>)
    ensures
        split_view(r) == body_and_status(response@),
{
    let trimmed = trim_line_breaks_str(response);
    let split_index = match last_index_of_char(trimmed, '\n') {
        Some(i) => i,
        None => {
            return Err(
                AppError::Upstream(
                    String::from_str("GitHub response did not include an HTTP status code"),
                ),
            );
        },
    };
    let n = trimmed.unicode_len();
    let body = trimmed.substring_char(0, split_index);
    let status = trimmed.substring_char(split_index, n);
    proof {
        assert(body@ =~= trimmed@.take(split_index as int));
        assert(status@ =~= trimmed@.skip(split_index as int));
    }
    match parse_status_number(trim_str(status)) {
        Ok(code) => Ok((body, code)),
        Err(detail) => Err(
            AppError::Upstream(
                String::from_str("Could not parse GitHub status code: ").concat(detail.as_str()),
            ),
        ),
    }
}

/// What GitHub's answer, as `curl` printed it, means for a request for the
/// gists of `user`: the JSON body of the list, or why there is none.
pub open spec fn listing_outcome(user: Seq<char>, stdout: Seq<u8>) -> Result<Seq<char>, ErrorView> {
    if !valid_utf8(stdout) {
        Err(ErrorView::Upstream("GitHub response was not valid UTF-8: "@ + utf8_error_text(stdout)))
    } else {
        match body_and_status(decode_utf8(stdout)) {
            Err(e) => Err(e),
            Ok((body, code)) => if code == 200 {
                Ok(body)
            } else if code == 404 {
                Err(ErrorView::UserNotFound(user))
            } else {
                Err(
                    ErrorView::Upstream(
                        "GitHub API returned unexpected status code "@ + decimal(code as nat),
                    ),
                )
            },
        }
    }
}

pub open spec fn outcome_view(r: Result<String, AppError>) -> Result<Seq<char>, ErrorView> {
    match r {
        Ok(body) => Ok(body@),
        Err(e) => Err(e@),
    }
}

/// The text of the error when `curl` itself failed, given what it wrote to
/// its standard error.
pub open spec fn curl_failure_text(stderr: Seq<u8>) -> Seq<char> {
    let detail = trim(utf8_lossy_text(stderr));
    "GitHub API request failed: "@ + if detail.len() == 0 {
        "curl exited with a non-zero status"@
    } else {
        detail
    }
}

/// Reaches GitHub's API for the public gists of a user.
pub struct GitHubClient;

impl GitHubClient {
    pub fn new() -> (client: Self)
        ensures
            client == GitHubClient,
    {
        GitHubClient
    }

    /// The address of the list of `user`'s public gists.
    pub fn gists_url(user: &str) -> (url: String)
        ensures
            url@ == "https://api.github.com/users/"@ + user@ + "/gists"@,
    {
        String::from_str("https://api.github.com/users/").concat(user).concat("/gists")
    }

    /// The arguments with which `curl` asks GitHub for the gists of `user`
    /// and prints the status code on a line of its own after the body.
    pub fn curl_arguments(&self, user: &str) -> (args: Vec<String>)
        ensures
            texts(args@) == seq![
                "--silent"@,
                "--show-error"@,
                "--location"@,
                "--header"@,
                "Accept: application/vnd.github+json"@,
                "--header"@,
                "X-GitHub-Api-Version: 2022-11-28"@,
                "--header"@,
                "User-Agent: equal-experts-operability-assignment"@,
                "--write-out"@,
                "\n%{http_code}"@,
                "https://api.github.com/users/"@ + user@ + "/gists"@,
            ],
    {
        let mut args: Vec<String> = Vec::new();
        args.push(String::from_str("--silent"));
        args.push(String::from_str("--show-error"));
        args.push(String::from_str("--location"));
        args.push(String::from_str("--header"));
        args.push(String::from_str("Accept: application/vnd.github+json"));
        args.push(String::from_str("--header"));
        args.push(String::from_str("X-GitHub-Api-Version: 2022-11-28"));
        args.push(String::from_str("--header"));
        args.push(String::from_str("User-Agent: equal-experts-operability-assignment"));
        args.push(String::from_str("--write-out"));
        args.push(String::from_str("\n%{http_code}"));
        args.push(Self::gists_url(user));
        proof {
            assert(texts(args@) =~= seq![
                "--silent"@,
                "--show-error"@,
                "--location"@,
                "--header"@,
                "Accept: application/vnd.github+json"@,
                "--header"@,
                "X-GitHub-Api-Version: 2022-11-28"@,
                "--header"@,
                "User-Agent: equal-experts-operability-assignment"@,
                "--write-out"@,
                "\n%{http_code}"@,
                "https://api.github.com/users/"@ + user@ + "/gists"@,
            ]);
        }
        args
    }

    /// The error when `curl` ran but reported a failure, given what it wrote
    /// to its standard error.
    pub fn curl_failure(stderr: &[u8]) -> (e: AppError)
        ensures
            e@ == ErrorView::Upstream(curl_failure_text(stderr@)),
    {
        let lossy = utf8_string_lossy(stderr);
        let detail = trim_str(lossy.as_str());
        let message = String::from_str("GitHub API request failed: ");
        if detail.unicode_len() == 0 {
            AppError::Upstream(message.concat("curl exited with a non-zero status"))
        } else {
            AppError::Upstream(message.concat(detail))
        }
    }

    /// Reads what `curl` printed when it succeeded: the JSON body of the
    /// list of gists when GitHub answered `200`, the error otherwise.
    pub fn listing_body(&self, user: &str, stdout: Vec<u8>) -> (r: Result<String, AppError>)
        ensures
            outcome_view(r) == listing_outcome(user@, stdout@),
    {
        let ghost bytes = stdout@;
        let text = match utf8_string(stdout) {
            Ok(text) => text,
            Err(detail) => {
                return Err(
                    AppError::Upstream(
                        String::from_str("GitHub response was not valid UTF-8: ").concat(
                            detail.as_str(),
                        ),
                    ),
                );
            },
        };
        let (body, status_code) = match split_body_and_status(text.as_str()) {
            Ok(parts) => parts,
            Err(e) => {
                return Err(e);
            },
        };
        if status_code == 200 {
            Ok(String::from_str(body))
        } else if status_code == 404 {
            Err(AppError::UserNotFound(String::from_str(user)))
        } else {
            Err(
                AppError::Upstream(
                    String::from_str("GitHub API returned unexpected status code ").concat(
                        decimal_text(status_code as u64).as_str(),
                    ),
                ),
            )
        }
    }

    /// What a lookup of `user`'s gists gives once `curl` has run: the error
    /// of a failed run, the error that GitHub's answer means, or, for an
    /// answer of `200`, what `parse` makes of the body, unchanged.
    pub fn gists_from_curl_output<P>(
        &self,
        user: &str,
        succeeded: bool,
        stderr: &[u8],
        stdout: Vec<u8>,
        parse: P,
    ) -> (r: Result<Vec<GistSummary>, AppError>) where
        P: Fn(&str) -> Result<Vec<GistSummary>, AppError>,

        requires
            succeeded ==> forall|body: &str|
                Ok::<Seq<char>, ErrorView>(#[trigger] body@) == listing_outcome(user@, stdout@)
                    ==> parse.requires((body,)),
        ensures
            !succeeded ==> (r matches Err(e) && e@ == ErrorView::Upstream(
                curl_failure_text(stderr@),
            )),
            succeeded ==> match listing_outcome(user@, stdout@) {
                Err(v) => (r matches Err(e) && e@ == v),
                Ok(b) => exists|body: &str, parsed: Result<Vec<GistSummary>, AppError>|
                    {
                        &&& body@ == b
                        &&& parse.ensures((body,), parsed)
                        &&& r == parsed
                    },
            },
    {
        if !succeeded {
            return Err(Self::curl_failure(stderr));
        }
        let body = match self.listing_body(user, stdout) {
            Ok(body) => body,
            Err(e) => {
                return Err(e);
            },
        };
        let text = body.as_str();
        let parsed = parse(text);
        proof {
            assert(parse.ensures((text,), parsed));
        }
        parsed
    }
}

impl Default for GitHubClient {
    fn default() -> (client: Self)
        ensures
            client == GitHubClient,
    {
        Self::new()
    }
}

} // verus!
