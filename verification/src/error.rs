use vstd::prelude::*;

verus! {

/// Why a request could not be answered with a list of gists.
#[derive(Debug, Clone)]
pub enum AppError {
    /// The request itself is malformed; the text says how.
    BadRequest(String),
    /// GitHub knows no user of this name.
    UserNotFound(String),
    /// GitHub could not be reached or gave an answer that cannot be used.
    Upstream(String),
}

/// The texts that an error holds.
pub enum ErrorView {
    BadRequest(Seq<char>),
    UserNotFound(Seq<char>),
    Upstream(Seq<char>),
}

impl View for AppError {
    type V = ErrorView;

    open spec fn view(&self) -> ErrorView {
        match self {
            AppError::BadRequest(message) => ErrorView::BadRequest(message@),
            AppError::UserNotFound(user) => ErrorView::UserNotFound(user@),
            AppError::Upstream(message) => ErrorView::Upstream(message@),
        }
    }
}

impl AppError {
    /// The HTTP status code that reports this error.
    pub open spec fn spec_status_code(&self) -> u16 {
        match self {
            AppError::BadRequest(_) => 400,
            AppError::UserNotFound(_) => 404,
            AppError::Upstream(_) => 502,
        }
    }

    /// The reason phrase that goes with the status code.
    pub open spec fn spec_reason_phrase(&self) -> Seq<char> {
        match self {
            AppError::BadRequest(_) => "Bad Request"@,
            AppError::UserNotFound(_) => "Not Found"@,
            AppError::Upstream(_) => "Bad Gateway"@,
        }
    }

    /// The text shown to the client.
    pub open spec fn spec_message(&self) -> Seq<char> {
        match self {
            AppError::BadRequest(message) => message@,
            AppError::UserNotFound(user) => "GitHub user '"@ + user@ + "' was not found"@,
            AppError::Upstream(message) => message@,
        }
    }

    /// A malformed request is answered with `400 Bad Request`, an unknown
    /// user with `404 Not Found`, and a failure of GitHub's with
    /// `502 Bad Gateway`.
    pub proof fn lemma_status_and_reason_agree(&self)
        ensures
            self is BadRequest ==> self.spec_status_code() == 400 && self.spec_reason_phrase()
                == "Bad Request"@,
            self is UserNotFound ==> self.spec_status_code() == 404 && self.spec_reason_phrase()
                == "Not Found"@,
            self is Upstream ==> self.spec_status_code() == 502 && self.spec_reason_phrase()
                == "Bad Gateway"@,
    {
    }

    pub fn status_code(&self) -> (code: u16)
        ensures
            code == self.spec_status_code(),
    {
        match self {
            AppError::BadRequest(_) => 400,
            AppError::UserNotFound(_) => 404,
            AppError::Upstream(_) => 502,
        }
    }

    pub fn reason_phrase(&self) -> (phrase: &'static str)
        ensures
            phrase@ == self.spec_reason_phrase(),
    {
        match self {
            AppError::BadRequest(_) => "Bad Request",
            AppError::UserNotFound(_) => "Not Found",
            AppError::Upstream(_) => "Bad Gateway",
        }
    }

    pub fn message(&self) -> (text: String)
        ensures
            text@ == self.spec_message(),
    {
        match self {
            AppError::BadRequest(message) => message.clone(),
            AppError::UserNotFound(user) => {
                String::from_str("GitHub user '").concat(user.as_str()).concat("' was not found")
            },
            AppError::Upstream(message) => message.clone(),
        }
    }
}

} // verus!
