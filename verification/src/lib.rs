//! A small service that lists the public gists of a GitHub user over HTTP.
//!
//! The verified part holds every decision the service makes: how a request
//! line is routed, how GitHub's answer is read, how gists are summarised and
//! how the JSON and HTTP text of a reply are laid out. Running `curl`,
//! decoding GitHub's JSON and the sockets are left to the caller.

pub mod error;
pub mod gist;
pub mod github;
pub mod http;
pub mod json;
pub mod names;
pub mod server;
pub mod text;

pub use error::AppError;
pub use gist::{GistService, GistSummary, GitHubGist};
pub use github::GitHubClient;
pub use json::json_error;
