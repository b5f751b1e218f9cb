//! Gists as GitHub lists them and as this service reports them, and the
//! service that looks them up.

use vstd::prelude::*;

use crate::error::AppError;
use crate::names::{lemma_name_before_irreflexive, sorted_names, strictly_sorted, texts};

verus! {

/// One public gist as the service reports it.
#[derive(Debug, Clone, PartialEq, Eq)]
pub struct GistSummary {
    pub id: String,
    pub description: Option<String>,
    pub html_url: String,
    /// The names of the gist's files, sorted in byte order, each once.
    pub files: Vec<String>,
}

/// The texts that a gist summary holds.
pub struct GistView {
    pub id: Seq<char>,
    pub description: Option<Seq<char>>,
    pub html_url: Seq<char>,
    pub files: Seq<Seq<char>>,
}

pub open spec fn optional_text(t: Option<String>) -> Option<Seq<char>> {
    match t {
        Some(s) => Some(s@),
        None => None,
    }
}

impl View for GistSummary {
    type V = GistView;

    open spec fn view(&self) -> GistView {
        GistView {
            id: self.id@,
            description: optional_text(self.description),
            html_url: self.html_url@,
            files: texts(self.files@),
        }
    }
}

/// One gist as GitHub's API lists it: its id, description and address, and
/// the names of its files (the keys of its `files` object).
#[derive(Debug, Clone, PartialEq, Eq)]
pub struct GitHubGist {
    pub id: String,
    pub description: Option<String>,
    pub html_url: String,
    pub files: Vec<String>,
}

impl GistSummary {
    /// The summary of a gist that GitHub listed: the same id, description
    /// and address, and its file names sorted, each once.
    pub fn from_gist(gist: GitHubGist) -> (summary: GistSummary)
        ensures
            summary.id == gist.id,
            summary.description == gist.description,
            summary.html_url == gist.html_url,
            strictly_sorted(summary@.files),
            summary@.files.to_set() == texts(gist.files@).to_set(),
            texts(gist.files@).no_duplicates() ==> summary.files@.len() == gist.files@.len(),
    {
        let files = sorted_names(&gist.files);
        proof {
            let given = texts(gist.files@);
            let kept = texts(files@);
            if given.no_duplicates() {
                assert(kept.no_duplicates()) by {
                    assert forall|i: int, j: int|
                        0 <= i < kept.len() && 0 <= j < kept.len() && i != j implies kept[i]
                        != kept[j] by {
                        if i < j {
                            lemma_name_before_irreflexive(kept[i]);
                        } else {
                            lemma_name_before_irreflexive(kept[j]);
                        }
                    }
                }
                given.unique_seq_to_set();
                kept.unique_seq_to_set();
            }
        }
        GistSummary { id: gist.id, description: gist.description, html_url: gist.html_url, files }
    }
}

/// Something that can list the public gists of a GitHub user.
pub trait GistService: Send + Sync {
    fn list_public_gists(&self, user: &str) -> Result<Vec<GistSummary>, AppError>;
}

} // verus!
