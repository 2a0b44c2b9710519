//! What git and the notes of a repository are asked for, as plain data.
use crate::authorship::authorship_log::{AuthorshipLog, AuthorshipLogView};
use vstd::prelude::*;

verus! {

/// A file that differs between two trees, by its paths in them.
#[derive(Debug)]
pub struct Delta {
    pub old_path: Option<String>,
    pub new_path: Option<String>,
}

/// Lines of a file that one commit last changed.
#[derive(Debug)]
pub struct BlameHunk {
    /// The commit.
    pub commit_sha: String,
    /// The first and the last of the lines.
    pub range: (u32, u32),
    /// The first and the last of the lines in the commit's own version of the file.
    pub orig_range: (u32, u32),
}

/// A commit with what its note says.
#[derive(Debug)]
pub enum CommitAuthorship {
    /// The commit has an authorship log.
    Log { sha: String, git_author: String, authorship_log: AuthorshipLog },
    /// The commit has none.
    NoLog { sha: String, git_author: String },
}

/// What a `CommitAuthorship` holds.
pub enum CommitAuthorshipView {
    Log { sha: Seq<char>, git_author: Seq<char>, authorship_log: AuthorshipLogView },
    NoLog { sha: Seq<char>, git_author: Seq<char> },
}

impl DeepView for CommitAuthorship {
    type V = CommitAuthorshipView;

    open spec fn deep_view(&self) -> CommitAuthorshipView {
        match *self {
            CommitAuthorship::Log { sha, git_author, authorship_log } => CommitAuthorshipView::Log {
                sha: sha@,
                git_author: git_author@,
                authorship_log: authorship_log.deep_view(),
            },
            CommitAuthorship::NoLog { sha, git_author } => CommitAuthorshipView::NoLog {
                sha: sha@,
                git_author: git_author@,
            },
        }
    }
}

} // verus!
