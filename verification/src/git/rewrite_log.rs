//! Events that rewrite history.
use crate::error::clone_texts;
use vstd::prelude::*;

verus! {

/// Something that made commits out of other commits.
#[derive(Debug)]
pub enum RewriteLogEvent {
    /// A commit was made on top of `base_commit`.
    Commit { base_commit: Option<String>, commit_sha: String },
    /// A commit took the place of another.
    CommitAmend { original_commit: String, amended_commit_sha: String },
    /// A branch was merged into the index, without a commit.
    MergeSquash {
        source_branch: String,
        source_head: String,
        base_branch: String,
        base_head: String,
    },
    /// Commits were made again on top of another commit; oldest first.
    RebaseComplete { original_commits: Vec<String>, new_commits: Vec<String> },
    /// Commits were copied; oldest first.
    CherryPickComplete { source_commits: Vec<String>, new_commits: Vec<String> },
    /// An event that leaves authorship logs as they are, by its name.
    Other(String),
}

/// What a `RewriteLogEvent` holds.
pub enum RewriteLogEventView {
    Commit { base_commit: Option<Seq<char>>, commit_sha: Seq<char> },
    CommitAmend { original_commit: Seq<char>, amended_commit_sha: Seq<char> },
    MergeSquash {
        source_branch: Seq<char>,
        source_head: Seq<char>,
        base_branch: Seq<char>,
        base_head: Seq<char>,
    },
    RebaseComplete { original_commits: Seq<Seq<char>>, new_commits: Seq<Seq<char>> },
    CherryPickComplete { source_commits: Seq<Seq<char>>, new_commits: Seq<Seq<char>> },
    Other(Seq<char>),
}

impl DeepView for RewriteLogEvent {
    type V = RewriteLogEventView;

    open spec fn deep_view(&self) -> RewriteLogEventView {
        match *self {
            RewriteLogEvent::Commit { base_commit, commit_sha } => RewriteLogEventView::Commit {
                base_commit: base_commit.deep_view(),
                commit_sha: commit_sha@,
            },
            RewriteLogEvent::CommitAmend {
                original_commit,
                amended_commit_sha,
            } => RewriteLogEventView::CommitAmend {
                original_commit: original_commit@,
                amended_commit_sha: amended_commit_sha@,
            },
            RewriteLogEvent::MergeSquash {
                source_branch,
                source_head,
                base_branch,
                base_head,
            } => RewriteLogEventView::MergeSquash {
                source_branch: source_branch@,
                source_head: source_head@,
                base_branch: base_branch@,
                base_head: base_head@,
            },
            RewriteLogEvent::RebaseComplete {
                original_commits,
                new_commits,
            } => RewriteLogEventView::RebaseComplete {
                original_commits: original_commits.deep_view(),
                new_commits: new_commits.deep_view(),
            },
            RewriteLogEvent::CherryPickComplete {
                source_commits,
                new_commits,
            } => RewriteLogEventView::CherryPickComplete {
                source_commits: source_commits.deep_view(),
                new_commits: new_commits.deep_view(),
            },
            RewriteLogEvent::Other(name) => RewriteLogEventView::Other(name@),
        }
    }
}

impl Clone for RewriteLogEvent {
    fn clone(&self) -> (r: Self)
        ensures
            r.deep_view() == self.deep_view(),
    {
        match self {
            RewriteLogEvent::Commit { base_commit, commit_sha } => RewriteLogEvent::Commit {
                base_commit: base_commit.clone(),
                commit_sha: commit_sha.clone(),
            },
            RewriteLogEvent::CommitAmend {
                original_commit,
                amended_commit_sha,
            } => RewriteLogEvent::CommitAmend {
                original_commit: original_commit.clone(),
                amended_commit_sha: amended_commit_sha.clone(),
            },
            RewriteLogEvent::MergeSquash {
                source_branch,
                source_head,
                base_branch,
                base_head,
            } => RewriteLogEvent::MergeSquash {
                source_branch: source_branch.clone(),
                source_head: source_head.clone(),
                base_branch: base_branch.clone(),
                base_head: base_head.clone(),
            },
            RewriteLogEvent::RebaseComplete {
                original_commits,
                new_commits,
            } => RewriteLogEvent::RebaseComplete {
                original_commits: clone_texts(original_commits),
                new_commits: clone_texts(new_commits),
            },
            RewriteLogEvent::CherryPickComplete {
                source_commits,
                new_commits,
            } => RewriteLogEvent::CherryPickComplete {
                source_commits: clone_texts(source_commits),
                new_commits: clone_texts(new_commits),
            },
            RewriteLogEvent::Other(name) => RewriteLogEvent::Other(name.clone()),
        }
    }
}

} // verus!
