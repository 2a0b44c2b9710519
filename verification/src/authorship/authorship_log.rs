//! Authorship logs: which lines of a commit which AI session wrote.
use crate::authorship::transcript::{clone_messages, Message, MessageView};
use crate::authorship::working_log::{AgentId, AgentIdView};
use vstd::prelude::*;

verus! {

broadcast use vstd::seq::group_seq_axioms;

/// A line, or a run of lines with its first and its last.
#[derive(Debug, Clone, Copy, PartialEq, Eq, Structural)]
pub enum LineRange {
    Single(u32),
    Range(u32, u32),
}

impl DeepView for LineRange {
    type V = LineRange;

    open spec fn deep_view(&self) -> LineRange {
        *self
    }
}

/// A person.
#[derive(Debug, PartialEq)]
pub struct Author {
    pub username: String,
    pub email: String,
}

/// What an `Author` holds.
pub struct AuthorView {
    pub username: Seq<char>,
    pub email: Seq<char>,
}

impl DeepView for Author {
    type V = AuthorView;

    open spec fn deep_view(&self) -> AuthorView {
        AuthorView { username: self.username@, email: self.email@ }
    }
}

impl Clone for Author {
    fn clone(&self) -> (r: Self)
        ensures
            r == *self,
    {
        Author { username: self.username.clone(), email: self.email.clone() }
    }
}

/// An AI session and what became of the lines that it wrote.
#[derive(Debug, PartialEq)]
pub struct PromptRecord {
    pub agent_id: AgentId,
    pub messages: Vec<Message>,
    pub total_additions: u32,
    pub total_deletions: u32,
    pub accepted_lines: u32,
    pub overriden_lines: u32,
    /// What else is recorded of the session, which is carried along unread.
    pub rest: String,
}

/// What a `PromptRecord` holds.
pub struct PromptRecordView {
    pub agent_id: AgentIdView,
    pub messages: Seq<MessageView>,
    pub total_additions: u32,
    pub total_deletions: u32,
    pub accepted_lines: u32,
    pub overriden_lines: u32,
    pub rest: Seq<char>,
}

impl DeepView for PromptRecord {
    type V = PromptRecordView;

    open spec fn deep_view(&self) -> PromptRecordView {
        PromptRecordView {
            agent_id: self.agent_id.deep_view(),
            messages: self.messages.deep_view(),
            total_additions: self.total_additions,
            total_deletions: self.total_deletions,
            accepted_lines: self.accepted_lines,
            overriden_lines: self.overriden_lines,
            rest: self.rest@,
        }
    }
}

impl Clone for PromptRecord {
    fn clone(&self) -> (r: Self)
        ensures
            r.deep_view() == self.deep_view(),
    {
        PromptRecord {
            agent_id: self.agent_id.clone(),
            messages: clone_messages(&self.messages),
            total_additions: self.total_additions,
            total_deletions: self.total_deletions,
            accepted_lines: self.accepted_lines,
            overriden_lines: self.overriden_lines,
            rest: self.rest.clone(),
        }
    }
}

/// The lines of one file that one session wrote. The session is found by `hash` among the
/// prompts of the log.
#[derive(Debug, PartialEq)]
pub struct AttestationEntry {
    pub hash: String,
    pub line_ranges: Vec<LineRange>,
}

/// What an `AttestationEntry` holds.
pub struct AttestationEntryView {
    pub hash: Seq<char>,
    pub line_ranges: Seq<LineRange>,
}

impl DeepView for AttestationEntry {
    type V = AttestationEntryView;

    open spec fn deep_view(&self) -> AttestationEntryView {
        AttestationEntryView { hash: self.hash@, line_ranges: self.line_ranges@ }
    }
}

impl Clone for AttestationEntry {
    fn clone(&self) -> (r: Self)
        ensures
            r.deep_view() == self.deep_view(),
    {
        let line_ranges = self.line_ranges.clone();
        assert(line_ranges@ =~= self.line_ranges@);
        AttestationEntry { hash: self.hash.clone(), line_ranges }
    }
}

/// What is attested of one file.
#[derive(Debug, PartialEq)]
pub struct FileAttestation {
    pub file_path: String,
    pub entries: Vec<AttestationEntry>,
}

/// What a `FileAttestation` holds.
pub struct FileAttestationView {
    pub file_path: Seq<char>,
    pub entries: Seq<AttestationEntryView>,
}

impl DeepView for FileAttestation {
    type V = FileAttestationView;

    open spec fn deep_view(&self) -> FileAttestationView {
        FileAttestationView { file_path: self.file_path@, entries: self.entries.deep_view() }
    }
}

impl Clone for FileAttestation {
    fn clone(&self) -> (r: Self)
        ensures
            r.deep_view() == self.deep_view(),
    {
        let entries = self.entries.clone();
        assert(entries.deep_view() =~= self.entries.deep_view());
        FileAttestation { file_path: self.file_path.clone(), entries }
    }
}

/// What an authorship log says of its commit and of the sessions that it names.
#[derive(Debug, PartialEq)]
pub struct AuthorshipMetadata {
    pub base_commit_sha: String,
    /// The sessions by their hash, each hash once.
    pub prompts: Vec<(String, PromptRecord)>,
    /// What else is said, which is carried along unread; no text in a log made here.
    pub rest: String,
}

/// What an `AuthorshipMetadata` holds.
pub struct AuthorshipMetadataView {
    pub base_commit_sha: Seq<char>,
    pub prompts: Seq<(Seq<char>, PromptRecordView)>,
    pub rest: Seq<char>,
}

impl DeepView for AuthorshipMetadata {
    type V = AuthorshipMetadataView;

    open spec fn deep_view(&self) -> AuthorshipMetadataView {
        AuthorshipMetadataView {
            base_commit_sha: self.base_commit_sha@,
            prompts: self.prompts.deep_view(),
            rest: self.rest@,
        }
    }
}

/// Which lines of a commit which AI session wrote.
#[derive(Debug, PartialEq)]
pub struct AuthorshipLog {
    pub attestations: Vec<FileAttestation>,
    pub metadata: AuthorshipMetadata,
}

/// What an `AuthorshipLog` holds.
pub struct AuthorshipLogView {
    pub attestations: Seq<FileAttestationView>,
    pub metadata: AuthorshipMetadataView,
}

impl AuthorshipLogView {
    /// The log that says nothing.
    pub open spec fn empty() -> AuthorshipLogView {
        AuthorshipLogView {
            attestations: Seq::empty(),
            metadata: AuthorshipMetadataView {
                base_commit_sha: Seq::empty(),
                prompts: Seq::empty(),
                rest: Seq::empty(),
            },
        }
    }

    /// The same log for another commit.
    pub open spec fn for_commit(self, sha: Seq<char>) -> AuthorshipLogView {
        AuthorshipLogView {
            metadata: AuthorshipMetadataView { base_commit_sha: sha, ..self.metadata },
            ..self
        }
    }
}

impl DeepView for AuthorshipLog {
    type V = AuthorshipLogView;

    open spec fn deep_view(&self) -> AuthorshipLogView {
        AuthorshipLogView {
            attestations: self.attestations.deep_view(),
            metadata: self.metadata.deep_view(),
        }
    }
}

impl Clone for AuthorshipLog {
    fn clone(&self) -> (r: Self)
        ensures
            r.deep_view() == self.deep_view(),
    {
        let attestations = self.attestations.clone();
        assert(attestations.deep_view() =~= self.attestations.deep_view());
        let mut prompts: Vec<(String, PromptRecord)> = Vec::new();
        let mut i: usize = 0;
        while i < self.metadata.prompts.len()
            invariant
                i <= self.metadata.prompts@.len(),
                prompts.deep_view() =~= self.metadata.prompts.deep_view().take(i as int),
            decreases self.metadata.prompts@.len() - i,
        {
            let ghost before = prompts.deep_view();
            let pair = &self.metadata.prompts[i];
            prompts.push((pair.0.clone(), pair.1.clone()));
            assert(prompts.deep_view() =~= before.push(pair.deep_view()));
            i = i + 1;
        }
        assert(prompts.deep_view() =~= self.metadata.prompts.deep_view());
        AuthorshipLog {
            attestations,
            metadata: AuthorshipMetadata {
                base_commit_sha: self.metadata.base_commit_sha.clone(),
                prompts,
                rest: self.metadata.rest.clone(),
            },
        }
    }
}

impl AuthorshipLog {
    /// The log that says nothing.
    pub fn new() -> (r: Self)
        ensures
            r.deep_view() == AuthorshipLogView::empty(),
    {
        let r = AuthorshipLog {
            attestations: Vec::new(),
            metadata: AuthorshipMetadata {
                base_commit_sha: String::new(),
                prompts: Vec::new(),
                rest: String::new(),
            },
        };
        assert(r.deep_view().attestations =~= Seq::empty());
        assert(r.deep_view().metadata.prompts =~= Seq::empty());
        r
    }

    /// Makes this the log of another commit.
    pub fn set_commit(&mut self, sha: &str)
        ensures
            final(self).deep_view() == old(self).deep_view().for_commit(sha@),
    {
        self.metadata.base_commit_sha = sha.to_string();
    }
}

} // verus!
