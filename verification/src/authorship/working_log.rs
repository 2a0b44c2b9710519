//! Working logs: what was recorded of the edits made on top of a commit.
use crate::authorship::transcript::{AiTranscript, MessageView};
use vstd::prelude::*;

verus! {

broadcast use vstd::seq::group_seq_axioms;

/// The session of an AI tool.
#[derive(Debug, PartialEq)]
pub struct AgentId {
    pub tool: String,
    pub id: String,
    pub model: String,
}

/// What an `AgentId` holds.
pub struct AgentIdView {
    pub tool: Seq<char>,
    pub id: Seq<char>,
    pub model: Seq<char>,
}

impl DeepView for AgentId {
    type V = AgentIdView;

    open spec fn deep_view(&self) -> AgentIdView {
        AgentIdView { tool: self.tool@, id: self.id@, model: self.model@ }
    }
}

impl Clone for AgentId {
    fn clone(&self) -> (r: Self)
        ensures
            r == *self,
    {
        AgentId { tool: self.tool.clone(), id: self.id.clone(), model: self.model.clone() }
    }
}

/// Whose edits a checkpoint records.
#[derive(Debug, Clone, Copy, PartialEq, Eq, Structural)]
pub enum CheckpointKind {
    Human,
    AiAgent,
    AiTab,
}

impl DeepView for CheckpointKind {
    type V = CheckpointKind;

    open spec fn deep_view(&self) -> CheckpointKind {
        *self
    }
}

/// The state of one file at a checkpoint.
#[derive(Debug, PartialEq)]
pub struct WorkingLogEntry {
    pub file: String,
    pub blob_sha: String,
    /// What else is recorded of the file, which is carried along unread.
    pub rest: String,
}

/// What a `WorkingLogEntry` holds.
pub struct WorkingLogEntryView {
    pub file: Seq<char>,
    pub blob_sha: Seq<char>,
    pub rest: Seq<char>,
}

impl DeepView for WorkingLogEntry {
    type V = WorkingLogEntryView;

    open spec fn deep_view(&self) -> WorkingLogEntryView {
        WorkingLogEntryView { file: self.file@, blob_sha: self.blob_sha@, rest: self.rest@ }
    }
}

impl Clone for WorkingLogEntry {
    fn clone(&self) -> (r: Self)
        ensures
            r == *self,
    {
        WorkingLogEntry {
            file: self.file.clone(),
            blob_sha: self.blob_sha.clone(),
            rest: self.rest.clone(),
        }
    }
}

/// Edits recorded at one time.
#[derive(Debug, PartialEq)]
pub struct Checkpoint {
    pub kind: CheckpointKind,
    pub author: String,
    pub agent_id: Option<AgentId>,
    pub transcript: Option<AiTranscript>,
    pub entries: Vec<WorkingLogEntry>,
    /// The hash over the files of the checkpoint and their contents.
    pub diff: String,
    /// What else is recorded at that time, which is carried along unread.
    pub rest: String,
}

/// What a `Checkpoint` holds.
pub struct CheckpointView {
    pub kind: CheckpointKind,
    pub author: Seq<char>,
    pub agent_id: Option<AgentIdView>,
    pub transcript: Option<Seq<MessageView>>,
    pub entries: Seq<WorkingLogEntryView>,
    pub diff: Seq<char>,
    pub rest: Seq<char>,
}

impl DeepView for Checkpoint {
    type V = CheckpointView;

    open spec fn deep_view(&self) -> CheckpointView {
        CheckpointView {
            kind: self.kind,
            author: self.author@,
            agent_id: self.agent_id.deep_view(),
            transcript: self.transcript.deep_view(),
            entries: self.entries.deep_view(),
            diff: self.diff@,
            rest: self.rest@,
        }
    }
}

impl Clone for Checkpoint {
    fn clone(&self) -> (r: Self)
        ensures
            r.deep_view() == self.deep_view(),
    {
        let entries = self.entries.clone();
        assert(entries.deep_view() =~= self.entries.deep_view());
        Checkpoint {
            kind: self.kind,
            author: self.author.clone(),
            agent_id: match &self.agent_id {
                Some(a) => Some(a.clone()),
                None => None,
            },
            transcript: match &self.transcript {
                Some(t) => Some(t.clone()),
                None => None,
            },
            entries,
            diff: self.diff.clone(),
            rest: self.rest.clone(),
        }
    }
}

} // verus!
