//! What a run of an AI agent's hook reports.
use crate::authorship::transcript::{AiTranscript, MessageView};
use crate::authorship::working_log::{AgentId, AgentIdView, CheckpointKind};
use crate::error::clone_texts;
use crate::text::{chars, join2, slice_text};
use vstd::prelude::*;

verus! {

/// What a run of an AI agent's hook reports.
#[derive(Debug)]
pub struct AgentRunResult {
    pub agent_id: AgentId,
    pub checkpoint_kind: CheckpointKind,
    pub transcript: Option<AiTranscript>,
    pub repo_working_dir: Option<String>,
    pub edited_filepaths: Option<Vec<String>>,
    pub will_edit_filepaths: Option<Vec<String>>,
}

/// What an `AgentRunResult` holds.
pub struct AgentRunResultView {
    pub agent_id: AgentIdView,
    pub checkpoint_kind: CheckpointKind,
    pub transcript: Option<Seq<MessageView>>,
    pub repo_working_dir: Option<Seq<char>>,
    pub edited_filepaths: Option<Seq<Seq<char>>>,
    pub will_edit_filepaths: Option<Seq<Seq<char>>>,
}

impl DeepView for AgentRunResult {
    type V = AgentRunResultView;

    open spec fn deep_view(&self) -> AgentRunResultView {
        AgentRunResultView {
            agent_id: self.agent_id.deep_view(),
            checkpoint_kind: self.checkpoint_kind,
            transcript: self.transcript.deep_view(),
            repo_working_dir: self.repo_working_dir.deep_view(),
            edited_filepaths: self.edited_filepaths.deep_view(),
            will_edit_filepaths: self.will_edit_filepaths.deep_view(),
        }
    }
}

fn clone_paths(paths: &Option<Vec<String>>) -> (r: Option<Vec<String>>)
    ensures
        r.deep_view() == paths.deep_view(),
{
    match paths {
        Some(p) => Some(clone_texts(p)),
        None => None,
    }
}

impl Clone for AgentRunResult {
    fn clone(&self) -> (r: Self)
        ensures
            r.deep_view() == self.deep_view(),
    {
        AgentRunResult {
            agent_id: self.agent_id.clone(),
            checkpoint_kind: self.checkpoint_kind,
            transcript: match &self.transcript {
                Some(t) => Some(t.clone()),
                None => None,
            },
            repo_working_dir: self.repo_working_dir.clone(),
            edited_filepaths: clone_paths(&self.edited_filepaths),
            will_edit_filepaths: clone_paths(&self.will_edit_filepaths),
        }
    }
}

/// An agent that has a hook.
#[derive(Debug)]
pub struct Preset {
    /// The word by which the checkpoint command knows the agent.
    pub name: String,
    /// What is complained of where the hook fails, before an account of the error.
    pub complaint: String,
    /// Whether help tells of the agent.
    pub listed: bool,
}

/// What a `Preset` holds.
pub struct PresetView {
    pub name: Seq<char>,
    pub complaint: Seq<char>,
    pub listed: bool,
}

impl DeepView for Preset {
    type V = PresetView;

    open spec fn deep_view(&self) -> PresetView {
        PresetView { name: self.name@, complaint: self.complaint@, listed: self.listed }
    }
}

/// The agents whose names the program knows by itself.
pub open spec fn known_presets() -> Seq<PresetView> {
    seq![
        PresetView {
            name: "cursor"@,
            complaint: "Error running Cursor preset: "@,
            listed: true,
        },
        PresetView {
            name: "github-copilot"@,
            complaint: "Github Copilot preset error: "@,
            listed: true,
        },
        PresetView { name: "rooode"@, complaint: "Rooode preset error: "@, listed: true },
        PresetView { name: "agent-v1"@, complaint: "Agent V1 preset error: "@, listed: false },
    ]
}

/// `name` with a capital first letter.
pub open spec fn capitalized(name: Seq<char>) -> Seq<char> {
    if name.len() > 0 && 0x61 <= name[0] as u32 <= 0x7A {
        seq![(name[0] as u32 - 0x20) as char] + name.skip(1)
    } else {
        name
    }
}

/// All agents that have a hook. The first is the one that the parameter is named after: help lists
/// it before the others, and its complaint starts with its name, with a capital.
pub open spec fn all_presets(claude: Seq<char>) -> Seq<PresetView> {
    seq![
        PresetView {
            name: claude,
            complaint: capitalized(claude) + " preset error: "@,
            listed: true,
        },
    ] + known_presets()
}

fn capitalize(name: &str) -> (r: String)
    ensures
        r@ == capitalized(name@),
{
    let v = chars(name);
    if v.len() == 0 {
        return name.to_string();
    }
    let code: u32 = v[0] as u32;
    if code < 0x61 || code > 0x7A {
        return name.to_string();
    }
    let first: u8 = (code - 0x20) as u8;
    let mut r = String::new();
    r.push(first as char);
    let rest = slice_text(&v, 1, v.len());
    r.append(rest.as_str());
    assert(r@ =~= capitalized(name@));
    r
}

fn preset(name: &str, complaint: &str, listed: bool) -> (r: Preset)
    ensures
        r.deep_view() == (PresetView { name: name@, complaint: complaint@, listed }),
{
    Preset { name: name.to_string(), complaint: complaint.to_string(), listed }
}

/// The agents whose names the program knows by itself.
pub fn builtin_presets() -> (r: Vec<Preset>)
    ensures
        r.deep_view() == known_presets(),
{
    let mut r: Vec<Preset> = Vec::new();
    r.push(preset("cursor", "Error running Cursor preset: ", true));
    r.push(preset("github-copilot", "Github Copilot preset error: ", true));
    r.push(preset("rooode", "Rooode preset error: ", true));
    r.push(preset("agent-v1", "Agent V1 preset error: ", false));
    assert(r.deep_view() =~= known_presets());
    r
}

/// All agents that have a hook, given the name of the one that the parameter is named after, which
/// is a word of small letters.
pub fn presets_with(claude: &str) -> (r: Vec<Preset>)
    ensures
        r.deep_view() == all_presets(claude@),
{
    let complaint = join2(capitalize(claude).as_str(), " preset error: ");
    let mut r: Vec<Preset> = Vec::new();
    r.push(preset(claude, complaint.as_str(), true));
    let ghost first = r.deep_view();
    let mut known = builtin_presets();
    let ghost others = known.deep_view();
    r.append(&mut known);
    assert(r.deep_view() =~= first + others);
    assert(r.deep_view() =~= all_presets(claude@));
    r
}

} // verus!
