//! Running git, reading notes and writing to the terminal is not this library's work. What the
//! library does around that work is here a function of the answers that the work gave.
//!
//! A [`Session`] goes through the answers given so far, in order. A function that needs something
//! done asks the session for it with a [`Request`]. Where the answer is there, the function goes
//! on with it; where the answers are used up, it ends with [`Stop::Pending`], which holds the
//! request. The program then does what is requested, adds the answer to the list, and calls the
//! function again from the start with the longer list, until the function ends with anything else.
use crate::authorship::authorship_log::{Author, AuthorshipLog, AuthorshipLogView, PromptRecord};
use crate::authorship::range_authorship::{RangeAuthorshipStats, RangeAuthorshipStatsView};
use crate::authorship::stats::CommitStats;
use crate::authorship::working_log::{Checkpoint, CheckpointKind, CheckpointView};
use crate::commands::agent::{AgentRunResult, AgentRunResultView};
use crate::error::{GitAiError, GitAiErrorView};
use crate::git::records::{BlameHunk, CommitAuthorship, Delta};
use crate::git::rewrite_log::{RewriteLogEvent, RewriteLogEventView};
use crate::text::{from_utf8, from_utf8_lossy, trim, trimmed, utf8_lossy, utf8_text};
use vstd::prelude::*;

verus! {

broadcast use vstd::seq::group_seq_axioms;

/// Something that the library needs done.
#[derive(Debug)]
pub enum Request {
    /// Run git with these arguments, with `env` added to the environment, and with `stdin`, where
    /// it is there, as its input. Answered by `Exit` or `NotRun`.
    Git { args: Vec<String>, env: Vec<(String, String)>, stdin: Option<Vec<u8>> },
    /// Run git with these arguments in the directory that holds `git_dir`. Answered by `Exit` or
    /// `NotRun`.
    GitBeside { git_dir: String, args: Vec<String> },
    /// Say whether the path is a directory. Answered by `Flag`.
    IsDir { path: String },
    /// Read the authorship log in a commit's note. Answered by `Log`.
    ReadLog { commit: String },
    /// Read the authorship log of a commit, if it has one. Answered by `MaybeLog`.
    FindLog { commit: String },
    /// Make sure that the authorship log of a commit is at hand. Answered by `Done`.
    FetchLog { commit: String },
    /// Write an authorship log as text. Answered by `Text`.
    SerializeLog { log: AuthorshipLog },
    /// Make the text the note of a commit. Answered by `Done`.
    AddNote { commit: String, text: String },
    /// Read the notes of these commits. Answered by `Commits`.
    CommitsWithNotes { commits: Vec<String> },
    /// Get the notes that a remote has. Answered by `Done`.
    FetchNotes { remote: String },
    /// Give a remote the notes. Answered by `Done`.
    PushNotes { remote: String },
    /// List the files that differ between two trees. Answered by `Deltas`.
    DiffTrees { old_tree: String, new_tree: String },
    /// Say which commits last changed the lines of a file from `first` to `last`, as seen from
    /// the commit `newest`. Answered by `Hunks`.
    BlameHunks { file: String, first: u32, last: u32, newest: String },
    /// Look a line up in the authorship log of a commit. Answered by `Attribution`.
    LineAttribution { commit: String, file: String, number: u32 },
    /// Read the working log on top of a commit. Answered by `Checkpoints`.
    ReadCheckpoints { base: String },
    /// Apply the checkpoints, in order, to the log and finish it. Answered by `Log`.
    ApplyCheckpoints { log: AuthorshipLog, checkpoints: Vec<Checkpoint>, author: String },
    /// Turn a log into checkpoints, given the contents of its files. Answered by `Checkpoints`.
    CheckpointsForSquash { log: AuthorshipLog, contents: Vec<(String, String)> },
    /// Keep a version of a file with the working log on top of a commit, and say under which
    /// name. Answered by `Text`.
    PersistFile { base: String, content: String },
    /// Add a checkpoint to the working log on top of a commit. Answered by `Done`.
    AppendCheckpoint { base: String, checkpoint: Checkpoint },
    /// Remove the working log on top of a commit. Answered by `Done`.
    DeleteWorkingLog { base: String },
    /// Empty the working log on top of a commit. Answered by `Done`.
    ResetWorkingLog { base: String },
    /// Add an event to the rewrite log. Answered by `Done`.
    AppendRewriteEvent { event: RewriteLogEvent },
    /// Do what follows a commit. Answered by `Done`.
    PostCommit { parent: Option<String>, commit: String, author: String, quiet: bool },
    /// Write a line to standard output. Answered by `Done`.
    Stdout { line: String },
    /// Write a line to standard error: the text, followed by an account of the error where there
    /// is one. Answered by `Done`.
    Stderr { line: String, cause: Option<GitAiError> },
    /// Write a line to standard error that shows a new authorship log. Answered by `Done`.
    ShowLog { log: AuthorshipLog },
    /// Write statistics to standard output as one line of JSON. Answered by `Done`.
    StatsJson { stats: CommitStats },
    /// Write the statistics of a range to standard output as one line of JSON. Answered by `Done`.
    RangeStatsJson { range: RangeAuthorshipStats },
    /// Say whether standard output is a terminal. Answered by `Flag`.
    IsTerminal,
    /// Say what the current directory is. Answered by `Text`.
    CurrentDir,
    /// Read all of standard input. Answered by `Text`.
    ReadStdin,
    /// Say how many nanoseconds have passed since 1970, zero if that is not known. Answered by
    /// `Number`.
    Clock,
    /// Say which git executable is used. Answered by `Text`.
    GitPath,
    /// Run an agent's hook. Answered by `AgentRun`.
    RunPreset { preset: String, hook_input: Option<String> },
    /// Record a checkpoint in the repository with this git directory. Answered by `Done`.
    RunCheckpoint {
        git_dir: String,
        author: String,
        kind: CheckpointKind,
        show_working_log: bool,
        reset: bool,
        quiet: bool,
        agent_run: Option<AgentRunResult>,
    },
    /// Make authorship logs for the children of commits with working logs. Answered by `Done`.
    RunStatsDelta { git_dir: String, json: bool },
    /// Install the hooks. Answered by `Done`.
    InstallHooks { args: Vec<String> },
    /// Make authorship logs for squashed commits. Answered by `Done`.
    SquashAuthorship { args: Vec<String> },
    /// Read the arguments of a blame. Answered by `Flag` with whether it is incremental, or by
    /// `Done` with an error.
    ParseBlameArgs { args: Vec<String> },
    /// Blame with these arguments. Answered by `Done`.
    RunBlame { git_dir: String, args: Vec<String> },
}

/// What a `Request` holds.
pub enum RequestView {
    Git { args: Seq<Seq<char>>, env: Seq<(Seq<char>, Seq<char>)>, stdin: Option<Seq<u8>> },
    GitBeside { git_dir: Seq<char>, args: Seq<Seq<char>> },
    IsDir { path: Seq<char> },
    ReadLog { commit: Seq<char> },
    FindLog { commit: Seq<char> },
    FetchLog { commit: Seq<char> },
    SerializeLog { log: AuthorshipLogView },
    AddNote { commit: Seq<char>, text: Seq<char> },
    CommitsWithNotes { commits: Seq<Seq<char>> },
    FetchNotes { remote: Seq<char> },
    PushNotes { remote: Seq<char> },
    DiffTrees { old_tree: Seq<char>, new_tree: Seq<char> },
    BlameHunks { file: Seq<char>, first: u32, last: u32, newest: Seq<char> },
    LineAttribution { commit: Seq<char>, file: Seq<char>, number: u32 },
    ReadCheckpoints { base: Seq<char> },
    ApplyCheckpoints {
        log: AuthorshipLogView,
        checkpoints: Seq<CheckpointView>,
        author: Seq<char>,
    },
    CheckpointsForSquash { log: AuthorshipLogView, contents: Seq<(Seq<char>, Seq<char>)> },
    PersistFile { base: Seq<char>, content: Seq<char> },
    AppendCheckpoint { base: Seq<char>, checkpoint: CheckpointView },
    DeleteWorkingLog { base: Seq<char> },
    ResetWorkingLog { base: Seq<char> },
    AppendRewriteEvent { event: RewriteLogEventView },
    PostCommit { parent: Option<Seq<char>>, commit: Seq<char>, author: Seq<char>, quiet: bool },
    Stdout { line: Seq<char> },
    Stderr { line: Seq<char>, cause: Option<GitAiErrorView> },
    ShowLog { log: AuthorshipLogView },
    StatsJson { stats: CommitStats },
    RangeStatsJson { range: RangeAuthorshipStatsView },
    IsTerminal,
    CurrentDir,
    ReadStdin,
    Clock,
    GitPath,
    RunPreset { preset: Seq<char>, hook_input: Option<Seq<char>> },
    RunCheckpoint {
        git_dir: Seq<char>,
        author: Seq<char>,
        kind: CheckpointKind,
        show_working_log: bool,
        reset: bool,
        quiet: bool,
        agent_run: Option<AgentRunResultView>,
    },
    RunStatsDelta { git_dir: Seq<char>, json: bool },
    InstallHooks { args: Seq<Seq<char>> },
    SquashAuthorship { args: Seq<Seq<char>> },
    ParseBlameArgs { args: Seq<Seq<char>> },
    RunBlame { git_dir: Seq<char>, args: Seq<Seq<char>> },
}

impl DeepView for Request {
    type V = RequestView;

    open spec fn deep_view(&self) -> RequestView {
        match *self {
            Request::Git { args, env, stdin } => RequestView::Git {
                args: args.deep_view(),
                env: env.deep_view(),
                stdin: match stdin {
                    Some(bytes) => Some(bytes@),
                    None => None,
                },
            },
            Request::GitBeside { git_dir, args } => RequestView::GitBeside {
                git_dir: git_dir@,
                args: args.deep_view(),
            },
            Request::IsDir { path } => RequestView::IsDir { path: path@ },
            Request::ReadLog { commit } => RequestView::ReadLog { commit: commit@ },
            Request::FindLog { commit } => RequestView::FindLog { commit: commit@ },
            Request::FetchLog { commit } => RequestView::FetchLog { commit: commit@ },
            Request::SerializeLog { log } => RequestView::SerializeLog { log: log.deep_view() },
            Request::AddNote { commit, text } => RequestView::AddNote {
                commit: commit@,
                text: text@,
            },
            Request::CommitsWithNotes { commits } => RequestView::CommitsWithNotes {
                commits: commits.deep_view(),
            },
            Request::FetchNotes { remote } => RequestView::FetchNotes { remote: remote@ },
            Request::PushNotes { remote } => RequestView::PushNotes { remote: remote@ },
            Request::DiffTrees { old_tree, new_tree } => RequestView::DiffTrees {
                old_tree: old_tree@,
                new_tree: new_tree@,
            },
            Request::BlameHunks { file, first, last, newest } => RequestView::BlameHunks {
                file: file@,
                first,
                last,
                newest: newest@,
            },
            Request::LineAttribution { commit, file, number } => RequestView::LineAttribution {
                commit: commit@,
                file: file@,
                number,
            },
            Request::ReadCheckpoints { base } => RequestView::ReadCheckpoints { base: base@ },
            Request::ApplyCheckpoints {
                log,
                checkpoints,
                author,
            } => RequestView::ApplyCheckpoints {
                log: log.deep_view(),
                checkpoints: checkpoints.deep_view(),
                author: author@,
            },
            Request::CheckpointsForSquash { log, contents } => RequestView::CheckpointsForSquash {
                log: log.deep_view(),
                contents: contents.deep_view(),
            },
            Request::PersistFile { base, content } => RequestView::PersistFile {
                base: base@,
                content: content@,
            },
            Request::AppendCheckpoint { base, checkpoint } => RequestView::AppendCheckpoint {
                base: base@,
                checkpoint: checkpoint.deep_view(),
            },
            Request::DeleteWorkingLog { base } => RequestView::DeleteWorkingLog { base: base@ },
            Request::ResetWorkingLog { base } => RequestView::ResetWorkingLog { base: base@ },
            Request::AppendRewriteEvent { event } => RequestView::AppendRewriteEvent {
                event: event.deep_view(),
            },
            Request::PostCommit { parent, commit, author, quiet } => RequestView::PostCommit {
                parent: parent.deep_view(),
                commit: commit@,
                author: author@,
                quiet,
            },
            Request::Stdout { line } => RequestView::Stdout { line: line@ },
            Request::Stderr { line, cause } => RequestView::Stderr {
                line: line@,
                cause: cause.deep_view(),
            },
            Request::ShowLog { log } => RequestView::ShowLog { log: log.deep_view() },
            Request::StatsJson { stats } => RequestView::StatsJson { stats },
            Request::RangeStatsJson { range } => RequestView::RangeStatsJson {
                range: range.deep_view(),
            },
            Request::IsTerminal => RequestView::IsTerminal,
            Request::CurrentDir => RequestView::CurrentDir,
            Request::ReadStdin => RequestView::ReadStdin,
            Request::Clock => RequestView::Clock,
            Request::GitPath => RequestView::GitPath,
            Request::RunPreset { preset, hook_input } => RequestView::RunPreset {
                preset: preset@,
                hook_input: hook_input.deep_view(),
            },
            Request::RunCheckpoint {
                git_dir,
                author,
                kind,
                show_working_log,
                reset,
                quiet,
                agent_run,
            } => RequestView::RunCheckpoint {
                git_dir: git_dir@,
                author: author@,
                kind,
                show_working_log,
                reset,
                quiet,
                agent_run: agent_run.deep_view(),
            },
            Request::RunStatsDelta { git_dir, json } => RequestView::RunStatsDelta {
                git_dir: git_dir@,
                json,
            },
            Request::InstallHooks { args } => RequestView::InstallHooks { args: args.deep_view() },
            Request::SquashAuthorship { args } => RequestView::SquashAuthorship {
                args: args.deep_view(),
            },
            Request::ParseBlameArgs { args } => RequestView::ParseBlameArgs {
                args: args.deep_view(),
            },
            Request::RunBlame { git_dir, args } => RequestView::RunBlame {
                git_dir: git_dir@,
                args: args.deep_view(),
            },
        }
    }
}

/// The answer to a request.
#[derive(Debug)]
pub enum Reply {
    /// A command ran: whether it ended well, its exit code where it has one, and what it wrote.
    Exit { success: bool, code: Option<i32>, stdout: Vec<u8>, stderr: Vec<u8> },
    /// A command could not be run; the operating system's message.
    NotRun(String),
    Flag(bool),
    Number(u128),
    Done(Result<(), GitAiError>),
    Text(Result<String, GitAiError>),
    Log(Result<AuthorshipLog, GitAiError>),
    MaybeLog(Option<AuthorshipLog>),
    Commits(Result<Vec<CommitAuthorship>, GitAiError>),
    Deltas(Result<Vec<Delta>, GitAiError>),
    Hunks(Result<Vec<BlameHunk>, GitAiError>),
    /// Who wrote a line, and the session of it where an AI did.
    Attribution(Option<(Author, Option<PromptRecord>)>),
    Checkpoints(Result<Vec<Checkpoint>, GitAiError>),
    AgentRun(Result<AgentRunResult, GitAiError>),
}

/// Why a function ended without a result.
#[derive(Debug)]
pub enum Stop {
    /// The answers are used up: this is to be done next.
    Pending(Request),
    /// The next answer is none to what was asked.
    Mismatch,
    /// The function failed.
    Fail(GitAiError),
    /// The program is to end with this exit code.
    Exit(i32),
    /// The program is to be given up; the message says why.
    Abort(String),
}

/// What a `Stop` holds.
pub enum StopView {
    Pending(RequestView),
    Mismatch,
    Fail(GitAiErrorView),
    Exit(i32),
    Abort(Seq<char>),
}

impl DeepView for Stop {
    type V = StopView;

    open spec fn deep_view(&self) -> StopView {
        match *self {
            Stop::Pending(request) => StopView::Pending(request.deep_view()),
            Stop::Mismatch => StopView::Mismatch,
            Stop::Fail(e) => StopView::Fail(e.deep_view()),
            Stop::Exit(code) => StopView::Exit(code),
            Stop::Abort(message) => StopView::Abort(message@),
        }
    }
}

/// The answers, and how many of them have been used.
pub struct Tape {
    pub replies: Seq<Reply>,
    pub next: int,
}

/// How a function ended, and what it left of the answers.
pub type Run<T> = (Result<T, StopView>, Tape);

/// What a function gave back.
pub open spec fn seen<T: DeepView>(r: Result<T, Stop>) -> Result<T::V, StopView> {
    match r {
        Ok(t) => Ok(t.deep_view()),
        Err(stop) => Err(stop.deep_view()),
    }
}

/// What a function gave back that hands failures to its caller.
pub open spec fn seen_try<T: DeepView, E: DeepView>(r: Result<Result<T, E>, Stop>) -> Result<
    Result<T::V, E::V>,
    StopView,
> {
    match r {
        Ok(Ok(t)) => Ok(Ok(t.deep_view())),
        Ok(Err(e)) => Ok(Err(e.deep_view())),
        Err(stop) => Err(stop.deep_view()),
    }
}

/// What a function gave back that hands on an answer as it is.
pub open spec fn seen_reply(r: Result<&Reply, Stop>) -> Result<Reply, StopView> {
    match r {
        Ok(reply) => Ok(*reply),
        Err(stop) => Err(stop.deep_view()),
    }
}

/// What a function gave back that hands on output.
pub open spec fn seen_bytes(r: Result<&Vec<u8>, Stop>) -> Result<Seq<u8>, StopView> {
    match r {
        Ok(bytes) => Ok(bytes@),
        Err(stop) => Err(stop.deep_view()),
    }
}

/// What a function gave back that hands on output, and failures to its caller.
pub open spec fn seen_try_bytes(r: Result<Result<&Vec<u8>, GitAiError>, Stop>) -> Result<
    Result<Seq<u8>, GitAiErrorView>,
    StopView,
> {
    match r {
        Ok(Ok(bytes)) => Ok(Ok(bytes@)),
        Ok(Err(e)) => Ok(Err(e.deep_view())),
        Err(stop) => Err(stop.deep_view()),
    }
}

/// A `Result` that is a failure of the function that gets it.
pub open spec fn or_fail<T>(run: Run<Result<T, GitAiErrorView>>) -> Run<T> {
    match run {
        (Ok(Ok(t)), s) => (Ok(t), s),
        (Ok(Err(e)), s) => (Err(StopView::Fail(e)), s),
        (Err(stop), s) => (Err(stop), s),
    }
}

/// A failure is handed to the caller.
pub open spec fn caught<T>(run: Run<T>) -> Run<Result<T, GitAiErrorView>> {
    match run {
        (Ok(t), s) => (Ok(Ok(t)), s),
        (Err(StopView::Fail(e)), s) => (Ok(Err(e)), s),
        (Err(stop), s) => (Err(stop), s),
    }
}

/// Hands a failure to the caller.
pub fn catch<T>(r: Result<T, Stop>) -> (c: Result<Result<T, GitAiError>, Stop>)
    ensures
        match r {
            Ok(t) => c == Ok::<Result<T, GitAiError>, Stop>(Ok(t)),
            Err(Stop::Fail(e)) => c == Ok::<Result<T, GitAiError>, Stop>(Err(e)),
            Err(stop) => c == Err::<Result<T, GitAiError>, Stop>(stop),
        },
{
    match r {
        Ok(t) => Ok(Ok(t)),
        Err(Stop::Fail(e)) => Ok(Err(e)),
        Err(stop) => Err(stop),
    }
}

/// The end of a program with a message.
pub open spec fn aborted<T>(message: Seq<char>, s: Tape) -> Run<T> {
    (Err(StopView::Abort(message)), s)
}

pub open spec fn failed<T>(e: GitAiErrorView, s: Tape) -> Run<T> {
    (Err(StopView::Fail(e)), s)
}

// ---------------------------------------------------------------------------------------------
// Asking
// ---------------------------------------------------------------------------------------------
/// The next answer.
pub open spec fn asked(s: Tape, request: RequestView) -> Run<Reply> {
    if 0 <= s.next < s.replies.len() {
        (Ok(s.replies[s.next]), Tape { next: s.next + 1, ..s })
    } else {
        (Err(StopView::Pending(request)), s)
    }
}

/// A request that is pending is the one that the next answer to come is for, and an answer that has
/// been gone through stays the answer when more come.
pub proof fn law_answers_come_in_order(
    s: Tape,
    request: RequestView,
    answer: Reply,
    more: Seq<Reply>,
)
    requires
        0 <= s.next <= s.replies.len(),
    ensures
        asked(s, request).0 is Err ==> s.next == s.replies.len() && asked(
            Tape { replies: s.replies.push(answer), ..s },
            request,
        ) == (
            Ok::<Reply, StopView>(answer),
            Tape { replies: s.replies.push(answer), next: s.next + 1 },
        ),
        asked(s, request).0 is Ok ==> asked(Tape { replies: s.replies + more, ..s }, request) == (
            asked(s, request).0,
            Tape { replies: s.replies + more, next: s.next + 1 },
        ),
{
}

/// An answer that says whether something was done.
pub open spec fn asked_done(s: Tape, request: RequestView) -> Run<Result<(), GitAiErrorView>> {
    match asked(s, request) {
        (Ok(Reply::Done(Ok(()))), s1) => (Ok(Ok(())), s1),
        (Ok(Reply::Done(Err(e))), s1) => (Ok(Err(e.deep_view())), s1),
        (Ok(_), s1) => (Err(StopView::Mismatch), s1),
        (Err(stop), s1) => (Err(stop), s1),
    }
}

/// Something is done, or the function fails.
pub open spec fn must(s: Tape, request: RequestView) -> Run<()> {
    or_fail(asked_done(s, request))
}

/// An answer that is a text.
pub open spec fn asked_text(s: Tape, request: RequestView) -> Run<
    Result<Seq<char>, GitAiErrorView>,
> {
    match asked(s, request) {
        (Ok(Reply::Text(Ok(t))), s1) => (Ok(Ok(t@)), s1),
        (Ok(Reply::Text(Err(e))), s1) => (Ok(Err(e.deep_view())), s1),
        (Ok(_), s1) => (Err(StopView::Mismatch), s1),
        (Err(stop), s1) => (Err(stop), s1),
    }
}

/// An answer that is an authorship log.
pub open spec fn asked_log(s: Tape, request: RequestView) -> Run<
    Result<AuthorshipLogView, GitAiErrorView>,
> {
    match asked(s, request) {
        (Ok(Reply::Log(Ok(log))), s1) => (Ok(Ok(log.deep_view())), s1),
        (Ok(Reply::Log(Err(e))), s1) => (Ok(Err(e.deep_view())), s1),
        (Ok(_), s1) => (Err(StopView::Mismatch), s1),
        (Err(stop), s1) => (Err(stop), s1),
    }
}

/// An answer that is a list of checkpoints.
pub open spec fn asked_checkpoints(s: Tape, request: RequestView) -> Run<
    Result<Seq<CheckpointView>, GitAiErrorView>,
> {
    match asked(s, request) {
        (Ok(Reply::Checkpoints(Ok(list))), s1) => (Ok(Ok(list.deep_view())), s1),
        (Ok(Reply::Checkpoints(Err(e))), s1) => (Ok(Err(e.deep_view())), s1),
        (Ok(_), s1) => (Err(StopView::Mismatch), s1),
        (Err(stop), s1) => (Err(stop), s1),
    }
}

/// An answer that is yes or no.
pub open spec fn asked_flag(s: Tape, request: RequestView) -> Run<bool> {
    match asked(s, request) {
        (Ok(Reply::Flag(b)), s1) => (Ok(b), s1),
        (Ok(_), s1) => (Err(StopView::Mismatch), s1),
        (Err(stop), s1) => (Err(stop), s1),
    }
}

/// A line for standard output.
pub open spec fn printed(s: Tape, line: Seq<char>) -> Run<()> {
    must(s, RequestView::Stdout { line })
}

/// A line for standard error.
pub open spec fn complained(s: Tape, line: Seq<char>, cause: Option<GitAiErrorView>) -> Run<()> {
    must(s, RequestView::Stderr { line, cause })
}

/// The answers given so far, gone through in order.
pub struct Session<'a> {
    replies: &'a Vec<Reply>,
    next: usize,
}

impl<'a> View for Session<'a> {
    type V = Tape;

    closed spec fn view(&self) -> Tape {
        Tape { replies: self.replies@, next: self.next as int }
    }
}

impl<'a> Session<'a> {
    /// A session at the start of its answers.
    pub fn new(replies: &'a Vec<Reply>) -> (r: Session<'a>)
        ensures
            r@ == (Tape { replies: replies@, next: 0 }),
    {
        Session { replies, next: 0 }
    }

    /// How many answers have been used.
    pub fn used(&self) -> (r: usize)
        ensures
            r == self@.next,
    {
        self.next
    }

    /// The next answer.
    pub fn ask(&mut self, request: Request) -> (r: Result<&'a Reply, Stop>)
        ensures
            (seen_reply(r), final(self)@) == asked(old(self)@, request.deep_view()),
    {
        if self.next < self.replies.len() {
            let i: usize = self.next;
            self.next = self.next + 1;
            Ok(&self.replies[i])
        } else {
            Err(Stop::Pending(request))
        }
    }

    /// An answer that says whether something was done.
    pub fn ask_done(&mut self, request: Request) -> (r: Result<Result<(), GitAiError>, Stop>)
        ensures
            (seen_try(r), final(self)@) == asked_done(old(self)@, request.deep_view()),
    {
        match self.ask(request)? {
            Reply::Done(Ok(())) => Ok(Ok(())),
            Reply::Done(Err(e)) => Ok(Err(e.clone())),
            _ => Err(Stop::Mismatch),
        }
    }

    /// Something is done, or the function fails.
    pub fn must(&mut self, request: Request) -> (r: Result<(), Stop>)
        ensures
            (seen(r), final(self)@) == must(old(self)@, request.deep_view()),
    {
        match self.ask_done(request)? {
            Ok(()) => Ok(()),
            Err(e) => Err(Stop::Fail(e)),
        }
    }

    /// An answer that is a text.
    pub fn ask_text(&mut self, request: Request) -> (r: Result<Result<String, GitAiError>, Stop>)
        ensures
            (seen_try(r), final(self)@) == asked_text(old(self)@, request.deep_view()),
    {
        match self.ask(request)? {
            Reply::Text(Ok(t)) => Ok(Ok(t.clone())),
            Reply::Text(Err(e)) => Ok(Err(e.clone())),
            _ => Err(Stop::Mismatch),
        }
    }

    /// An answer that is an authorship log.
    pub fn ask_log(&mut self, request: Request) -> (r: Result<
        Result<AuthorshipLog, GitAiError>,
        Stop,
    >)
        ensures
            (seen_try(r), final(self)@) == asked_log(old(self)@, request.deep_view()),
    {
        match self.ask(request)? {
            Reply::Log(Ok(log)) => Ok(Ok(log.clone())),
            Reply::Log(Err(e)) => Ok(Err(e.clone())),
            _ => Err(Stop::Mismatch),
        }
    }

    /// An answer that is a list of checkpoints.
    pub fn ask_checkpoints(&mut self, request: Request) -> (r: Result<
        Result<Vec<Checkpoint>, GitAiError>,
        Stop,
    >)
        ensures
            (seen_try(r), final(self)@) == asked_checkpoints(old(self)@, request.deep_view()),
    {
        match self.ask(request)? {
            Reply::Checkpoints(Ok(list)) => {
                let copy = list.clone();
                assert(copy.deep_view() =~= list.deep_view());
                Ok(Ok(copy))
            },
            Reply::Checkpoints(Err(e)) => Ok(Err(e.clone())),
            _ => Err(Stop::Mismatch),
        }
    }

    /// An answer that is yes or no.
    pub fn ask_flag(&mut self, request: Request) -> (r: Result<bool, Stop>)
        ensures
            (seen(r), final(self)@) == asked_flag(old(self)@, request.deep_view()),
    {
        match self.ask(request)? {
            Reply::Flag(b) => Ok(*b),
            _ => Err(Stop::Mismatch),
        }
    }

    /// Writes a line to standard output.
    pub fn print(&mut self, line: String) -> (r: Result<(), Stop>)
        ensures
            (seen(r), final(self)@) == printed(old(self)@, line@),
    {
        self.must(Request::Stdout { line })
    }

    /// Writes a line to standard error.
    pub fn complain(&mut self, line: String, cause: Option<GitAiError>) -> (r: Result<(), Stop>)
        ensures
            (seen(r), final(self)@) == complained(old(self)@, line@, cause.deep_view()),
    {
        self.must(Request::Stderr { line, cause })
    }
}

// ---------------------------------------------------------------------------------------------
// Git
// ---------------------------------------------------------------------------------------------
/// What a git command wrote to its standard output, or how it failed.
pub open spec fn git_run(
    s: Tape,
    args: Seq<Seq<char>>,
    env: Seq<(Seq<char>, Seq<char>)>,
    stdin: Option<Seq<u8>>,
) -> Run<Result<Seq<u8>, GitAiErrorView>> {
    match asked(s, RequestView::Git { args, env, stdin }) {
        (Ok(Reply::Exit { success, code, stdout, stderr }), s1) => if success {
            (Ok(Ok(stdout@)), s1)
        } else {
            (
                Ok(
                    Err(
                        GitAiErrorView::GitCliError { code, stderr: utf8_lossy(stderr@), args },
                    ),
                ),
                s1,
            )
        },
        (Ok(Reply::NotRun(message)), s1) => (Ok(Err(GitAiErrorView::IoError(message@))), s1),
        (Ok(_), s1) => (Err(StopView::Mismatch), s1),
        (Err(stop), s1) => (Err(stop), s1),
    }
}

/// What a git command without input wrote to its standard output, or how it failed.
pub open spec fn git_try(s: Tape, args: Seq<Seq<char>>) -> Run<Result<Seq<u8>, GitAiErrorView>> {
    git_run(s, args, Seq::empty(), None)
}

/// What a git command wrote to its standard output.
pub open spec fn git_bytes(s: Tape, args: Seq<Seq<char>>) -> Run<Seq<u8>> {
    or_fail(git_try(s, args))
}

/// Output read as text.
pub open spec fn as_text(run: Run<Seq<u8>>) -> Run<Seq<char>> {
    match run {
        (Ok(bytes), s) => match utf8_text(bytes) {
            Some(t) => (Ok(t), s),
            None => (Err(StopView::Fail(GitAiErrorView::FromUtf8Error)), s),
        },
        (Err(stop), s) => (Err(stop), s),
    }
}

/// What a git command wrote to its standard output, as text.
pub open spec fn git_text(s: Tape, args: Seq<Seq<char>>) -> Run<Seq<char>> {
    as_text(git_bytes(s, args))
}

/// The text that bytes are, or no text where they are none.
pub open spec fn text_or_empty(bytes: Seq<u8>) -> Seq<char> {
    match utf8_text(bytes) {
        Some(t) => t,
        None => Seq::empty(),
    }
}

/// The text that bytes are, or no text where they are none.
pub fn lenient_text(bytes: &Vec<u8>) -> (r: String)
    ensures
        r@ == text_or_empty(bytes@),
{
    match from_utf8(bytes) {
        Some(t) => t,
        None => String::new(),
    }
}

/// Text without white space at its ends.
pub open spec fn as_trimmed(run: Run<Seq<char>>) -> Run<Seq<char>> {
    match run {
        (Ok(t), s) => (Ok(trimmed(t)), s),
        (Err(stop), s) => (Err(stop), s),
    }
}

/// What a git command wrote to its standard output, without white space at its ends.
pub open spec fn git_line(s: Tape, args: Seq<Seq<char>>) -> Run<Seq<char>> {
    as_trimmed(git_text(s, args))
}

/// Adds a word to the arguments of a command.
pub fn word(args: &mut Vec<String>, w: &str)
    ensures
        final(args).deep_view() == old(args).deep_view().push(w@),
{
    let ghost before = args.deep_view();
    args.push(w.to_string());
    assert(args.deep_view() =~= before.push(w@));
}

fn run_git<'a>(
    session: &mut Session<'a>,
    args: Vec<String>,
    env: Vec<(String, String)>,
    stdin: Option<Vec<u8>>,
) -> (r: Result<Result<&'a Vec<u8>, GitAiError>, Stop>)
    ensures
        (seen_try_bytes(r), final(session)@) == git_run(
            old(session)@,
            args.deep_view(),
            env.deep_view(),
            match stdin {
                Some(bytes) => Some(bytes@),
                None => None,
            },
        ),
{
    let kept = crate::error::clone_texts(&args);
    match session.ask(Request::Git { args, env, stdin })? {
        Reply::Exit { success, code, stdout, stderr } => {
            if *success {
                Ok(Ok(stdout))
            } else {
                Ok(
                    Err(
                        GitAiError::GitCliError {
                            code: *code,
                            stderr: from_utf8_lossy(stderr.as_slice()),
                            args: kept,
                        },
                    ),
                )
            }
        },
        Reply::NotRun(message) => Ok(Err(GitAiError::IoError(message.clone()))),
        _ => Err(Stop::Mismatch),
    }
}

/// Helper to execute a git command
pub fn exec_git<'a>(session: &mut Session<'a>, args: Vec<String>) -> (r: Result<
    Result<&'a Vec<u8>, GitAiError>,
    Stop,
>)
    ensures
        (seen_try_bytes(r), final(session)@) == git_try(old(session)@, args.deep_view()),
{
    let env: Vec<(String, String)> = Vec::new();
    assert(env.deep_view() =~= Seq::empty());
    run_git(session, args, env, None)
}

/// Helper to execute a git command with data provided on stdin
pub fn exec_git_stdin<'a>(
    session: &mut Session<'a>,
    args: Vec<String>,
    stdin_data: Vec<u8>,
) -> (r: Result<&'a Vec<u8>, Stop>)
    ensures
        (seen_bytes(r), final(session)@) == or_fail(
            git_run(old(session)@, args.deep_view(), Seq::empty(), Some(stdin_data@)),
        ),
{
    let env: Vec<(String, String)> = Vec::new();
    assert(env.deep_view() =~= Seq::empty());
    match run_git(session, args, env, Some(stdin_data))? {
        Ok(out) => Ok(out),
        Err(e) => Err(Stop::Fail(e)),
    }
}

/// Helper to execute a git command with data provided on stdin and additional environment variables
pub fn exec_git_stdin_with_env<'a>(
    session: &mut Session<'a>,
    args: Vec<String>,
    env: Vec<(String, String)>,
    stdin_data: Vec<u8>,
) -> (r: Result<&'a Vec<u8>, Stop>)
    ensures
        (seen_bytes(r), final(session)@) == or_fail(
            git_run(old(session)@, args.deep_view(), env.deep_view(), Some(stdin_data@)),
        ),
{
    match run_git(session, args, env, Some(stdin_data))? {
        Ok(out) => Ok(out),
        Err(e) => Err(Stop::Fail(e)),
    }
}

/// What a git command wrote to its standard output.
pub fn git_output<'a>(session: &mut Session<'a>, args: Vec<String>) -> (r: Result<
    &'a Vec<u8>,
    Stop,
>)
    ensures
        (seen_bytes(r), final(session)@) == git_bytes(old(session)@, args.deep_view()),
{
    match exec_git(session, args)? {
        Ok(out) => Ok(out),
        Err(e) => Err(Stop::Fail(e)),
    }
}

/// Reads output as text.
pub fn output_text(bytes: &Vec<u8>) -> (r: Result<String, Stop>)
    ensures
        match r {
            Ok(t) => utf8_text(bytes@) == Some(t@),
            Err(stop) => utf8_text(bytes@) is None && stop.deep_view() == StopView::Fail(
                GitAiErrorView::FromUtf8Error,
            ),
        },
{
    match from_utf8(bytes) {
        Some(t) => Ok(t),
        None => Err(Stop::Fail(GitAiError::FromUtf8Error)),
    }
}

/// What a git command wrote to its standard output, as text.
pub fn git_output_text(session: &mut Session, args: Vec<String>) -> (r: Result<String, Stop>)
    ensures
        (seen(r), final(session)@) == git_text(old(session)@, args.deep_view()),
{
    let out = git_output(session, args)?;
    output_text(out)
}

/// What a git command wrote to its standard output, without white space at its ends.
pub fn git_output_line(session: &mut Session, args: Vec<String>) -> (r: Result<String, Stop>)
    ensures
        (seen(r), final(session)@) == git_line(old(session)@, args.deep_view()),
{
    let t = git_output_text(session, args)?;
    Ok(trim(t.as_str()))
}

} // verus!
