//! The commands of the program.
use crate::authorship::range_authorship::{
    print_range_authorship_stats, print_range_run, range_authorship, range_authorship_run,
};
use crate::authorship::stats::{stats_command, stats_command_run};
use crate::authorship::working_log::{AgentId, AgentIdView, CheckpointKind};
use crate::commands::agent::{
    all_presets, presets_with, AgentRunResult, AgentRunResultView, Preset, PresetView,
};
use crate::error::{clone_texts, GitAiError, GitAiErrorView};
use crate::git::repository::{
    config_get_run, find_repository, find_repository_in_path, find_repository_run,
    inferring_range_run, CommitRange, CommitRangeView, Repository, RepositoryView,
};
use crate::session::{
    aborted, asked, asked_done, asked_flag, asked_text, caught, catch, complained, failed, must, printed,
    seen, word, Reply, Request, RequestView, Run, Session, Stop, StopView, Tape,
};
use crate::text::{
    contains, decimal, decimal_text, find_from, has_prefix, is_blank, join2, join3, same, split_at_text,
    split_text, starts_with, trimmed,
};
use vstd::prelude::*;

verus! {

broadcast use vstd::seq::group_seq_axioms;

// ---------------------------------------------------------------------------------------------
// Ending the program
// ---------------------------------------------------------------------------------------------
/// A complaint is written, and the program ends with exit code 1.
pub open spec fn died<T>(line: Seq<char>, cause: Option<GitAiErrorView>, s: Tape) -> Run<T> {
    match complained(s, line, cause) {
        (Ok(_), s1) => (Err(StopView::Exit(1)), s1),
        (Err(stop), s1) => (Err(stop), s1),
    }
}

fn die(line: String, cause: Option<GitAiError>, session: &mut Session) -> (r: Stop)
    ensures
        died::<()>(line@, cause.deep_view(), old(session)@) == (
            Err::<(), StopView>(r.deep_view()),
            final(session)@,
        ),
{
    match session.complain(line, cause) {
        Ok(()) => Stop::Exit(1),
        Err(stop) => stop,
    }
}

/// A failure ends the program with a complaint.
pub open spec fn or_died<T>(run: Run<T>, line: Seq<char>) -> Run<T> {
    match caught(run) {
        (Ok(Ok(t)), s1) => (Ok(t), s1),
        (Ok(Err(e)), s1) => died(line, Some(e), s1),
        (Err(stop), s1) => (Err(stop), s1),
    }
}

/// Something is done, or the program ends with a complaint.
pub open spec fn done_or_died(s: Tape, request: RequestView, line: Seq<char>) -> Run<()> {
    match asked_done(s, request) {
        (Ok(Ok(_)), s1) => (Ok(()), s1),
        (Ok(Err(e)), s1) => died(line, Some(e), s1),
        (Err(stop), s1) => (Err(stop), s1),
    }
}

fn do_or_die(request: Request, line: &str, session: &mut Session) -> (r: Result<(), Stop>)
    ensures
        (seen(r), final(session)@) == done_or_died(old(session)@, request.deep_view(), line@),
{
    match session.ask_done(request)? {
        Ok(()) => Ok(()),
        Err(e) => Err(die(line.to_string(), Some(e), session)),
    }
}

/// The repository, or the program ends with a complaint.
pub open spec fn repository_run(global_args: Seq<Seq<char>>, s: Tape) -> Run<RepositoryView> {
    or_died(find_repository_run(global_args, s), "Failed to find repository: "@)
}

fn find_current_repository(session: &mut Session) -> (r: Result<Repository, Stop>)
    ensures
        (seen(r), final(session)@) == repository_run(Seq::empty(), old(session)@),
{
    let none: Vec<String> = Vec::new();
    assert(none.deep_view() =~= Seq::empty());
    match catch(find_repository(&none, session))? {
        Ok(repo) => Ok(repo),
        Err(e) => Err(die("Failed to find repository: ".to_string(), Some(e), session)),
    }
}

// ---------------------------------------------------------------------------------------------
// Help
// ---------------------------------------------------------------------------------------------
/// The names of the agents of which help tells, from place `i` on, each followed by a comma.
pub open spec fn listed_names(presets: Seq<PresetView>, i: int) -> Seq<char>
    decreases presets.len() - i,
{
    if i < 0 || i >= presets.len() {
        Seq::empty()
    } else if presets[i].listed {
        presets[i].name + ", "@ + listed_names(presets, i + 1)
    } else {
        listed_names(presets, i + 1)
    }
}

fn list_names(presets: &Vec<Preset>) -> (r: String)
    ensures
        r@ == listed_names(presets.deep_view(), 0),
{
    let ghost all = presets.deep_view();
    let mut r = String::new();
    let n: usize = presets.len();
    let mut i: usize = n;
    assert(r@ =~= Seq::empty());
    while i > 0
        invariant
            i <= n,
            n == presets@.len(),
            all == presets.deep_view(),
            r@ == listed_names(all, i as int),
        decreases i,
    {
        i = i - 1;
        let preset: &Preset = &presets[i];
        assert(all[i as int] == preset.deep_view());
        if preset.listed {
            r = join3(preset.name.as_str(), ", ", r.as_str());
        }
    }
    r
}

/// The lines of the help text.
pub open spec fn help_lines(presets: Seq<PresetView>) -> Seq<Seq<char>> {
    seq![
        "git-ai - git proxy with AI authorship tracking"@,
        ""@,
        "Usage: git-ai <command> [args...]"@,
        ""@,
        "Commands:"@,
        "  checkpoint         Checkpoint working changes and attribute author"@,
        "    Presets: "@ + listed_names(presets, 0) + "mock_ai"@,
        "    --hook-input <json|stdin>   JSON payload required by presets, or 'stdin' to read from stdin"@,
        "    --show-working-log          Display current working log"@,
        "    --reset                     Reset working log"@,
        "  blame <file>       Git blame with AI authorship overlay"@,
        "  stats [commit]     Show AI authorship statistics for a commit"@,
        "    --json                 Output in JSON format"@,
        "  stats-delta        Generate authorship logs for children of commits with working logs"@,
        "    --json                 Output created notes as JSON"@,
        "  install-hooks      Install git hooks for AI authorship tracking"@,
        "  squash-authorship  Generate authorship from squashed commits"@,
        "    <branch> <new_sha> <old_sha>  Required: branch, new commit SHA, old commit SHA"@,
        "    --dry-run             Show what would be done without making changes"@,
        "  git-path           Print the path to the underlying git executable"@,
        "  version, -v, --version     Print the git-ai version"@,
        "  help, -h, --help           Show this help message"@,
        ""@,
    ]
}

fn build_help(presets: &Vec<Preset>) -> (r: Vec<String>)
    ensures
        r.deep_view() == help_lines(presets.deep_view()),
{
    let mut r: Vec<String> = Vec::new();
    word(&mut r, "git-ai - git proxy with AI authorship tracking");
    word(&mut r, "");
    word(&mut r, "Usage: git-ai <command> [args...]");
    word(&mut r, "");
    word(&mut r, "Commands:");
    word(&mut r, "  checkpoint         Checkpoint working changes and attribute author");
    word(&mut r, join3("    Presets: ", list_names(presets).as_str(), "mock_ai").as_str());
    word(
        &mut r,
        "    --hook-input <json|stdin>   JSON payload required by presets, or 'stdin' to read from stdin",
    );
    word(&mut r, "    --show-working-log          Display current working log");
    word(&mut r, "    --reset                     Reset working log");
    word(&mut r, "  blame <file>       Git blame with AI authorship overlay");
    word(&mut r, "  stats [commit]     Show AI authorship statistics for a commit");
    word(&mut r, "    --json                 Output in JSON format");
    word(
        &mut r,
        "  stats-delta        Generate authorship logs for children of commits with working logs",
    );
    word(&mut r, "    --json                 Output created notes as JSON");
    word(&mut r, "  install-hooks      Install git hooks for AI authorship tracking");
    word(&mut r, "  squash-authorship  Generate authorship from squashed commits");
    word(
        &mut r,
        "    <branch> <new_sha> <old_sha>  Required: branch, new commit SHA, old commit SHA",
    );
    word(&mut r, "    --dry-run             Show what would be done without making changes");
    word(&mut r, "  git-path           Print the path to the underlying git executable");
    word(&mut r, "  version, -v, --version     Print the git-ai version");
    word(&mut r, "  help, -h, --help           Show this help message");
    word(&mut r, "");
    assert(r.deep_view() =~= help_lines(presets.deep_view()));
    r
}

/// Lines are written to standard error, from place `i` on.
pub open spec fn complaints_run(all: Seq<Seq<char>>, i: int, s: Tape) -> Run<()>
    decreases all.len() - i,
{
    if i < 0 || i >= all.len() {
        (Ok(()), s)
    } else {
        match complained(s, all[i], None) {
            (Ok(_), s1) => complaints_run(all, i + 1, s1),
            (Err(stop), s1) => (Err(stop), s1),
        }
    }
}

/// The help text is written, and the program ends.
pub open spec fn help_run(presets: Seq<PresetView>, s: Tape) -> Run<()> {
    match complaints_run(help_lines(presets), 0, s) {
        (Ok(_), s1) => (Err(StopView::Exit(0)), s1),
        (Err(stop), s1) => (Err(stop), s1),
    }
}

/// Prints the help text. The first parameter is the name of the agent that it is named after, a
/// word of small letters; help lists it before the other agents.
pub fn print_help(claude: &str, session: &mut Session) -> (r: Result<(), Stop>)
    ensures
        (seen(r), final(session)@) == help_run(all_presets(claude@), old(session)@),
{
    let presets = presets_with(claude);
    let all = build_help(&presets);
    let ghost texts = help_lines(presets.deep_view());
    let ghost whole = complaints_run(texts, 0, session@);
    let mut i: usize = 0;
    while i < all.len()
        invariant
            i <= all@.len(),
            texts == all.deep_view(),
            texts == help_lines(all_presets(claude@)),
            complaints_run(texts, i as int, session@) == whole,
            whole == complaints_run(texts, 0, old(session)@),
        decreases all@.len() - i,
    {
        assert(texts[i as int] == all@[i as int]@);
        session.complain(all[i].clone(), None)?;
        i = i + 1;
    }
    Err(Stop::Exit(0))
}

// ---------------------------------------------------------------------------------------------
// Checkpoints
// ---------------------------------------------------------------------------------------------
/// What the arguments of a checkpoint ask for.
pub struct CheckpointFlags {
    pub show_working_log: bool,
    pub reset: bool,
    pub hook_input: Option<String>,
}

/// What a `CheckpointFlags` holds.
pub struct CheckpointFlagsView {
    pub show_working_log: bool,
    pub reset: bool,
    pub hook_input: Option<Seq<char>>,
}

impl DeepView for CheckpointFlags {
    type V = CheckpointFlagsView;

    open spec fn deep_view(&self) -> CheckpointFlagsView {
        CheckpointFlagsView {
            show_working_log: self.show_working_log,
            reset: self.reset,
            hook_input: self.hook_input.deep_view(),
        }
    }
}

/// The input for a hook: the text that is given, or what standard input holds where that is
/// `stdin`. It may not be blank.
pub open spec fn hook_input_run(given: Seq<char>, s: Tape) -> Run<Seq<char>> {
    if given == "stdin"@ {
        match asked_text(s, RequestView::ReadStdin) {
            (Ok(Ok(text)), s1) => if trimmed(text).len() == 0 {
                died("No hook input provided (via --hook-input or stdin)."@, None, s1)
            } else {
                (Ok(text), s1)
            },
            (Ok(Err(e)), s1) => died("Failed to read stdin for hook input: "@, Some(e), s1),
            (Err(stop), s1) => (Err(stop), s1),
        }
    } else if trimmed(given).len() == 0 {
        died("Error: --hook-input requires a value"@, None, s)
    } else {
        (Ok(given), s)
    }
}

fn read_hook_input(given: &str, session: &mut Session) -> (r: Result<String, Stop>)
    ensures
        (seen(r), final(session)@) == hook_input_run(given@, old(session)@),
{
    if same(given, "stdin") {
        match session.ask_text(Request::ReadStdin)? {
            Ok(text) => {
                if is_blank(text.as_str()) {
                    Err(
                        die(
                            "No hook input provided (via --hook-input or stdin).".to_string(),
                            None,
                            session,
                        ),
                    )
                } else {
                    Ok(text)
                }
            },
            Err(e) => Err(
                die("Failed to read stdin for hook input: ".to_string(), Some(e), session),
            ),
        }
    } else if is_blank(given) {
        Err(die("Error: --hook-input requires a value".to_string(), None, session))
    } else {
        Ok(given.to_string())
    }
}

/// What the arguments of a checkpoint from place `i` on ask for, besides what those before do.
pub open spec fn checkpoint_flags_run(
    args: Seq<Seq<char>>,
    i: int,
    flags: CheckpointFlagsView,
    s: Tape,
) -> Run<CheckpointFlagsView>
    decreases args.len() - i,
{
    if i < 0 || i >= args.len() {
        (Ok(flags), s)
    } else if args[i] == "--show-working-log"@ {
        checkpoint_flags_run(
            args,
            i + 1,
            CheckpointFlagsView { show_working_log: true, ..flags },
            s,
        )
    } else if args[i] == "--reset"@ {
        checkpoint_flags_run(args, i + 1, CheckpointFlagsView { reset: true, ..flags }, s)
    } else if args[i] == "--hook-input"@ {
        if i + 1 < args.len() {
            match hook_input_run(args[i + 1], s) {
                (Ok(text), s1) => checkpoint_flags_run(
                    args,
                    i + 2,
                    CheckpointFlagsView { hook_input: Some(text), ..flags },
                    s1,
                ),
                (Err(stop), s1) => (Err(stop), s1),
            }
        } else {
            died(
                "Error: --hook-input requires a value or 'stdin' to read from stdin"@,
                None,
                s,
            )
        }
    } else {
        checkpoint_flags_run(args, i + 1, flags, s)
    }
}

/// Nothing asked for.
pub open spec fn no_flags() -> CheckpointFlagsView {
    CheckpointFlagsView { show_working_log: false, reset: false, hook_input: None }
}

fn parse_checkpoint_flags(args: &Vec<String>, session: &mut Session) -> (r: Result<
    CheckpointFlags,
    Stop,
>)
    ensures
        (seen(r), final(session)@) == checkpoint_flags_run(
            args.deep_view(),
            0,
            no_flags(),
            old(session)@,
        ),
{
    let ghost texts = args.deep_view();
    let mut flags = CheckpointFlags { show_working_log: false, reset: false, hook_input: None };
    let ghost whole = checkpoint_flags_run(texts, 0, no_flags(), session@);
    let n: usize = args.len();
    let mut i: usize = 0;
    while i < n
        invariant
            i <= n,
            n == args@.len(),
            texts == args.deep_view(),
            checkpoint_flags_run(texts, i as int, flags.deep_view(), session@) == whole,
            whole == checkpoint_flags_run(texts, 0, no_flags(), old(session)@),
        decreases n - i,
    {
        let arg: &str = args[i].as_str();
        assert(texts[i as int] == arg@);
        if same(arg, "--show-working-log") {
            flags.show_working_log = true;
            i = i + 1;
        } else if same(arg, "--reset") {
            flags.reset = true;
            i = i + 1;
        } else if same(arg, "--hook-input") {
            if n - i > 1 {
                assert(texts[i + 1] == args@[i + 1]@);
                let text = read_hook_input(args[i + 1].as_str(), session)?;
                flags.hook_input = Some(text);
                i = i + 2;
            } else {
                return Err(
                    die(
                        "Error: --hook-input requires a value or 'stdin' to read from stdin".to_string(),
                        None,
                        session,
                    ),
                );
            }
        } else {
            i = i + 1;
        }
    }
    Ok(flags)
}

/// What is complained of where the hook of an agent fails: what the first of the presets from
/// place `i` on with that name says, if there is one.
pub open spec fn preset_complaint(presets: Seq<PresetView>, name: Seq<char>, i: int) -> Option<
    Seq<char>,
>
    decreases presets.len() - i,
{
    if i < 0 || i >= presets.len() {
        None
    } else if presets[i].name == name {
        Some(presets[i].complaint)
    } else {
        preset_complaint(presets, name, i + 1)
    }
}

fn find_preset_complaint<'a>(presets: &'a Vec<Preset>, name: &str) -> (r: Option<&'a str>)
    ensures
        r.deep_view() == preset_complaint(presets.deep_view(), name@, 0),
{
    let ghost all = presets.deep_view();
    let mut i: usize = 0;
    while i < presets.len()
        invariant
            i <= presets@.len(),
            all == presets.deep_view(),
            preset_complaint(all, name@, i as int) == preset_complaint(all, name@, 0),
        decreases presets@.len() - i,
    {
        assert(all[i as int] == presets@[i as int].deep_view());
        if same(presets[i].name.as_str(), name) {
            return Some(presets[i].complaint.as_str());
        }
        i = i + 1;
    }
    None
}

/// The run of the mock agent at a time.
pub open spec fn mock_run_at(nanos: nat) -> AgentRunResultView {
    AgentRunResultView {
        agent_id: AgentIdView {
            tool: "mock_ai"@,
            id: "ai-thread-"@ + decimal(nanos),
            model: "unknown"@,
        },
        checkpoint_kind: CheckpointKind::AiAgent,
        transcript: None,
        repo_working_dir: None,
        edited_filepaths: None,
        will_edit_filepaths: None,
    }
}

/// The run of the mock agent at a time.
pub fn mock_agent_run(nanos: u128) -> (r: AgentRunResult)
    ensures
        r.deep_view() == mock_run_at(nanos as nat),
{
    AgentRunResult {
        agent_id: AgentId {
            tool: "mock_ai".to_string(),
            id: join2("ai-thread-", decimal_text(nanos).as_str()),
            model: "unknown".to_string(),
        },
        checkpoint_kind: CheckpointKind::AiAgent,
        transcript: None,
        repo_working_dir: None,
        edited_filepaths: None,
        will_edit_filepaths: None,
    }
}

/// The run of the agent that the first argument names, if it names one.
pub open spec fn agent_run_run(
    presets: Seq<PresetView>,
    args: Seq<Seq<char>>,
    hook_input: Option<Seq<char>>,
    s: Tape,
) -> Run<Option<AgentRunResultView>> {
    if args.len() == 0 {
        (Ok(None), s)
    } else {
        match preset_complaint(presets, args[0], 0) {
            Some(complaint) => match asked(
                s,
                RequestView::RunPreset { preset: args[0], hook_input },
            ) {
                (Ok(Reply::AgentRun(Ok(agent_run))), s1) => (Ok(Some(agent_run.deep_view())), s1),
                (Ok(Reply::AgentRun(Err(e))), s1) => died(complaint, Some(e.deep_view()), s1),
                (Ok(_), s1) => (Err(StopView::Mismatch), s1),
                (Err(stop), s1) => (Err(stop), s1),
            },
            None => if args[0] == "mock_ai"@ {
                match asked(s, RequestView::Clock) {
                    (Ok(Reply::Number(nanos)), s1) => (Ok(Some(mock_run_at(nanos as nat))), s1),
                    (Ok(_), s1) => (Err(StopView::Mismatch), s1),
                    (Err(stop), s1) => (Err(stop), s1),
                }
            } else {
                (Ok(None), s)
            },
        }
    }
}

fn run_agent(
    presets: &Vec<Preset>,
    args: &Vec<String>,
    hook_input: Option<String>,
    session: &mut Session,
) -> (r: Result<Option<AgentRunResult>, Stop>)
    ensures
        (seen(r), final(session)@) == agent_run_run(
            presets.deep_view(),
            args.deep_view(),
            hook_input.deep_view(),
            old(session)@,
        ),
{
    if args.len() == 0 {
        return Ok(None);
    }
    let preset: &String = &args[0];
    assert(args.deep_view()[0] == preset@);
    match find_preset_complaint(presets, preset.as_str()) {
        Some(complaint) => match session.ask(
            Request::RunPreset { preset: preset.clone(), hook_input },
        )? {
            Reply::AgentRun(Ok(agent_run)) => Ok(Some(agent_run.clone())),
            Reply::AgentRun(Err(e)) => Err(die(complaint.to_string(), Some(e.clone()), session)),
            _ => Err(Stop::Mismatch),
        },
        None => {
            if same(preset.as_str(), "mock_ai") {
                match session.ask(Request::Clock)? {
                    Reply::Number(nanos) => Ok(Some(mock_agent_run(*nanos))),
                    _ => Err(Stop::Mismatch),
                }
            } else {
                Ok(None)
            }
        },
    }
}

/// The name that git is configured with, or `unknown`, with a warning, where there is none.
pub open spec fn user_name_run(repo: RepositoryView, s: Tape) -> Run<Seq<char>> {
    match caught(config_get_run(repo, "user.name"@, s)) {
        (Ok(found), s1) => match found {
            Ok(Some(name)) if trimmed(name).len() > 0 => (Ok(name), s1),
            _ => match complained(
                s1,
                "Warning: git user.name not configured. Using 'unknown' as author."@,
                None,
            ) {
                (Ok(_), s2) => (Ok("unknown"@), s2),
                (Err(stop), s2) => (Err(stop), s2),
            },
        },
        (Err(stop), s1) => (Err(stop), s1),
    }
}

fn find_user_name(repo: &Repository, session: &mut Session) -> (r: Result<String, Stop>)
    ensures
        (seen(r), final(session)@) == user_name_run(repo.deep_view(), old(session)@),
{
    // Get the current user name from git config
    if let Ok(Some(name)) = catch(repo.config_get_str("user.name", session))? {
        if !is_blank(name.as_str()) {
            return Ok(name);
        }
    }
    session.complain(
        "Warning: git user.name not configured. Using 'unknown' as author.".to_string(),
        None,
    )?;
    Ok("unknown".to_string())
}

/// Where a checkpoint is recorded: where the agent ran, or here.
pub open spec fn working_dir(
    agent_run: Option<AgentRunResultView>,
    current_dir: Seq<char>,
) -> Seq<char> {
    match agent_run {
        Some(run) => match run.repo_working_dir {
            Some(dir) => dir,
            None => current_dir,
        },
        None => current_dir,
    }
}

/// Whose edits a checkpoint records: a human's, unless an agent ran.
pub open spec fn checkpoint_kind(agent_run: Option<AgentRunResultView>) -> CheckpointKind {
    match agent_run {
        Some(run) => run.checkpoint_kind,
        None => CheckpointKind::Human,
    }
}

/// A checkpoint is recorded.
pub open spec fn record_run(
    flags: CheckpointFlagsView,
    agent_run: Option<AgentRunResultView>,
    current_dir: Seq<char>,
    s: Tape,
) -> Run<()> {
    match repository_run(seq!["-C"@, working_dir(agent_run, current_dir)], s) {
        (Ok(repo), s1) => match user_name_run(repo, s1) {
            (Ok(author), s2) => done_or_died(
                s2,
                RequestView::RunCheckpoint {
                    git_dir: repo.git_dir,
                    author,
                    kind: checkpoint_kind(agent_run),
                    show_working_log: flags.show_working_log,
                    reset: flags.reset,
                    quiet: false,
                    agent_run,
                },
                "Checkpoint failed: "@,
            ),
            (Err(stop), s2) => (Err(stop), s2),
        },
        (Err(stop), s1) => (Err(stop), s1),
    }
}

/// The checkpoint command.
pub open spec fn checkpoint_run(
    presets: Seq<PresetView>,
    args: Seq<Seq<char>>,
    s: Tape,
) -> Run<()> {
    match asked_text(s, RequestView::CurrentDir) {
        (Ok(Ok(current_dir)), s1) => match checkpoint_flags_run(args, 0, no_flags(), s1) {
            (Ok(flags), s2) => match agent_run_run(presets, args, flags.hook_input, s2) {
                (Ok(agent_run), s3) => record_run(flags, agent_run, current_dir, s3),
                (Err(stop), s3) => (Err(stop), s3),
            },
            (Err(stop), s2) => (Err(stop), s2),
        },
        (Ok(Err(_)), s1) => aborted("there is no current directory"@, s1),
        (Err(stop), s1) => (Err(stop), s1),
    }
}

fn record_checkpoint(
    flags: &CheckpointFlags,
    agent_run: Option<AgentRunResult>,
    current_dir: String,
    session: &mut Session,
) -> (r: Result<(), Stop>)
    ensures
        (seen(r), final(session)@) == record_run(
            flags.deep_view(),
            agent_run.deep_view(),
            current_dir@,
            old(session)@,
        ),
{
    let (final_working_dir, kind): (String, CheckpointKind) = match &agent_run {
        Some(run) => (
            match &run.repo_working_dir {
                Some(dir) => dir.clone(),
                None => current_dir,
            },
            run.checkpoint_kind,
        ),
        None => (current_dir, CheckpointKind::Human),
    };
    // Find the git repository
    let repo = match catch(find_repository_in_path(final_working_dir.as_str(), session))? {
        Ok(repo) => repo,
        Err(e) => {
            return Err(die("Failed to find repository: ".to_string(), Some(e), session));
        },
    };
    let author = find_user_name(&repo, session)?;
    do_or_die(
        Request::RunCheckpoint {
            git_dir: repo.path().to_string(),
            author,
            kind,
            show_working_log: flags.show_working_log,
            reset: flags.reset,
            quiet: false,
            agent_run,
        },
        "Checkpoint failed: ",
        session,
    )
}

/// The checkpoint command. The first parameter is the name of the agent that it is named after, a
/// word of small letters; where its hook fails, what is complained of starts with that name, with a
/// capital, and ` preset error: `.
pub fn handle_checkpoint(claude: &str, args: &Vec<String>, session: &mut Session) -> (r:
    Result<(), Stop>)
    ensures
        (seen(r), final(session)@) == checkpoint_run(
            all_presets(claude@),
            args.deep_view(),
            old(session)@,
        ),
{
    let current_dir = match session.ask_text(Request::CurrentDir)? {
        Ok(dir) => dir,
        Err(_) => {
            return Err(Stop::Abort("there is no current directory".to_string()));
        },
    };
    // Parse checkpoint-specific arguments
    let flags = parse_checkpoint_flags(args, session)?;
    // Handle preset arguments after parsing all flags
    let presets = presets_with(claude);
    let agent_run = run_agent(&presets, args, flags.hook_input.clone(), session)?;
    record_checkpoint(&flags, agent_run, current_dir, session)
}

// ---------------------------------------------------------------------------------------------
// Authorship logs for the children of commits
// ---------------------------------------------------------------------------------------------
/// The place of the first argument that is not `--json`, from place `i` on.
pub open spec fn first_unknown(args: Seq<Seq<char>>, i: int) -> Option<int>
    decreases args.len() - i,
{
    if i < 0 || i >= args.len() {
        None
    } else if args[i] == "--json"@ {
        first_unknown(args, i + 1)
    } else {
        Some(i)
    }
}

/// The command for the children of commits with working logs.
pub open spec fn stats_delta_run(args: Seq<Seq<char>>, s: Tape) -> Run<()> {
    match first_unknown(args, 0) {
        Some(i) => died("Unknown stats-delta argument: "@ + args[i], None, s),
        None => match repository_run(Seq::empty(), s) {
            (Ok(repo), s1) => done_or_died(
                s1,
                RequestView::RunStatsDelta { git_dir: repo.git_dir, json: args.len() > 0 },
                "Stats delta failed: "@,
            ),
            (Err(stop), s1) => (Err(stop), s1),
        },
    }
}

pub fn handle_stats_delta(args: &Vec<String>, session: &mut Session) -> (r: Result<(), Stop>)
    ensures
        (seen(r), final(session)@) == stats_delta_run(args.deep_view(), old(session)@),
{
    // Parse stats-delta-specific arguments
    let ghost texts = args.deep_view();
    let mut json_output = false;
    let n: usize = args.len();
    let mut i: usize = 0;
    while i < n
        invariant
            i <= n,
            n == args@.len(),
            texts == args.deep_view(),
            json_output == (i > 0),
            session@ == old(session)@,
            first_unknown(texts, i as int) == first_unknown(texts, 0),
        decreases n - i,
    {
        assert(texts[i as int] == args@[i as int]@);
        if same(args[i].as_str(), "--json") {
            json_output = true;
            i = i + 1;
        } else {
            return Err(
                die(join2("Unknown stats-delta argument: ", args[i].as_str()), None, session),
            );
        }
    }
    let repo = find_current_repository(session)?;
    do_or_die(
        Request::RunStatsDelta { git_dir: repo.path().to_string(), json: json_output },
        "Stats delta failed: ",
        session,
    )
}

// ---------------------------------------------------------------------------------------------
// Blame
// ---------------------------------------------------------------------------------------------
/// Whether a blame with these arguments is incremental.
pub open spec fn incremental_run(args: Seq<Seq<char>>, s: Tape) -> Run<bool> {
    match asked(s, RequestView::ParseBlameArgs { args }) {
        (Ok(Reply::Flag(incremental)), s1) => (Ok(incremental), s1),
        (Ok(Reply::Done(Err(e))), s1) => died(
            "Failed to parse blame arguments: "@,
            Some(e.deep_view()),
            s1,
        ),
        (Ok(_), s1) => (Err(StopView::Mismatch), s1),
        (Err(stop), s1) => (Err(stop), s1),
    }
}

/// A blame that is incremental is refused where it would go to a terminal.
pub open spec fn permitted_blame_run(
    git_dir: Seq<char>,
    args: Seq<Seq<char>>,
    incremental: bool,
    s: Tape,
) -> Run<()> {
    match asked_flag(s, RequestView::IsTerminal) {
        (Ok(is_interactive), s1) => if is_interactive && incremental {
            died("Error: incremental mode is not supported in interactive terminal"@, None, s1)
        } else {
            done_or_died(s1, RequestView::RunBlame { git_dir, args }, "Blame failed: "@)
        },
        (Err(stop), s1) => (Err(stop), s1),
    }
}

/// The blame command.
pub open spec fn blame_run(args: Seq<Seq<char>>, s: Tape) -> Run<()> {
    if args.len() == 0 {
        died("Error: blame requires a file argument"@, None, s)
    } else {
        match repository_run(Seq::empty(), s) {
            (Ok(repo), s1) => match incremental_run(args, s1) {
                (Ok(incremental), s2) => permitted_blame_run(repo.git_dir, args, incremental, s2),
                (Err(stop), s2) => (Err(stop), s2),
            },
            (Err(stop), s1) => (Err(stop), s1),
        }
    }
}

fn parse_incremental(args: &Vec<String>, session: &mut Session) -> (r: Result<bool, Stop>)
    ensures
        (seen(r), final(session)@) == incremental_run(args.deep_view(), old(session)@),
{
    match session.ask(Request::ParseBlameArgs { args: clone_texts(args) })? {
        Reply::Flag(incremental) => Ok(*incremental),
        Reply::Done(Err(e)) => Err(
            die("Failed to parse blame arguments: ".to_string(), Some(e.clone()), session),
        ),
        _ => Err(Stop::Mismatch),
    }
}

pub fn handle_ai_blame(args: &Vec<String>, session: &mut Session) -> (r: Result<(), Stop>)
    ensures
        (seen(r), final(session)@) == blame_run(args.deep_view(), old(session)@),
{
    if args.len() == 0 {
        return Err(die("Error: blame requires a file argument".to_string(), None, session));
    }
    let repo = find_current_repository(session)?;
    // Parse blame arguments
    let incremental = parse_incremental(args, session)?;
    // Check if this is an interactive terminal
    let is_interactive = session.ask_flag(Request::IsTerminal)?;
    if is_interactive && incremental {
        // For incremental mode in interactive terminal, we need special handling
        // This would typically involve a pager like less
        return Err(
            die(
                "Error: incremental mode is not supported in interactive terminal".to_string(),
                None,
                session,
            ),
        );
    }
    do_or_die(
        Request::RunBlame { git_dir: repo.path().to_string(), args: clone_texts(args) },
        "Blame failed: ",
        session,
    )
}

// ---------------------------------------------------------------------------------------------
// Statistics
// ---------------------------------------------------------------------------------------------
/// What the arguments of the statistics command ask for.
pub struct StatsRequestView {
    pub json: bool,
    pub commit: Option<Seq<char>>,
    pub range: Option<CommitRangeView>,
}

/// The range that an argument with two dots in it stands for.
pub open spec fn range_argument_run(repo: RepositoryView, arg: Seq<char>, s: Tape) -> Run<
    CommitRangeView,
> {
    let parts = split_at_text(arg, ".."@);
    if parts.len() == 2 {
        or_died(
            inferring_range_run(repo, parts[0], parts[1], None, s),
            "Failed to create commit range: "@,
        )
    } else {
        died("Invalid commit range format. Expected: <commit>..<commit>"@, None, s)
    }
}

/// What the arguments of the statistics command from place `i` on ask for, besides what those
/// before do. A range takes the place of a range before it; after a commit, nothing else may be
/// named.
pub open spec fn stats_request_run(
    repo: RepositoryView,
    args: Seq<Seq<char>>,
    i: int,
    wanted: StatsRequestView,
    s: Tape,
) -> Run<StatsRequestView>
    decreases args.len() - i,
{
    if i < 0 || i >= args.len() {
        (Ok(wanted), s)
    } else if args[i] == "--json"@ {
        stats_request_run(repo, args, i + 1, StatsRequestView { json: true, ..wanted }, s)
    } else if wanted.commit is Some {
        died("Unknown stats argument: "@ + args[i], None, s)
    } else if find_from(args[i], ".."@, 0) is Some {
        match range_argument_run(repo, args[i], s) {
            (Ok(range), s1) => stats_request_run(
                repo,
                args,
                i + 1,
                StatsRequestView { range: Some(range), ..wanted },
                s1,
            ),
            (Err(stop), s1) => (Err(stop), s1),
        }
    } else {
        stats_request_run(
            repo,
            args,
            i + 1,
            StatsRequestView { commit: Some(args[i]), ..wanted },
            s,
        )
    }
}

/// The statistics of a range are shown.
pub open spec fn show_range_run(range: CommitRangeView, json: bool, s: Tape) -> Run<()> {
    match or_died(range_authorship_run(range, true, s), "Range authorship failed: "@) {
        (Ok(stats), s1) => if json {
            must(s1, RequestView::RangeStatsJson { range: stats })
        } else {
            print_range_run(stats, s1)
        },
        (Err(stop), s1) => (Err(stop), s1),
    }
}

/// The end of the program after the statistics of a commit failed.
pub open spec fn stats_failed(e: GitAiErrorView, s: Tape) -> Run<()> {
    match e {
        GitAiErrorView::Generic(message) if has_prefix(message, "No commit found:"@) => died(
            message,
            None,
            s,
        ),
        _ => died("Stats failed: "@, Some(e), s),
    }
}

/// The statistics of a commit are shown.
pub open spec fn show_commit_run(
    repo: RepositoryView,
    commit: Option<Seq<char>>,
    json: bool,
    s: Tape,
) -> Run<()> {
    match caught(stats_command_run(repo, commit, json, s)) {
        (Ok(Ok(_)), s1) => (Ok(()), s1),
        (Ok(Err(e)), s1) => stats_failed(e, s1),
        (Err(stop), s1) => (Err(stop), s1),
    }
}

/// The statistics command.
pub open spec fn stats_run(args: Seq<Seq<char>>, s: Tape) -> Run<()> {
    match repository_run(Seq::empty(), s) {
        (Ok(repo), s1) => match stats_request_run(
            repo,
            args,
            0,
            StatsRequestView { json: false, commit: None, range: None },
            s1,
        ) {
            (Ok(wanted), s2) => match wanted.range {
                Some(range) => show_range_run(range, wanted.json, s2),
                None => show_commit_run(repo, wanted.commit, wanted.json, s2),
            },
            (Err(stop), s2) => (Err(stop), s2),
        },
        (Err(stop), s1) => (Err(stop), s1),
    }
}

fn parse_range<'a>(repo: &'a Repository, arg: &str, session: &mut Session) -> (r: Result<
    CommitRange<'a>,
    Stop,
>)
    ensures
        (seen(r), final(session)@) == range_argument_run(repo.deep_view(), arg@, old(session)@),
{
    proof {
        reveal_strlit("..");
    }
    let parts = split_text(arg, "..");
    let ghost texts = split_at_text(arg@, ".."@);
    assert(texts == parts.deep_view());
    if parts.len() == 2 {
        assert(texts[0] == parts@[0]@ && texts[1] == parts@[1]@);
        match catch(
            CommitRange::new_infer_refname(
                repo,
                parts[0].clone(),
                parts[1].clone(),
                None,
                session,
            ),
        )? {
            Ok(range) => Ok(range),
            Err(e) => Err(die("Failed to create commit range: ".to_string(), Some(e), session)),
        }
    } else {
        Err(
            die(
                "Invalid commit range format. Expected: <commit>..<commit>".to_string(),
                None,
                session,
            ),
        )
    }
}

fn show_range(range: CommitRange<'_>, json_output: bool, session: &mut Session) -> (r: Result<
    (),
    Stop,
>)
    ensures
        (seen(r), final(session)@) == show_range_run(
            range.deep_view(),
            json_output,
            old(session)@,
        ),
{
    match catch(range_authorship(range, true, session))? {
        Ok(stats) => {
            if json_output {
                session.must(Request::RangeStatsJson { range: stats })
            } else {
                print_range_authorship_stats(&stats, session)
            }
        },
        Err(e) => Err(die("Range authorship failed: ".to_string(), Some(e), session)),
    }
}

fn show_commit(
    repo: &Repository,
    commit_sha: Option<&str>,
    json_output: bool,
    session: &mut Session,
) -> (r: Result<(), Stop>)
    ensures
        (seen(r), final(session)@) == show_commit_run(
            repo.deep_view(),
            commit_sha.deep_view(),
            json_output,
            old(session)@,
        ),
{
    match catch(stats_command(repo, commit_sha, json_output, session))? {
        Ok(()) => Ok(()),
        Err(e) => {
            if let GitAiError::Generic(message) = &e {
                if starts_with(message.as_str(), "No commit found:") {
                    return Err(die(message.clone(), None, session));
                }
            }
            Err(die("Stats failed: ".to_string(), Some(e), session))
        },
    }
}

pub fn handle_stats(args: &Vec<String>, session: &mut Session) -> (r: Result<(), Stop>)
    ensures
        (seen(r), final(session)@) == stats_run(args.deep_view(), old(session)@),
{
    let repo = find_current_repository(session)?;
    // Parse stats-specific arguments
    let mut json_output = false;
    let mut commit_sha: Option<String> = None;
    let mut commit_range: Option<CommitRange<'_>> = None;
    let ghost texts = args.deep_view();
    let ghost start = session@;
    let ghost whole = stats_request_run(
        repo.deep_view(),
        texts,
        0,
        StatsRequestView { json: false, commit: None, range: None },
        session@,
    );
    let n: usize = args.len();
    let mut i: usize = 0;
    while i < n
        invariant
            i <= n,
            n == args@.len(),
            texts == args.deep_view(),
            stats_request_run(
                repo.deep_view(),
                texts,
                i as int,
                (StatsRequestView {
                    json: json_output,
                    commit: commit_sha.deep_view(),
                    range: commit_range.deep_view(),
                }),
                session@,
            ) == whole,
            whole == stats_request_run(
                repo.deep_view(),
                texts,
                0,
                (StatsRequestView { json: false, commit: None, range: None }),
                start,
            ),
            repository_run(Seq::empty(), old(session)@) == (
                Ok::<RepositoryView, StopView>(repo.deep_view()),
                start,
            ),
        decreases n - i,
    {
        let arg: &str = args[i].as_str();
        assert(texts[i as int] == arg@);
        if same(arg, "--json") {
            json_output = true;
        } else if commit_sha.is_none() {
            // First non-flag argument is treated as commit SHA or range
            // Check if this is a commit range (contains "..")
            if contains(arg, "..") {
                let range = parse_range(&repo, arg, session)?;
                commit_range = Some(range);
            } else {
                commit_sha = Some(arg.to_string());
            }
        } else {
            return Err(die(join2("Unknown stats argument: ", arg), None, session));
        }
        i = i + 1;
    }
    // Handle commit range if detected
    if let Some(range) = commit_range {
        return show_range(range, json_output, session);
    }
    match &commit_sha {
        Some(sha) => show_commit(&repo, Some(sha.as_str()), json_output, session),
        None => show_commit(&repo, None, json_output, session),
    }
}

// ---------------------------------------------------------------------------------------------
// The program
// ---------------------------------------------------------------------------------------------
/// A line is written to standard output, and the program ends.
pub open spec fn ended_with<T>(line: Seq<char>, code: i32, s: Tape) -> Run<T> {
    match printed(s, line) {
        (Ok(_), s1) => (Err(StopView::Exit(code)), s1),
        (Err(stop), s1) => (Err(stop), s1),
    }
}

fn end_with(line: String, code: i32, session: &mut Session) -> (r: Stop)
    ensures
        ended_with::<()>(line@, code, old(session)@) == (
            Err::<(), StopView>(r.deep_view()),
            final(session)@,
        ),
{
    match session.print(line) {
        Ok(()) => Stop::Exit(code),
        Err(stop) => stop,
    }
}

/// The path of git is written.
pub open spec fn git_path_run(s: Tape) -> Run<()> {
    match asked_text(s, RequestView::GitPath) {
        (Ok(Ok(path)), s1) => ended_with(path, 0, s1),
        (Ok(Err(e)), s1) => failed(e, s1),
        (Err(stop), s1) => (Err(stop), s1),
    }
}

/// What a command does with its arguments.
pub open spec fn command_run(
    command: Seq<char>,
    args: Seq<Seq<char>>,
    version: Seq<char>,
    presets: Seq<PresetView>,
    s: Tape,
) -> Run<()> {
    if command == "help"@ || command == "--help"@ || command == "-h"@ {
        help_run(presets, s)
    } else if command == "version"@ || command == "--version"@ || command == "-v"@ {
        ended_with(version, 0, s)
    } else if command == "stats-delta"@ {
        stats_delta_run(args, s)
    } else if command == "stats"@ {
        stats_run(args, s)
    } else if command == "checkpoint"@ {
        checkpoint_run(presets, args, s)
    } else if command == "blame"@ {
        blame_run(args, s)
    } else if command == "git-path"@ {
        git_path_run(s)
    } else if command == "install-hooks"@ {
        done_or_died(s, RequestView::InstallHooks { args }, "Install hooks failed: "@)
    } else if command == "squash-authorship"@ {
        must(s, RequestView::SquashAuthorship { args })
    } else {
        ended_with("Unknown git-ai command: "@ + command, 1, s)
    }
}

/// The program: a command with its arguments, or help where there is none.
pub open spec fn program_run(
    args: Seq<Seq<char>>,
    version: Seq<char>,
    presets: Seq<PresetView>,
    s: Tape,
) -> Run<()> {
    if args.len() == 0 {
        help_run(presets, s)
    } else {
        command_run(args[0], args.skip(1), version, presets, s)
    }
}

fn print_git_path(session: &mut Session) -> (r: Result<(), Stop>)
    ensures
        (seen(r), final(session)@) == git_path_run(old(session)@),
{
    match session.ask_text(Request::GitPath)? {
        Ok(path) => Err(end_with(path, 0, session)),
        Err(e) => Err(Stop::Fail(e)),
    }
}

fn clone_rest(args: &Vec<String>) -> (r: Vec<String>)
    requires
        args@.len() > 0,
    ensures
        r.deep_view() == args.deep_view().skip(1),
{
    let mut r: Vec<String> = Vec::new();
    let mut i: usize = 1;
    while i < args.len()
        invariant
            1 <= i <= args@.len(),
            r.deep_view() == args.deep_view().subrange(1, i as int),
        decreases args@.len() - i,
    {
        let ghost before = r.deep_view();
        r.push(args[i].clone());
        assert(r.deep_view() =~= before.push(args.deep_view()[i as int]));
        i = i + 1;
        assert(r.deep_view() =~= args.deep_view().subrange(1, i as int));
    }
    assert(args.deep_view().subrange(1, i as int) =~= args.deep_view().skip(1));
    r
}

/// Runs the program of this version with these arguments. The third parameter is the name of the
/// agent that it is named after, a word of small letters: the first of the agents that help lists,
/// with `<Name> preset error: ` as the complaint where its hook fails.
pub fn handle_git_ai(
    args: &Vec<String>,
    version: &str,
    claude: &str,
    session: &mut Session,
) -> (r: Result<(), Stop>)
    ensures
        (seen(r), final(session)@) == program_run(
            args.deep_view(),
            version@,
            all_presets(claude@),
            old(session)@,
        ),
{
    if args.len() == 0 {
        return print_help(claude, session);
    }
    let command: &str = args[0].as_str();
    assert(args.deep_view()[0] == command@);
    let rest = clone_rest(args);
    if same(command, "help") || same(command, "--help") || same(command, "-h") {
        print_help(claude, session)
    } else if same(command, "version") || same(command, "--version") || same(command, "-v") {
        Err(end_with(version.to_string(), 0, session))
    } else if same(command, "stats-delta") {
        handle_stats_delta(&rest, session)
    } else if same(command, "stats") {
        handle_stats(&rest, session)
    } else if same(command, "checkpoint") {
        handle_checkpoint(claude, &rest, session)
    } else if same(command, "blame") {
        handle_ai_blame(&rest, session)
    } else if same(command, "git-path") {
        print_git_path(session)
    } else if same(command, "install-hooks") {
        do_or_die(Request::InstallHooks { args: rest }, "Install hooks failed: ", session)
    } else if same(command, "squash-authorship") {
        session.must(Request::SquashAuthorship { args: rest })
    } else {
        Err(end_with(join2("Unknown git-ai command: ", command), 1, session))
    }
}

} // verus!
