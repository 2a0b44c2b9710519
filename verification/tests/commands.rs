//! The commands of the program.
use git_ai::authorship::working_log::{AgentId, CheckpointKind};
use git_ai::commands::agent::{builtin_presets, presets_with, AgentRunResult};
use git_ai::commands::git_ai_handlers::{handle_git_ai, mock_agent_run};
use git_ai::error::GitAiError;
use git_ai::session::{Reply, Request, Session, Stop};

fn text(s: &str) -> String {
    s.to_string()
}

fn wrote(text: &str) -> Reply {
    Reply::Exit {
        success: true,
        code: Some(0),
        stdout: text.as_bytes().to_vec(),
        stderr: Vec::new(),
    }
}

fn refused(text: &str) -> Reply {
    Reply::Exit {
        success: false,
        code: Some(1),
        stdout: Vec::new(),
        stderr: text.as_bytes().to_vec(),
    }
}

/// The word for the agent whose name is handed in.
const FIRST: &str = "sonnet";

fn run_of(id: &str, repo_working_dir: Option<&str>) -> AgentRunResult {
    AgentRunResult {
        agent_id: AgentId { tool: text("cursor"), id: text(id), model: text("m") },
        checkpoint_kind: CheckpointKind::AiTab,
        transcript: None,
        repo_working_dir: repo_working_dir.map(text),
        edited_filepaths: None,
        will_edit_filepaths: None,
    }
}

/// Where the host answers with an error.
#[derive(Default)]
struct Faults {
    repository: bool,
    user_name: Option<&'static str>,
    stdin: Option<&'static str>,
    hook: bool,
    last: bool,
    incremental: Option<bool>,
    terminal: bool,
}

/// Runs the program; gives its end and what it wrote and asked for besides git.
fn run(args: &[&str], faults: Faults) -> (Result<(), Stop>, Vec<String>) {
    let args: Vec<String> = args.iter().map(|a| text(a)).collect();
    let error = || GitAiError::Generic(text("broken"));
    let end = |faulty: bool| Reply::Done(if faulty { Err(error()) } else { Ok(()) });
    let mut seen: Vec<String> = Vec::new();
    let mut replies: Vec<Reply> = Vec::new();
    loop {
        let request = match handle_git_ai(&args, "1.2.3", FIRST, &mut Session::new(&replies)) {
            Err(Stop::Pending(request)) => request,
            other => return (other, seen),
        };
        let reply = match &request {
            Request::Git { args, .. } => {
                let command = args.join(" ");
                if command.ends_with("rev-parse --absolute-git-dir") {
                    seen.push(format!("git {}", command));
                    if faults.repository {
                        refused("not a repository")
                    } else {
                        wrote("/work/.git\n")
                    }
                } else if command.ends_with("config --get user.name") {
                    match faults.user_name {
                        Some(name) => wrote(name),
                        None => wrote("Ann\n"),
                    }
                } else if command.ends_with("rev-parse --verify one") {
                    wrote("one\n")
                } else {
                    refused(&command)
                }
            }
            Request::IsDir { .. } => Reply::Flag(true),
            Request::CurrentDir => Reply::Text(Ok(text("/here"))),
            Request::ReadStdin => Reply::Text(match faults.stdin {
                Some(input) => Ok(text(input)),
                None => Err(error()),
            }),
            Request::Clock => Reply::Number(1760000000000000123),
            Request::GitPath => Reply::Text(Ok(text("/usr/bin/git"))),
            Request::RunPreset { preset, hook_input } => {
                seen.push(format!("hook {} {:?}", preset, hook_input));
                Reply::AgentRun(if faults.hook {
                    Err(error())
                } else {
                    Ok(run_of("s", Some("/there")))
                })
            }
            Request::RunCheckpoint {
                git_dir,
                author,
                kind,
                show_working_log,
                reset,
                quiet,
                agent_run,
            } => {
                let id = agent_run.as_ref().map(|r| r.agent_id.id.clone());
                seen.push(format!(
                    "checkpoint {} {} {:?} {} {} {} {:?}",
                    git_dir, author, kind, show_working_log, reset, quiet, id
                ));
                end(faults.last)
            }
            Request::RunStatsDelta { git_dir, json } => {
                seen.push(format!("delta {} {}", git_dir, json));
                end(faults.last)
            }
            Request::InstallHooks { args } => {
                seen.push(format!("hooks {:?}", args));
                end(faults.last)
            }
            Request::SquashAuthorship { args } => {
                seen.push(format!("squash {:?}", args));
                end(false)
            }
            Request::ParseBlameArgs { .. } => match faults.incremental {
                Some(incremental) => Reply::Flag(incremental),
                None => Reply::Done(Err(error())),
            },
            Request::IsTerminal => Reply::Flag(faults.terminal),
            Request::RunBlame { git_dir, args } => {
                seen.push(format!("blame {} {:?}", git_dir, args));
                end(faults.last)
            }
            Request::Stdout { line } => {
                seen.push(format!("out {}", line));
                end(false)
            }
            Request::Stderr { line, cause } => {
                let cause = if cause.is_some() { "!" } else { "" };
                seen.push(format!("err {}{}", line, cause));
                end(false)
            }
            other => panic!("not expected: {:?}", other),
        };
        replies.push(reply);
    }
}

fn code(r: Result<(), Stop>) -> i32 {
    match r {
        Ok(()) => 0,
        Err(Stop::Exit(code)) => code,
        other => panic!("not expected: {:?}", other),
    }
}

#[test]
fn help_lists_the_agents() {
    for args in [&[][..], &["help"][..], &["--help"][..], &["-h"][..]] {
        let (r, seen) = run(args, Faults::default());
        assert!(matches!(r, Err(Stop::Exit(0))));
        assert_eq!(seen.len(), 23);
        assert_eq!(seen[0], "err git-ai - git proxy with AI authorship tracking");
        assert_eq!(
            seen[6],
            "err     Presets: sonnet, cursor, github-copilot, rooode, mock_ai"
        );
        assert_eq!(seen[21], "err   help, -h, --help           Show this help message");
    }
}

#[test]
fn version_and_path_are_printed() {
    for flag in ["version", "--version", "-v"] {
        let (r, seen) = run(&[flag], Faults::default());
        assert!(matches!(r, Err(Stop::Exit(0))));
        assert_eq!(seen, vec!["out 1.2.3"]);
    }
    let (r, seen) = run(&["git-path"], Faults::default());
    assert!(matches!(r, Err(Stop::Exit(0))));
    assert_eq!(seen, vec!["out /usr/bin/git"]);
}

#[test]
fn an_unknown_command_is_named() {
    let (r, seen) = run(&["frobnicate", "x"], Faults::default());
    assert_eq!(code(r), 1);
    assert_eq!(seen, vec!["out Unknown git-ai command: frobnicate"]);
}

#[test]
fn hooks_are_installed() {
    let (r, seen) = run(&["install-hooks", "--all"], Faults::default());
    assert!(r.is_ok());
    assert_eq!(seen, vec!["hooks [\"--all\"]"]);
    let (r, seen) = run(&["install-hooks"], Faults { last: true, ..Faults::default() });
    assert_eq!(code(r), 1);
    assert_eq!(seen, vec!["hooks []", "err Install hooks failed: !"]);
}

#[test]
fn a_squash_gets_its_arguments() {
    let (r, seen) = run(&["squash-authorship", "main", "a", "b"], Faults::default());
    assert!(r.is_ok());
    assert_eq!(seen, vec!["squash [\"main\", \"a\", \"b\"]"]);
}

#[test]
fn a_checkpoint_of_a_human() {
    let (r, seen) = run(&["checkpoint", "--reset", "--show-working-log"], Faults::default());
    assert!(r.is_ok());
    assert_eq!(
        seen,
        vec![
            "git -C /here rev-parse --absolute-git-dir",
            "checkpoint /work/.git Ann Human true true false None"
        ]
    );
}

#[test]
fn a_checkpoint_of_an_agent() {
    let args = ["checkpoint", "cursor", "--hook-input", "{}"];
    let (r, seen) = run(&args, Faults::default());
    assert!(r.is_ok());
    assert_eq!(
        seen,
        vec![
            "hook cursor Some(\"{}\")",
            "git -C /there rev-parse --absolute-git-dir",
            "checkpoint /work/.git Ann AiTab false false false Some(\"s\")"
        ]
    );
    let faults = Faults { hook: true, ..Faults::default() };
    let (r, seen) = run(&["checkpoint", "github-copilot"], faults);
    assert_eq!(code(r), 1);
    assert_eq!(seen[1], "err Github Copilot preset error: !");
    for (name, complaint) in [
        ("sonnet", "err Sonnet preset error: !"),
        ("cursor", "err Error running Cursor preset: !"),
        ("rooode", "err Rooode preset error: !"),
        ("agent-v1", "err Agent V1 preset error: !"),
    ] {
        let faults = Faults { hook: true, ..Faults::default() };
        let (r, seen) = run(&["checkpoint", name], faults);
        assert_eq!(code(r), 1);
        assert_eq!(seen[1], complaint);
    }
}

#[test]
fn some_agents_are_known_anyway() {
    let known: Vec<(String, String, bool)> =
        builtin_presets().into_iter().map(|p| (p.name, p.complaint, p.listed)).collect();
    assert_eq!(
        known,
        vec![
            (text("cursor"), text("Error running Cursor preset: "), true),
            (text("github-copilot"), text("Github Copilot preset error: "), true),
            (text("rooode"), text("Rooode preset error: "), true),
            (text("agent-v1"), text("Agent V1 preset error: "), false),
        ]
    );
    // The one whose name is handed in comes first
    let all = presets_with(FIRST);
    assert_eq!(all.len(), 5);
    assert_eq!((all[0].name.as_str(), all[4].name.as_str()), ("sonnet", "agent-v1"));
    assert_eq!((all[0].complaint.as_str(), all[0].listed), ("Sonnet preset error: ", true));
    assert_eq!(presets_with("")[0].complaint, " preset error: ");
    assert_eq!(presets_with("Éa")[0].complaint, "Éa preset error: ");
}

#[test]
fn a_checkpoint_of_the_mock_agent() {
    let (r, seen) = run(&["checkpoint", "mock_ai"], Faults::default());
    assert!(r.is_ok());
    assert_eq!(
        seen[1],
        "checkpoint /work/.git Ann AiAgent false false false Some(\"ai-thread-1760000000000000123\")"
    );
    let mock = mock_agent_run(0);
    assert_eq!(
        mock.agent_id,
        AgentId { tool: text("mock_ai"), id: text("ai-thread-0"), model: text("unknown") }
    );
    assert!(mock.repo_working_dir.is_none());
}

#[test]
fn hook_input_comes_from_the_arguments_or_standard_input() {
    let args = ["checkpoint", "cursor", "--hook-input", "stdin"];
    let (r, seen) = run(&args, Faults { stdin: Some("{\"a\": 1}"), ..Faults::default() });
    assert!(r.is_ok());
    assert_eq!(seen[0], "hook cursor Some(\"{\\\"a\\\": 1}\")");

    let (r, seen) = run(&args, Faults { stdin: Some(" \n"), ..Faults::default() });
    assert_eq!(code(r), 1);
    assert_eq!(seen, vec!["err No hook input provided (via --hook-input or stdin)."]);

    let (r, seen) = run(&args, Faults::default());
    assert_eq!(code(r), 1);
    assert_eq!(seen, vec!["err Failed to read stdin for hook input: !"]);

    let (r, seen) = run(&["checkpoint", "--hook-input", "  "], Faults::default());
    assert_eq!(code(r), 1);
    assert_eq!(seen, vec!["err Error: --hook-input requires a value"]);

    let (r, seen) = run(&["checkpoint", "--hook-input"], Faults::default());
    assert_eq!(code(r), 1);
    assert_eq!(
        seen,
        vec!["err Error: --hook-input requires a value or 'stdin' to read from stdin"]
    );
}

#[test]
fn a_checkpoint_without_a_name_is_of_someone_unknown() {
    let (r, seen) = run(&["checkpoint"], Faults { user_name: Some(" \n"), ..Faults::default() });
    assert!(r.is_ok());
    assert_eq!(
        seen[1],
        "err Warning: git user.name not configured. Using 'unknown' as author."
    );
    assert_eq!(seen[2], "checkpoint /work/.git unknown Human false false false None");
}

#[test]
fn a_checkpoint_can_fail() {
    let (r, seen) = run(&["checkpoint"], Faults { repository: true, ..Faults::default() });
    assert_eq!(code(r), 1);
    assert_eq!(seen[1], "err Failed to find repository: !");
    let (r, seen) = run(&["checkpoint"], Faults { last: true, ..Faults::default() });
    assert_eq!(code(r), 1);
    assert_eq!(seen[2], "err Checkpoint failed: !");
}

#[test]
fn stats_delta_takes_one_flag() {
    let (r, seen) = run(&["stats-delta"], Faults::default());
    assert!(r.is_ok());
    assert_eq!(seen[1], "delta /work/.git false");
    let (_, seen) = run(&["stats-delta", "--json"], Faults::default());
    assert_eq!(seen[1], "delta /work/.git true");
    let (r, seen) = run(&["stats-delta", "--json", "--yaml"], Faults::default());
    assert_eq!(code(r), 1);
    assert_eq!(seen, vec!["err Unknown stats-delta argument: --yaml"]);
    let (r, seen) = run(&["stats-delta"], Faults { last: true, ..Faults::default() });
    assert_eq!(code(r), 1);
    assert_eq!(seen[2], "err Stats delta failed: !");
}

#[test]
fn blame_needs_a_file() {
    let (r, seen) = run(&["blame"], Faults::default());
    assert_eq!(code(r), 1);
    assert_eq!(seen, vec!["err Error: blame requires a file argument"]);

    let calm = || Faults { incremental: Some(false), ..Faults::default() };
    let (r, seen) = run(&["blame", "a.txt"], calm());
    assert!(r.is_ok());
    assert_eq!(seen[1], "blame /work/.git [\"a.txt\"]");
    let (r, seen) = run(&["blame", "a.txt"], Faults { last: true, ..calm() });
    assert_eq!(code(r), 1);
    assert_eq!(seen[2], "err Blame failed: !");
    let (r, seen) = run(&["blame", "a.txt"], Faults::default());
    assert_eq!(code(r), 1);
    assert_eq!(seen[1], "err Failed to parse blame arguments: !");
}

#[test]
fn an_incremental_blame_is_not_for_terminals() {
    let faults = |terminal: bool| Faults { incremental: Some(true), terminal, ..Faults::default() };
    let (r, seen) = run(&["blame", "--incremental", "a.txt"], faults(true));
    assert_eq!(code(r), 1);
    assert_eq!(
        seen[1],
        "err Error: incremental mode is not supported in interactive terminal"
    );
    assert!(run(&["blame", "--incremental", "a.txt"], faults(false)).0.is_ok());
}

#[test]
fn stats_reads_its_arguments() {
    let (r, seen) = run(&["stats", "nothing"], Faults::default());
    assert_eq!(code(r), 1);
    assert_eq!(seen[1], "err No commit found: nothing");

    let (r, seen) = run(&["stats", "one", "two"], Faults::default());
    assert_eq!(code(r), 1);
    assert_eq!(seen[1], "err Unknown stats argument: two");

    let (r, seen) = run(&["stats", "a..b..c"], Faults::default());
    assert_eq!(code(r), 1);
    assert_eq!(seen[1], "err Invalid commit range format. Expected: <commit>..<commit>");

    let (r, seen) = run(&["stats", "a..b"], Faults::default());
    assert_eq!(code(r), 1);
    assert_eq!(seen[1], "err Failed to create commit range: !");

    let (r, seen) = run(&["stats"], Faults::default());
    assert_eq!(code(r), 1);
    assert_eq!(seen[1], "err Stats failed: !");

    let (r, seen) = run(&["stats"], Faults { repository: true, ..Faults::default() });
    assert_eq!(code(r), 1);
    assert_eq!(seen[1], "err Failed to find repository: !");
}
