//! Statistics of commits: what is counted and how it is shown.
use git_ai::authorship::authorship_log::{
    AttestationEntry, AuthorshipLog, FileAttestation, LineRange, PromptRecord,
};
use git_ai::authorship::stats::{
    analyze_authorship_log, calculate_waiting_time, can_count, combine_stats, count_lines,
    get_git_diff_stats, numstat_totals, pause_of, stats_command, stats_for_commit_stats,
    waiting_fits, write_stats_to_markdown, write_stats_to_terminal, CommitStats,
};
use git_ai::authorship::transcript::{AiTranscript, Message, MessageUsage};
use git_ai::authorship::working_log::AgentId;
use git_ai::error::GitAiError;
use git_ai::git::repository::find_repository_in_path;
use git_ai::session::{Reply, Request, Session, Stop};

/// Runs a program to its end, with answers from `host`.
fn drive<T>(
    host: &mut dyn FnMut(&Request) -> Reply,
    program: &dyn Fn(&mut Session) -> Result<T, Stop>,
) -> Result<T, Stop> {
    let mut replies: Vec<Reply> = Vec::new();
    loop {
        let request = match program(&mut Session::new(&replies)) {
            Err(Stop::Pending(request)) => request,
            other => return other,
        };
        replies.push(host(&request));
    }
}

fn wrote(text: &str) -> Reply {
    Reply::Exit {
        success: true,
        code: Some(0),
        stdout: text.as_bytes().to_vec(),
        stderr: Vec::new(),
    }
}

fn refused(code: i32, text: &str) -> Reply {
    Reply::Exit {
        success: false,
        code: Some(code),
        stdout: Vec::new(),
        stderr: text.as_bytes().to_vec(),
    }
}

/// The arguments of a git command behind those that say where the repository is.
fn command(args: &[String]) -> String {
    let start = args.iter().position(|a| a == "--no-pager").map_or(0, |i| i + 1);
    args[start..].join(" ").replace("-C /work ", "")
}

fn agent(id: &str, tool: &str, model: &str) -> AgentId {
    AgentId { tool: tool.to_string(), id: id.to_string(), model: model.to_string() }
}

fn prompt(agent_id: AgentId, messages: Vec<Message>, overriden_lines: u32) -> PromptRecord {
    PromptRecord {
        agent_id,
        messages,
        total_additions: 0,
        total_deletions: 0,
        accepted_lines: 0,
        overriden_lines,
        rest: String::new(),
    }
}

fn log_of(file: &str, hash: &str, ranges: Vec<LineRange>, record: PromptRecord) -> AuthorshipLog {
    let mut log = AuthorshipLog::new();
    log.attestations.push(FileAttestation {
        file_path: file.to_string(),
        entries: vec![AttestationEntry { hash: hash.to_string(), line_ranges: ranges }],
    });
    log.metadata.prompts.push((hash.to_string(), record));
    log
}

/// A commit whose `git show --numstat` and authorship log are these.
fn stats_with(numstat: &str, log: Option<AuthorshipLog>) -> CommitStats {
    let mut host = |request: &Request| match request {
        Request::Git { args, .. } => match command(args).as_str() {
            "rev-parse --absolute-git-dir" => wrote("/work/.git\n"),
            "show --numstat --format= c0ffee" => wrote(numstat),
            other => refused(1, other),
        },
        Request::IsDir { .. } => Reply::Flag(true),
        Request::FindLog { commit } => {
            assert_eq!(commit, "c0ffee");
            Reply::MaybeLog(log.clone())
        }
        other => panic!("not expected: {:?}", other),
    };
    drive(&mut host, &|session| {
        let repo = find_repository_in_path("/work", session)?;
        stats_for_commit_stats(&repo, "c0ffee", "HEAD", session)
    })
    .unwrap()
}

#[test]
fn test_stats_for_simple_ai_commit() {
    // "Line1\n" by a human, then "Line 2\nLine 3\n" by an AI
    let session = prompt(agent("agent", "cursor", "sonnet-3"), Vec::new(), 0);
    let log = log_of("test.txt", "c1a4de", vec![LineRange::Range(2, 3)], session);
    let stats = stats_with("2\t0\ttest.txt\n", Some(log));

    assert_eq!(stats.human_additions, 0, "No human additions in AI-only commit");
    assert_eq!(stats.ai_additions, 2, "AI added 2 lines");
    assert_eq!(stats.ai_accepted, 2, "AI lines were accepted");
    assert_eq!(stats.git_diff_added_lines, 2, "Git diff shows 2 added lines");
    assert_eq!(stats.git_diff_deleted_lines, 0, "Git diff shows 0 deleted lines");
    assert_eq!(stats.time_waiting_for_ai, 0, "No waiting time recorded (no timestamps in test)");
}

#[test]
fn test_stats_for_mixed_commit() {
    // "Base line\n", then "AI line 1\nAI line 2\n" by an AI and "Human line 1\nHuman line 2\n"
    let session = prompt(agent("agent", "cursor", "sonnet-3"), Vec::new(), 0);
    let log = log_of("test.txt", "c1a4de", vec![LineRange::Range(2, 3)], session);
    let stats = stats_with("4\t0\ttest.txt\n", Some(log));

    assert_eq!(stats.human_additions, 2, "Human added 2 lines");
    assert_eq!(stats.ai_additions, 2, "AI added 2 lines");
    assert_eq!(stats.ai_accepted, 2, "AI lines were accepted");
    assert_eq!(stats.git_diff_added_lines, 4, "Git diff shows 4 added lines total");
    assert_eq!(stats.git_diff_deleted_lines, 0, "Git diff shows 0 deleted lines");
}

#[test]
fn test_stats_for_initial_commit() {
    // "Line1\nLine2\nLine3\n" by a human
    let stats = stats_with("3\t0\ttest.txt\n", Some(AuthorshipLog::new()));

    assert_eq!(stats.human_additions, 3, "Human authored 3 lines in initial commit");
    assert_eq!(stats.ai_additions, 0, "No AI additions in initial commit");
    assert_eq!(stats.ai_accepted, 0, "No AI lines to accept");
    assert_eq!(stats.git_diff_added_lines, 3, "Git diff shows 3 added lines (initial commit)");
    assert_eq!(stats.git_diff_deleted_lines, 0, "Git diff shows 0 deleted lines");
}

#[test]
fn a_commit_without_a_log_is_human() {
    let stats = stats_with("3\t1\ttest.txt\n-\t-\tpicture.png\n\n7\t2\tb.txt\n", None);
    assert_eq!(
        stats,
        CommitStats {
            human_additions: 10,
            git_diff_added_lines: 10,
            git_diff_deleted_lines: 3,
            ..none()
        }
    );
}

fn none() -> CommitStats {
    CommitStats {
        human_additions: 0,
        mixed_additions: 0,
        ai_additions: 0,
        ai_accepted: 0,
        time_waiting_for_ai: 0,
        ai_input_tokens: 0,
        ai_output_tokens: 0,
        ai_cache_read_input_tokens: 0,
        ai_cache_creation_input_tokens: 0,
        git_diff_deleted_lines: 0,
        git_diff_added_lines: 0,
    }
}

fn mixed() -> CommitStats {
    CommitStats {
        human_additions: 50,
        mixed_additions: 40,
        ai_additions: 100,
        ai_accepted: 25,
        time_waiting_for_ai: 72009,
        git_diff_deleted_lines: 15,
        git_diff_added_lines: 80,
        ..none()
    }
}

fn ai_only() -> CommitStats {
    CommitStats {
        human_additions: 0,
        mixed_additions: 0,
        ai_additions: 100,
        ai_accepted: 95,
        time_waiting_for_ai: 45,
        git_diff_deleted_lines: 0,
        git_diff_added_lines: 100,
        ..none()
    }
}

fn human_only() -> CommitStats {
    CommitStats {
        human_additions: 75,
        mixed_additions: 0,
        ai_additions: 0,
        ai_accepted: 0,
        time_waiting_for_ai: 0,
        git_diff_deleted_lines: 10,
        git_diff_added_lines: 75,
        ..none()
    }
}

fn minimal_human() -> CommitStats {
    CommitStats {
        human_additions: 2,
        mixed_additions: 0,
        ai_additions: 100,
        ai_accepted: 95,
        time_waiting_for_ai: 30,
        git_diff_deleted_lines: 0,
        git_diff_added_lines: 102,
        ..none()
    }
}

fn deletion_only() -> CommitStats {
    CommitStats {
        git_diff_deleted_lines: 25,
        git_diff_added_lines: 0,
        ..none()
    }
}

/// What is shown, and what was printed on the way.
fn shown(stats: &CommitStats, print: bool) -> (String, Vec<String>) {
    let mut printed: Vec<String> = Vec::new();
    let mut host = |request: &Request| match request {
        Request::Stdout { line } => {
            printed.push(line.clone());
            Reply::Done(Ok(()))
        }
        other => panic!("not expected: {:?}", other),
    };
    let text = drive(&mut host, &|session| write_stats_to_terminal(stats, print, session)).unwrap();
    (text, printed)
}

fn bar(human: usize, mixed: usize, ai: usize) -> String {
    "█".repeat(human) + &"▒".repeat(mixed) + &"░".repeat(ai)
}

#[test]
fn test_terminal_stats_display() {
    // Test with mixed human/AI stats
    let (mixed_output, printed) = shown(&mixed(), true);
    assert_eq!(
        mixed_output,
        format!(
            "you  {} ai\n     7%             mixed  27%             67%\n     \x1b[90m25% AI code accepted | waited 1200m for ai\x1b[0m\n",
            bar(2, 10, 28)
        )
    );
    assert_eq!(printed.join("\n") + "\n", mixed_output);

    // Test with AI-only stats
    let (ai_only_output, _) = shown(&ai_only(), true);
    assert_eq!(
        ai_only_output,
        format!(
            "you  {} ai\n     0%{}100%\n     \x1b[90m95% AI code accepted | waited 45s for ai\x1b[0m\n",
            bar(0, 0, 40),
            " ".repeat(34)
        )
    );

    // Test with human-only stats
    let (human_only_output, _) = shown(&human_only(), true);
    assert_eq!(
        human_only_output,
        format!("you  {} ai\n     100%{}0%\n", bar(40, 0, 0), " ".repeat(35))
    );

    // Test with minimal human contribution (should get at least 2 blocks)
    let (minimal_human_output, _) = shown(&minimal_human(), true);
    assert_eq!(
        minimal_human_output,
        format!(
            "you  {} ai\n     2%{}98%\n     \x1b[90m95% AI code accepted | waited 30s for ai\x1b[0m\n",
            bar(2, 0, 38),
            " ".repeat(35)
        )
    );

    // Test with deletion-only commit (no additions)
    let (deletion_only_output, _) = shown(&deletion_only(), true);
    assert_eq!(
        deletion_only_output,
        format!(
            "you  \x1b[90m{}\x1b[0m ai\n     \x1b[90m{}(no additions){}\x1b[0m\n",
            " ".repeat(40),
            " ".repeat(13),
            " ".repeat(13)
        )
    );
}

#[test]
fn test_markdown_stats_display() {
    let space = |n: usize| "&nbsp;".repeat(n);
    // Test with mixed human/AI stats
    assert_eq!(
        write_stats_to_markdown(&mixed()),
        format!(
            "you&nbsp;&nbsp;{}&nbsp;ai\n{}7%{}mixed&nbsp;27%{}67%\n",
            bar(2, 10, 28),
            space(6),
            space(40),
            space(40)
        )
    );

    // Test with AI-only stats
    assert_eq!(
        write_stats_to_markdown(&ai_only()),
        format!(
            "you&nbsp;&nbsp;{}&nbsp;ai\n{}0%{}100%\n",
            bar(0, 0, 40),
            space(6),
            space(105)
        )
    );

    // Test with human-only stats
    assert_eq!(
        write_stats_to_markdown(&human_only()),
        format!(
            "you&nbsp;&nbsp;{}&nbsp;ai\n{}100%{}0%\n",
            bar(40, 0, 0),
            space(6),
            space(105)
        )
    );

    // Test with minimal human contribution (should get at least 2 blocks)
    assert_eq!(
        write_stats_to_markdown(&minimal_human()),
        format!(
            "you&nbsp;&nbsp;{}&nbsp;ai\n{}2%{}98%\n",
            bar(2, 0, 38),
            space(6),
            space(105)
        )
    );

    // Test with deletion-only commit (no additions)
    assert_eq!(
        write_stats_to_markdown(&deletion_only()),
        format!(
            "you&nbsp;&nbsp;{}&nbsp;ai\n{}{}(no additions){}\n",
            space(40),
            space(6),
            " ".repeat(13),
            " ".repeat(13)
        )
    );
}

#[test]
fn nothing_is_printed_unless_asked_for() {
    let (text, printed) = shown(&mixed(), false);
    assert_eq!(text, shown(&mixed(), true).0);
    assert!(printed.is_empty());
}

#[test]
fn tokens_are_shown_with_the_cache() {
    let stats = CommitStats {
        ai_additions: 3,
        ai_accepted: 2,
        ai_input_tokens: 1000,
        ai_output_tokens: 234,
        git_diff_added_lines: 3,
        ..none()
    };
    assert!(shown(&stats, false).0.ends_with("67% AI code accepted | 1234 tokens\x1b[0m\n"));
    let stats = CommitStats { ai_cache_read_input_tokens: 5, ..stats };
    assert!(shown(&stats, false)
        .0
        .ends_with("| 1234 tokens (cache read 5 / cache write 0)\x1b[0m\n"));
}

#[test]
fn sums_that_do_not_fit_abort() {
    let stats = CommitStats {
        human_additions: u32::MAX,
        ai_additions: 1,
        git_diff_added_lines: 1,
        ..none()
    };
    let mut host = |request: &Request| -> Reply { panic!("not expected: {:?}", request) };
    let r = drive(&mut host, &|session| write_stats_to_terminal(&stats, false, session));
    assert!(matches!(r, Err(Stop::Abort(_))));
}

/// The text for the terminal, computed with floating point numbers.
fn with_floats(stats: &CommitStats) -> String {
    let share = |n: u32, d: u32, w: f64| if d > 0 { n as f64 / d as f64 * w } else { 0.0 };
    let total = stats.human_additions + stats.ai_additions;
    let pure = stats.human_additions.saturating_sub(stats.mixed_additions);
    let mut human = share(pure, total, 40.0) as usize;
    if stats.human_additions > 1 {
        human = human.max(2);
    }
    let rest = 40 - human;
    let other = stats.mixed_additions + stats.ai_additions;
    let mixed = share(stats.mixed_additions, other, rest as f64) as usize;
    let percent = |n: u32| share(n, total, 100.0).round() as u32;
    let mut text = format!("you  {} ai\n", bar(human, mixed, rest.saturating_sub(mixed)));
    let left = format!("{}%", percent(pure));
    if percent(stats.mixed_additions) > 0 {
        text += &format!(
            "     {:<3}{:>12}mixed {:>3}%{:>12}{:>3}%\n",
            left,
            "",
            percent(stats.mixed_additions),
            "",
            percent(stats.ai_additions)
        );
    } else {
        text += &format!("     {:<3}{:>33}{:>3}%\n", left, "", percent(stats.ai_additions));
    }
    if stats.ai_additions > 0 {
        let accepted = share(stats.ai_accepted, stats.ai_additions, 100.0).min(100.0);
        text += &format!("     \x1b[90m{:.0}% AI code accepted\x1b[0m\n", accepted);
    }
    text
}

#[test]
fn shares_are_rounded_as_floating_point_numbers_are() {
    let mut seed: u64 = 17;
    let mut next = |most: u32| {
        seed = seed.wrapping_mul(6364136223846793005).wrapping_add(1442695040888963407);
        (seed >> 33) as u32 % most
    };
    for round in 0..4000u32 {
        let most = if round < 3000 { 60 } else { 1 << 20 };
        let stats = CommitStats {
            human_additions: next(most),
            mixed_additions: next(most),
            ai_additions: next(most),
            ai_accepted: next(most),
            git_diff_added_lines: 1,
            ..none()
        };
        assert_eq!(shown(&stats, false).0, with_floats(&stats), "{:?}", stats);
    }
    // One in eight and three in eight lie halfway between two whole percentages
    for (accepted, expected) in [(1, "12%"), (3, "38%"), (5, "62%"), (7, "88%")] {
        let stats = CommitStats {
            ai_additions: 8,
            ai_accepted: accepted,
            git_diff_added_lines: 8,
            ..none()
        };
        assert!(shown(&stats, false).0.contains(expected));
        assert_eq!(shown(&stats, false).0, with_floats(&stats));
    }
}

#[test]
fn accepted_lines_are_never_more_than_all() {
    let stats = CommitStats {
        ai_additions: 3,
        ai_accepted: 7,
        git_diff_added_lines: 3,
        ..none()
    };
    assert!(shown(&stats, false).0.contains("100% AI code accepted"));
}

#[test]
fn the_bar_has_forty_blocks() {
    for human in 0..30u32 {
        let stats = CommitStats {
            human_additions: human,
            mixed_additions: human / 3,
            ai_additions: 7,
            git_diff_added_lines: 1,
            ..none()
        };
        let text = shown(&stats, false).0;
        let count = |c: char| text.chars().filter(|x| *x == c).count();
        assert_eq!(count('█') + count('▒') + count('░'), 40);
        assert!(human <= 1 || count('█') >= 2);
    }
}

#[test]
fn numstat_is_summed_up() {
    assert_eq!(numstat_totals("3\t1\ta\n4\t2\tb\n"), Some((7, 3)));
    assert_eq!(numstat_totals("-\t-\tpicture.png\n\nno tab\n5\t0\tc\n"), Some((5, 0)));
    assert_eq!(numstat_totals("4294967295\t0\ta\n1\t0\tb\n"), None);
}

#[test]
fn git_that_fails_fails_the_statistics() {
    let mut host = |request: &Request| match request {
        Request::Git { args, .. } if command(args).starts_with("show") => {
            refused(128, "bad object c0ffee")
        }
        Request::Git { .. } => wrote("/work/.git\n"),
        _ => Reply::Flag(true),
    };
    let r = drive(&mut host, &|session| {
        let repo = find_repository_in_path("/work", session)?;
        get_git_diff_stats(&repo, "c0ffee", session)
    });
    match r {
        Err(Stop::Fail(GitAiError::GitCliError { code, stderr, args })) => {
            assert_eq!(code, Some(128));
            assert_eq!(stderr, "bad object c0ffee");
            assert_eq!(args.last().unwrap(), "c0ffee");
        }
        other => panic!("not expected: {:?}", other),
    }
}

fn user(at: Option<&str>) -> Message {
    Message::user("question".to_string(), at.map(|t| t.to_string()))
}

fn assistant(at: Option<&str>) -> Message {
    Message::assistant("answer".to_string(), at.map(|t| t.to_string()))
}

fn talk(messages: Vec<Message>) -> AiTranscript {
    AiTranscript { messages }
}

#[test]
fn waiting_is_the_time_from_a_question_to_its_answer() {
    let transcript = talk(vec![
        user(Some("2025-10-07T13:51:13Z")),
        assistant(Some("2025-10-07T13:51:26Z")),
        user(Some("2025-10-07T14:00:00+00:00")),
        assistant(Some("2025-10-07T16:01:00+02:00")),
    ]);
    assert!(waiting_fits(&transcript));
    assert_eq!(calculate_waiting_time(&transcript), 13 + 60);
}

#[test]
fn nothing_is_waited_for_after_the_last_question() {
    let transcript = talk(vec![
        user(Some("2025-10-07T13:51:13Z")),
        assistant(Some("2025-10-07T13:51:26Z")),
        user(Some("2025-10-07T14:00:00Z")),
    ]);
    assert_eq!(calculate_waiting_time(&transcript), 0);
    assert_eq!(calculate_waiting_time(&talk(vec![user(None)])), 0);
    assert_eq!(calculate_waiting_time(&talk(Vec::new())), 0);
}

#[test]
fn times_that_cannot_be_read_count_nothing() {
    let transcript = talk(vec![user(Some("yesterday")), assistant(Some("2025-10-07T13:51:26Z"))]);
    assert_eq!(calculate_waiting_time(&transcript), 0);
    let transcript = talk(vec![user(None), assistant(Some("2025-10-07T13:51:26Z"))]);
    assert_eq!(calculate_waiting_time(&transcript), 0);
    // An answer before the question
    let transcript = talk(vec![
        user(Some("2025-10-07T13:51:26Z")),
        assistant(Some("2025-10-07T13:51:13Z")),
    ]);
    assert_eq!(calculate_waiting_time(&transcript), 0);
    assert_eq!(pause_of(Some(-3)), 0);
    assert_eq!(pause_of(Some(3)), 3);
    assert_eq!(pause_of(None), 0);
}

#[test]
fn lines_of_ranges_are_counted() {
    assert_eq!(count_lines(&vec![LineRange::Single(4), LineRange::Range(6, 9)]), Some(5));
    assert_eq!(count_lines(&Vec::new()), Some(0));
    assert_eq!(count_lines(&vec![LineRange::Range(9, 6)]), None);
    assert_eq!(count_lines(&vec![LineRange::Range(0, u32::MAX)]), None);
}

#[test]
fn a_log_is_tallied() {
    let mut answer = assistant(Some("2025-10-07T13:51:26Z"));
    if let Message::Assistant { usage, .. } = &mut answer {
        *usage = Some(MessageUsage {
            input_tokens: Some(10),
            output_tokens: Some(20),
            cache_creation_input_tokens: None,
            cache_read_input_tokens: Some(7),
        });
    }
    let messages = vec![user(Some("2025-10-07T13:51:13Z")), answer];
    let ranges = vec![LineRange::Range(2, 5), LineRange::Single(9)];
    let log = log_of("a.txt", "abc", ranges, prompt(agent("s", "cursor", "m"), messages, 2));
    assert!(can_count(&log));
    assert_eq!(analyze_authorship_log(&log).unwrap(), (0, 2, 3, 5, 13, 10, 20, 7, 0));

    let stats = combine_stats(9, 1, &Some(log));
    assert_eq!(stats.human_additions, 6);
    assert_eq!(stats.mixed_additions, 2);
    assert_eq!(stats.ai_additions, 3);
    assert_eq!(stats.ai_accepted, stats.mixed_additions + stats.ai_additions);
    assert_eq!(stats.human_additions + stats.ai_additions, stats.git_diff_added_lines);
}

#[test]
fn a_session_counts_once_however_often_it_is_attested() {
    let mut answer = assistant(Some("2025-10-07T13:51:26Z"));
    if let Message::Assistant { usage, .. } = &mut answer {
        *usage = Some(MessageUsage {
            input_tokens: Some(10),
            output_tokens: Some(4),
            cache_creation_input_tokens: Some(3),
            cache_read_input_tokens: Some(2),
        });
    }
    let messages = vec![user(Some("2025-10-07T13:51:13Z")), answer];
    let record = prompt(agent("s", "cursor", "m"), messages.clone(), 0);
    let mut log = log_of("a.rs", "abc", vec![LineRange::Range(1, 2)], record);
    log.attestations.push(FileAttestation {
        file_path: "b.rs".to_string(),
        entries: vec![AttestationEntry {
            hash: "abc".to_string(),
            line_ranges: vec![LineRange::Single(7)],
        }],
    });
    // A session that no entry names counts nothing
    log.metadata
        .prompts
        .push(("other".to_string(), prompt(agent("o", "cursor", "m"), messages, 0)));
    let stats = stats_with("3\t0\ta.rs\n", Some(log));
    assert_eq!((stats.ai_input_tokens, stats.ai_output_tokens), (10, 4));
    assert_eq!(stats.ai_cache_creation_input_tokens, 3);
    assert_eq!(stats.ai_cache_read_input_tokens, 2);
    assert_eq!(stats.time_waiting_for_ai, 13);
    // Lines count entry by entry
    assert_eq!((stats.ai_additions, stats.ai_accepted), (3, 3));
}

/// What the statistics command asks for, in order, apart from what git is asked.
fn command_log(json: bool, commit: Option<&str>) -> (Result<(), Stop>, Vec<String>) {
    let mut seen: Vec<String> = Vec::new();
    let mut host = |request: &Request| match request {
        Request::Git { args, .. } => match command(args).as_str() {
            "rev-parse --absolute-git-dir" => wrote("/work/.git\n"),
            "show --numstat --format= c0ffee" => wrote("3\t0\ta\n"),
            "cat-file -t c0ffee" => wrote("commit\n"),
            "symbolic-ref HEAD" => wrote("refs/heads/main\n"),
            "rev-parse refs/heads/main" => wrote("c0ffee\n"),
            other => refused(1, other),
        },
        Request::IsDir { .. } => Reply::Flag(true),
        Request::FindLog { .. } => Reply::MaybeLog(None),
        Request::Stderr { line, .. } => {
            seen.push(format!("err {}", line));
            Reply::Done(Ok(()))
        }
        Request::Stdout { line } => {
            seen.push(format!("out {}", line));
            Reply::Done(Ok(()))
        }
        Request::StatsJson { stats } => {
            seen.push(format!("json {}", stats.human_additions));
            Reply::Done(Ok(()))
        }
        other => panic!("not expected: {:?}", other),
    };
    let r = drive(&mut host, &|session| {
        let repo = find_repository_in_path("/work", session)?;
        stats_command(&repo, commit, json, session)
    });
    (r, seen)
}

#[test]
fn the_command_shows_json_or_a_bar() {
    let (r, seen) = command_log(true, None);
    assert!(r.is_ok());
    assert_eq!(
        seen,
        vec!["err [DEBUG] Stats command found commit: c0ffee refname: refs/heads/main", "json 3"]
    );
    let (r, seen) = command_log(false, None);
    assert!(r.is_ok());
    assert_eq!(seen[1], format!("out you  {} ai", bar(40, 0, 0)));
}

#[test]
fn an_unknown_commit_is_named() {
    let (r, seen) = command_log(false, Some("nothing"));
    assert!(seen.is_empty());
    match r {
        Err(Stop::Fail(GitAiError::Generic(message))) => {
            assert_eq!(message, "No commit found: nothing")
        }
        other => panic!("not expected: {:?}", other),
    }
}
