//! Authorship of a range of commits.
use git_ai::authorship::authorship_log::{Author, AuthorshipLog, PromptRecord};
use git_ai::authorship::range_authorship::{
    compute_file_blame, count_diff_lines, find_fetch_source, parse_git_diff_for_added_lines,
    print_range_authorship_stats, range_authorship, summarize_authorship,
    try_parse_git_diff_for_added_lines, RangeAuthorshipStats,
};
use git_ai::authorship::working_log::AgentId;
use git_ai::error::GitAiError;
use git_ai::git::records::{BlameHunk, CommitAuthorship};
use git_ai::git::repository::{find_repository, CommitRange};
use git_ai::session::{Reply, Request, Session, Stop};

fn text(s: &str) -> String {
    s.to_string()
}

fn wrote(text: &str) -> Reply {
    Reply::Exit {
        success: true,
        code: Some(0),
        stdout: text.as_bytes().to_vec(),
        stderr: Vec::new(),
    }
}

fn refused(code: i32, text: &str) -> Reply {
    Reply::Exit {
        success: false,
        code: Some(code),
        stdout: Vec::new(),
        stderr: text.as_bytes().to_vec(),
    }
}

fn drive<T>(
    host: &mut dyn FnMut(&Request) -> Reply,
    program: &dyn Fn(&mut Session) -> Result<T, Stop>,
) -> Result<T, Stop> {
    let mut replies: Vec<Reply> = Vec::new();
    loop {
        let request = match program(&mut Session::new(&replies)) {
            Err(Stop::Pending(request)) => request,
            other => return other,
        };
        replies.push(host(&request));
    }
}

const DIFF: &str = "diff --git a/a.txt b/a.txt
index 1111111..2222222 100644
--- a/a.txt
+++ b/a.txt
@@ -1,3 +1,5 @@
 one
+two
+three
 four
-five
+six
\\ No newline at end of file
diff --git a/b.txt b/b.txt
new file mode 100644
--- /dev/null
+++ b/b.txt
@@ -0,0 +1 @@
+alone
";

fn log_commit(sha: &str, author: &str) -> CommitAuthorship {
    CommitAuthorship::Log {
        sha: text(sha),
        git_author: text(author),
        authorship_log: AuthorshipLog::new(),
    }
}

fn bare_commit(sha: &str, author: &str) -> CommitAuthorship {
    CommitAuthorship::NoLog { sha: text(sha), git_author: text(author) }
}

fn prompt() -> PromptRecord {
    PromptRecord {
        agent_id: AgentId { tool: text("cursor"), id: text("s"), model: text("m") },
        messages: Vec::new(),
        total_additions: 0,
        total_deletions: 0,
        accepted_lines: 0,
        overriden_lines: 0,
        rest: String::new(),
    }
}

fn hunk(sha: &str, first: u32, last: u32, orig: u32) -> BlameHunk {
    BlameHunk {
        commit_sha: text(sha),
        range: (first, last),
        orig_range: (orig, orig + (last - first)),
    }
}

#[test]
fn added_lines_are_read_from_a_diff() {
    let added = parse_git_diff_for_added_lines(DIFF).unwrap();
    assert_eq!(added, vec![(text("a.txt"), vec![2, 3, 5]), (text("b.txt"), vec![1])]);
    assert_eq!(count_diff_lines(DIFF), Some((4, 1)));
    assert_eq!(parse_git_diff_for_added_lines("").unwrap(), Vec::new());
}

#[test]
fn lines_that_do_not_follow_are_not_waited_for() {
    // The second header announces two lines, but only one follows before the next file
    let diff = "+++ b/a\n@@ -1 +7,2 @@\n+x\n+++ b/b\n@@ -0,0 +1 @@\n+y\n--- end\n";
    assert_eq!(
        parse_git_diff_for_added_lines(diff).unwrap(),
        vec![(text("a"), vec![7]), (text("b"), vec![1])]
    );
    assert_eq!(count_diff_lines(diff), Some((2, 0)));
}

#[test]
fn the_start_of_a_hunk_follows_its_sign() {
    let starts = |header: &str| {
        let diff = format!("+++ b/a\n{}\n+x\n", header);
        parse_git_diff_for_added_lines(&diff).unwrap()[0].1[0]
    };
    assert_eq!(starts("@@ -1 +5,2 @@"), 5);
    assert_eq!(starts("@@ -1 +5 @@"), 5);
    assert_eq!(starts("@@ -1 +5 @@ fn f(a, b) @@ c"), 5);
    assert_eq!(starts("@@ -1 +5@@"), 5);
    // What is no number leaves the count where it was
    assert_eq!(starts("@@ -1 + 5,2 @@"), 0);
    assert_eq!(starts("@@ -1 +5 6,2 @@"), 0);
    assert_eq!(starts("@@ -1 +5 ,2 @@"), 0);
    assert_eq!(starts("@@ -1 +x @@"), 0);
}

#[test]
fn lines_of_a_hunk_are_no_headers() {
    let diff = "diff --git a/a.txt b/a.txt
--- a/a.txt
+++ b/a.txt
@@ -1,2 +1,4 @@
-- x
--- y
+++ counter
+++ b/other.txt
+@@ -1 +9 @@
+diff --git
@@ -9 +20,2 @@
 kept
+end
diff --git a/b.txt b/b.txt
--- a/b.txt
+++ b/b.txt
@@ -1 +0,0 @@
---
";
    assert_eq!(
        parse_git_diff_for_added_lines(diff).unwrap(),
        vec![(text("a.txt"), vec![1, 2, 3, 4, 21])]
    );
    assert_eq!(count_diff_lines(diff), Some((5, 3)));
}

#[test]
fn a_line_number_that_does_not_fit_cannot_be_read() {
    let diff = "+++ b/a\n@@ -1 +4294967295 @@\n+x\n+y\n";
    assert!(try_parse_git_diff_for_added_lines(diff).is_none());
    // A header whose number does not fit leaves the count where it was
    let diff = "+++ b/a\n@@ -1 +4294967296 @@\n+x\n";
    assert_eq!(try_parse_git_diff_for_added_lines(diff), Some(vec![(text("a"), vec![0])]));
}

#[test]
fn what_is_fetched_follows_from_the_name() {
    let pair = |a: &str, b: &str| (text(a), text(b));
    assert_eq!(
        find_fetch_source("refs/remotes/up/feature/x", "origin"),
        pair("up", "refs/heads/feature/x")
    );
    assert_eq!(find_fetch_source("refs/remotes/up", "origin"), pair("origin", "refs/remotes/up"));
    assert_eq!(find_fetch_source("refs/heads/main", "origin"), pair("origin", "refs/heads/main"));
    assert_eq!(find_fetch_source("up/main", "origin"), pair("up", "refs/heads/main"));
    assert_eq!(find_fetch_source("main", "origin"), pair("origin", "refs/heads/main"));
    assert_eq!(
        find_fetch_source("refs/tags/v1", "origin"),
        pair("origin", "refs/heads/refs/tags/v1")
    );
}

#[test]
fn commits_are_counted_with_and_without_logs() {
    let commits = vec![
        log_commit("aaaaaaaa", "Ann"),
        bare_commit("bbbbbbbb", "Bob"),
        log_commit("cccccccc", "Ann"),
        bare_commit("dddddddd", "Bob"),
    ];
    let stats = summarize_authorship(&commits);
    assert_eq!(stats.total_commits, 4);
    assert_eq!(stats.commits_with_authorship, 2);
    assert_eq!(stats.authors_commiting_authorship, vec!["Ann"]);
    assert_eq!(stats.authors_not_commiting_authorship, vec!["Bob"]);
    assert_eq!(stats.commits_without_authorship, vec!["bbbbbbbb", "dddddddd"]);
    assert_eq!(
        stats.commits_with_authorship + stats.commits_without_authorship.len(),
        stats.total_commits
    );
    assert_eq!(
        stats.commits_without_authorship_with_authors,
        vec![(text("bbbbbbbb"), text("Bob")), (text("dddddddd"), text("Bob"))]
    );
}

#[test]
fn blame_knows_who_wrote_a_line() {
    let commits = vec![log_commit("aaa", "Ann"), bare_commit("bbb", "Bob")];
    let mut host = |request: &Request| match request {
        Request::BlameHunks { file, first: 1, last: u32::MAX, newest } => {
            assert_eq!((file.as_str(), newest.as_str()), ("a.txt", "end"));
            Reply::Hunks(Ok(vec![hunk("aaa", 1, 2, 5), hunk("bbb", 3, 3, 1), hunk("ccc", 4, 4, 1)]))
        }
        // The second of the two lines is an AI's
        Request::LineAttribution { commit, number, .. } => {
            assert_eq!(commit, "aaa");
            let author = Author { username: text("ai"), email: text("") };
            let found = if *number == 6 { Some(prompt()) } else { None };
            Reply::Attribution(Some((author, found)))
        }
        other => panic!("not expected: {:?}", other),
    };
    let blame =
        drive(&mut host, &|session| compute_file_blame("a.txt", "end", &commits, session)).unwrap();
    assert_eq!(blame.get_line_authorship(1), Some((text("aaa"), true)));
    assert_eq!(blame.get_line_authorship(2), Some((text("aaa"), true)));
    assert_eq!(blame.get_line_authorship(3), Some((text("bbb"), false)));
    assert_eq!(blame.get_line_authorship(4), Some((text("ccc"), false)));
    assert_eq!(blame.get_line_authorship(5), None);
    assert_eq!(blame.get_line_authorship(0), None);
}

/// The authorship of `start..end`, with the git commands that were run.
fn range(fetches: bool) -> (Result<RangeAuthorshipStats, Stop>, Vec<String>) {
    range_with(fetches, "up\n")
}

fn range_with(
    fetches: bool,
    remotes: &str,
) -> (Result<RangeAuthorshipStats, Stop>, Vec<String>) {
    let mut commands: Vec<String> = Vec::new();
    let mut host = |request: &Request| match request {
        Request::Git { args, .. } => {
            let start = args.iter().position(|a| a == "--no-pager").map_or(0, |i| i + 1);
            let command = args[start..].join(" ");
            commands.push(command.clone());
            match command.as_str() {
                "rev-parse --absolute-git-dir" => wrote("/work/.git\n"),
                "rev-parse --verify start" => wrote("start\n"),
                "rev-parse --verify end" => wrote("end\n"),
                "for-each-ref --points-at end --format=%(refname)" => wrote("refs/heads/main\n"),
                "cat-file -t start" | "cat-file -t end" => wrote("commit\n"),
                "rev-parse refs/heads/main" | "rev-parse --verify refs/heads/main" => {
                    wrote("end\n")
                }
                "show-ref --verify -s refs/heads/main" => wrote("end\n"),
                "merge-base --is-ancestor start end" => wrote(""),
                "merge-base --is-ancestor start refs/heads/main" => wrote(""),
                "merge-base --is-ancestor end refs/heads/main" => wrote(""),
                "branch --show-current" => wrote("main\n"),
                "config --get branch.main.remote" => wrote("up\n"),
                "remote" => wrote(remotes),
                "fetch up refs/heads/main" | "fetch origin refs/heads/main" => {
                    if fetches {
                        wrote("")
                    } else {
                        refused(1, "no network")
                    }
                }
                "rev-list start..end" => wrote("ccc\nbbb\n"),
                "diff start..end" => wrote(DIFF),
                other => refused(1, other),
            }
        }
        Request::IsDir { .. } => Reply::Flag(true),
        Request::CommitsWithNotes { commits } => {
            assert_eq!(commits, &vec!["ccc", "bbb"]);
            Reply::Commits(Ok(vec![log_commit("ccc", "Ann"), bare_commit("bbb1234567", "Bob")]))
        }
        Request::BlameHunks { file, .. } => Reply::Hunks(Ok(if file == "a.txt" {
            vec![hunk("ccc", 1, 3, 1), hunk("bbb1234567", 4, 5, 4)]
        } else {
            Vec::new()
        })),
        Request::LineAttribution { .. } => {
            let author = Author { username: text("ai"), email: text("") };
            Reply::Attribution(Some((author, Some(prompt()))))
        }
        other => panic!("not expected: {:?}", other),
    };
    let r = drive(&mut host, &|session| {
        let repo = find_repository(&Vec::new(), session)?;
        let range =
            CommitRange::new_infer_refname(&repo, text("start"), text("end"), None, session)?;
        range_authorship(range, true, session)
    });
    (r, commands)
}

#[test]
fn a_range_is_counted_line_by_line() {
    let (r, commands) = range(true);
    let stats = r.unwrap();
    assert_eq!(stats.authorship_stats.total_commits, 2);
    assert_eq!(stats.authorship_stats.commits_with_authorship, 1);
    assert_eq!(stats.range_stats.ai_additions, 2);
    assert_eq!(stats.range_stats.ai_accepted, 2);
    assert_eq!(stats.range_stats.human_additions, 2);
    assert_eq!(stats.range_stats.git_diff_added_lines, 4);
    assert_eq!(stats.range_stats.git_diff_deleted_lines, 1);
    assert!(commands.contains(&text("fetch up refs/heads/main")));

    let mut printed: Vec<String> = Vec::new();
    let mut host = |request: &Request| match request {
        Request::Stdout { line } => {
            printed.push(line.clone());
            Reply::Done(Ok(()))
        }
        other => panic!("not expected: {:?}", other),
    };
    drive(&mut host, &|session| print_range_authorship_stats(&stats, session)).unwrap();
    assert_eq!(printed[0], "\n");
    assert!(printed[1].starts_with("you  "));
    assert!(printed.contains(&text("  1 commit without Authorship Logs")));
    assert_eq!(printed.last().unwrap(), "    bbb1234 Bob");
}

#[test]
fn without_remotes_origin_is_fetched_from() {
    let (r, commands) = range_with(true, "");
    assert!(r.is_ok());
    assert!(commands.contains(&text("fetch origin refs/heads/main")));
}

#[test]
fn a_range_that_cannot_be_fetched_fails() {
    let (r, _) = range(false);
    assert!(matches!(r, Err(Stop::Fail(GitAiError::GitCliError { code: Some(1), .. }))));
}

#[test]
fn without_logs_the_committers_do_not_use_the_program() {
    let (r, _) = range(true);
    let mut stats = r.unwrap();
    stats.authorship_stats.commits_with_authorship = 0;
    let replies = vec![Reply::Done(Ok(())), Reply::Done(Ok(()))];
    let mut session = Session::new(&replies);
    assert!(print_range_authorship_stats(&stats, &mut session).is_ok());
    assert_eq!(session.used(), 2);
    let one = vec![Reply::Done(Ok(()))];
    match print_range_authorship_stats(&stats, &mut Session::new(&one)) {
        Err(Stop::Pending(Request::Stdout { line })) => {
            assert_eq!(line, "Committers are not using git-ai")
        }
        other => panic!("not expected: {:?}", other),
    }
}
