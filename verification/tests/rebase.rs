//! Authorship across amended, squashed, rebased, cherry-picked and reset commits, in a small
//! repository that is held in memory.
use git_ai::authorship::authorship_log::{
    AttestationEntry, Author, AuthorshipLog, FileAttestation, LineRange, PromptRecord,
};
use git_ai::authorship::rebase_authorship::{
    build_commit_path_to_base, capture_working_directory_as_tree, compute_combined_hash,
    copy_authorship_log, join_bytes, prepare_working_log_after_squash,
    reconstruct_working_log_after_reset,
    rewrite_authorship_after_cherry_pick, rewrite_authorship_after_commit_amend,
    rewrite_authorship_after_rebase, rewrite_authorship_after_squash_or_rebase,
    rewrite_authorship_if_needed, walk_commits_to_base,
};
use git_ai::authorship::transcript::AiTranscript;
use git_ai::authorship::working_log::{AgentId, Checkpoint, CheckpointKind, WorkingLogEntry};
use git_ai::error::GitAiError;
use git_ai::git::records::{BlameHunk, Delta};
use git_ai::git::repository::{find_repository_in_path, Repository};
use git_ai::git::rewrite_log::RewriteLogEvent;
use git_ai::session::{Reply, Request, Session, Stop};
use std::collections::BTreeMap;

type Files = BTreeMap<String, String>;

struct Change {
    parent: Option<String>,
    files: Files,
}

/// A repository in memory: commits, the index, notes and working logs.
struct World {
    commits: BTreeMap<String, Change>,
    trees: Vec<Files>,
    blobs: Vec<String>,
    index: Files,
    /// The tracked files, where they differ from HEAD.
    workdir: Option<Files>,
    notes: BTreeMap<String, AuthorshipLog>,
    working: BTreeMap<String, Vec<Checkpoint>>,
    /// What was changed, in order.
    changes: Vec<String>,
    /// What is answered to a request to apply checkpoints.
    applied: AuthorshipLog,
    /// The logs that were handed over to be written, with the commits that they are for.
    serialized: Vec<AuthorshipLog>,
    /// The messages of the commits that were made.
    messages: Vec<String>,
}

fn text(s: &str) -> String {
    s.to_string()
}

fn wrote(text: &str) -> Reply {
    Reply::Exit {
        success: true,
        code: Some(0),
        stdout: text.as_bytes().to_vec(),
        stderr: Vec::new(),
    }
}

fn refused(text: &str) -> Reply {
    Reply::Exit {
        success: false,
        code: Some(128),
        stdout: Vec::new(),
        stderr: text.as_bytes().to_vec(),
    }
}

fn done() -> Reply {
    Reply::Done(Ok(()))
}

fn agent(id: &str, model: &str) -> AgentId {
    AgentId { tool: text("cursor"), id: text(id), model: text(model) }
}

fn record(id: &str, model: &str) -> PromptRecord {
    PromptRecord {
        agent_id: agent(id, model),
        messages: Vec::new(),
        total_additions: 9,
        total_deletions: 4,
        accepted_lines: 0,
        overriden_lines: 0,
        rest: format!("{{\"session\":\"{}\"}}", id),
    }
}

/// A log that says that sessions wrote ranges of lines.
fn log(said: &[(&str, &str, &str, Vec<LineRange>)]) -> AuthorshipLog {
    let mut log = AuthorshipLog::new();
    for (file, session, model, ranges) in said {
        let entry = AttestationEntry { hash: text(session), line_ranges: ranges.clone() };
        match log.attestations.iter_mut().find(|a| a.file_path == *file) {
            Some(attestation) => attestation.entries.push(entry),
            None => log
                .attestations
                .push(FileAttestation { file_path: text(file), entries: vec![entry] }),
        }
        if !log.metadata.prompts.iter().any(|p| p.0 == *session) {
            log.metadata.prompts.push((text(session), record(session, model)));
        }
    }
    log
}

fn holds(range: &LineRange, line: u32) -> bool {
    match range {
        LineRange::Single(n) => *n == line,
        LineRange::Range(a, b) => *a <= line && line <= *b,
    }
}

impl World {
    fn new() -> World {
        World {
            commits: BTreeMap::new(),
            trees: Vec::new(),
            blobs: Vec::new(),
            index: Files::new(),
            workdir: None,
            notes: BTreeMap::new(),
            working: BTreeMap::new(),
            changes: Vec::new(),
            applied: AuthorshipLog::new(),
            serialized: Vec::new(),
            messages: Vec::new(),
        }
    }

    fn write(&mut self, file: &str, content: &str) {
        self.index.insert(text(file), text(content));
    }

    /// The index becomes a commit with this name and this log.
    fn commit(&mut self, sha: &str, parent: Option<&str>, log: AuthorshipLog) {
        let change = Change { parent: parent.map(text), files: self.index.clone() };
        self.commits.insert(text(sha), change);
        self.notes.insert(text(sha), log);
    }

    fn checkout(&mut self, sha: &str) {
        self.index = self.commits[sha].files.clone();
    }

    fn tree(&mut self, files: &Files) -> String {
        let i = match self.trees.iter().position(|t| t == files) {
            Some(i) => i,
            None => {
                self.trees.push(files.clone());
                self.trees.len() - 1
            }
        };
        format!("tree-{}", i)
    }

    fn tree_files(&self, tree: &str) -> Files {
        self.trees[tree["tree-".len()..].parse::<usize>().unwrap()].clone()
    }

    fn line(&self, sha: &str) -> Vec<String> {
        let mut shas = vec![text(sha)];
        while let Some(parent) = &self.commits[shas.last().unwrap()].parent {
            shas.push(parent.clone());
        }
        shas
    }

    fn merge(&mut self, base: &str, ours: &str, theirs: &str) -> String {
        let (base, ours, theirs) = (
            self.commits[base].files.clone(),
            self.commits[ours].files.clone(),
            self.commits[theirs].files.clone(),
        );
        let mut merged = ours.clone();
        for (file, their) in &theirs {
            let was = base.get(file);
            if was == Some(their) {
                continue;
            }
            match (was, ours.get(file)) {
                (Some(was), Some(our)) if our != was => {
                    // What they put in front stays in front
                    let front = their.strip_suffix(was.as_str()).unwrap_or("");
                    merged.insert(file.clone(), format!("{}{}", front, our));
                }
                _ => {
                    merged.insert(file.clone(), their.clone());
                }
            }
        }
        self.tree(&merged)
    }

    /// The commit that brought a line of a file in, and the number that the line has there. No
    /// line of a file in these tests stands in it twice.
    fn blame(&self, file: &str, number: u32, newest: &str) -> BlameHunk {
        let content = &self.commits[newest].files[file];
        let wanted = content.lines().nth(number as usize - 1).unwrap();
        let mut found = (text(newest), number);
        for sha in self.line(newest) {
            let files = &self.commits[&sha].files;
            let there = files.get(file).and_then(|c| c.lines().position(|l| l == wanted));
            match there {
                Some(i) => found = (sha, i as u32 + 1),
                None => break,
            }
        }
        BlameHunk {
            commit_sha: found.0,
            range: (number, number),
            orig_range: (found.1, found.1),
        }
    }

    fn attribution(&self, sha: &str, file: &str, number: u32) -> Reply {
        let log = &self.notes[sha];
        for attestation in log.attestations.iter().filter(|a| a.file_path == file) {
            for entry in &attestation.entries {
                if entry.line_ranges.iter().any(|r| holds(r, number)) {
                    let prompt = log.metadata.prompts.iter().find(|p| p.0 == entry.hash).unwrap();
                    let author = Author { username: text("ai"), email: text("ai@example.com") };
                    return Reply::Attribution(Some((author, Some(prompt.1.clone()))));
                }
            }
        }
        Reply::Attribution(None)
    }

    fn git(&mut self, args: &[String], stdin: &Option<Vec<u8>>) -> Reply {
        let start = args.iter().position(|a| a == "--no-pager").map_or(0, |i| i + 1);
        let words: Vec<&str> = args[start..].iter().map(|a| a.as_str()).collect();
        match words.as_slice() {
            [.., "rev-parse", "--absolute-git-dir"] => wrote("/work/.git\n"),
            ["cat-file", "-t", id] if self.commits.contains_key(*id) => wrote("commit\n"),
            ["cat-file", "-t", id] if id.starts_with("tree-") => wrote("tree\n"),
            ["cat-file", "-t", id] if id.starts_with("blob-") => wrote("blob\n"),
            ["cat-file", "blob", id] => {
                let i = id["blob-".len()..].parse::<usize>().unwrap();
                wrote(&self.blobs[i])
            }
            ["rev-parse", "--verify", revision] => {
                if let Some(sha) = revision.strip_suffix("^{tree}") {
                    let files = self.commits[sha].files.clone();
                    wrote(&(self.tree(&files) + "\n"))
                } else if let Some(sha) = revision.strip_suffix("^1") {
                    match &self.commits[sha].parent {
                        Some(parent) => wrote(&format!("{}\n", parent)),
                        None => refused("no such revision"),
                    }
                } else {
                    wrote(&format!("{}\n", revision))
                }
            }
            ["merge-base", one, two] => {
                let line = self.line(two);
                let common = self.line(one).into_iter().find(|sha| line.contains(sha));
                wrote(&(common.unwrap() + "\n"))
            }
            ["merge-tree", "--write-tree", base, "-X", "ours", ours, theirs] => {
                let base = base.strip_prefix("--merge-base=").unwrap();
                wrote(&(self.merge(base, ours, theirs) + "\n"))
            }
            ["show", "-s", "--no-notes", "--encoding=UTF-8", _, _] => {
                wrote("Test User\ntest@example.com\n2025-10-07T13:51:13+02:00\n")
            }
            ["commit-tree", tree, "-p", parent] => {
                let files = self.tree_files(tree);
                let sha = format!("made-{}", self.messages.len());
                let change = Change { parent: Some(text(parent)), files };
                self.commits.insert(sha.clone(), change);
                self.notes.insert(sha.clone(), AuthorshipLog::new());
                self.messages.push(String::from_utf8(stdin.clone().unwrap()).unwrap());
                wrote(&(sha + "\n"))
            }
            ["ls-tree", "-z", tree, "--", path] => match self.tree_files(tree).get(*path) {
                Some(content) => {
                    self.blobs.push(content.clone());
                    wrote(&format!("100644 blob blob-{}\t{}\0", self.blobs.len() - 1, path))
                }
                None => wrote(""),
            },
            ["stash", "create"] => match self.workdir.clone() {
                Some(files) => {
                    self.commits.insert(text("stash"), Change { parent: None, files });
                    wrote("stash\n")
                }
                None => wrote(""),
            },
            ["write-tree"] => {
                let files = self.index.clone();
                wrote(&(self.tree(&files) + "\n"))
            }
            ["show", version] => {
                let (from, file) = version.split_once(':').unwrap();
                let files = if from.is_empty() { &self.index } else { &self.commits[from].files };
                match files.get(file) {
                    Some(content) => wrote(content),
                    None => refused("no such file"),
                }
            }
            other => refused(&other.join(" ")),
        }
    }

    /// The checkpoints that a log amounts to: one for each session and file, behind one for the
    /// human.
    fn checkpoints(log: &AuthorshipLog) -> Vec<Checkpoint> {
        let mut all = vec![Checkpoint {
            kind: CheckpointKind::Human,
            author: text("human"),
            agent_id: None,
            transcript: None,
            entries: Vec::new(),
            diff: String::new(),
            rest: String::new(),
        }];
        for attestation in &log.attestations {
            for entry in &attestation.entries {
                let prompt = log.metadata.prompts.iter().find(|p| p.0 == entry.hash).unwrap();
                let file = attestation.file_path.clone();
                all.push(Checkpoint {
                    kind: CheckpointKind::AiAgent,
                    author: text("ai"),
                    agent_id: Some(prompt.1.agent_id.clone()),
                    transcript: Some(AiTranscript { messages: Vec::new() }),
                    entries: vec![WorkingLogEntry {
                        file,
                        blob_sha: String::new(),
                        rest: format!("{} ranges", entry.line_ranges.len()),
                    }],
                    diff: String::new(),
                    rest: text("noon"),
                });
            }
        }
        all
    }

    fn answer(&mut self, request: &Request) -> Reply {
        match request {
            Request::Git { args, stdin, .. } => self.git(args, stdin),
            Request::GitBeside { git_dir, args } => {
                assert_eq!(git_dir, "/work/.git");
                self.changes.push(format!("let go {}", args[2]));
                wrote("")
            }
            Request::IsDir { .. } => Reply::Flag(true),
            Request::DiffTrees { old_tree, new_tree } => {
                let (old, new) = (self.tree_files(old_tree), self.tree_files(new_tree));
                let mut paths: Vec<&String> = old.keys().chain(new.keys()).collect();
                paths.sort();
                paths.dedup();
                let deltas = paths.into_iter().filter(|p| old.get(*p) != new.get(*p));
                Reply::Deltas(Ok(deltas
                    .map(|p| Delta {
                        old_path: old.get(p).map(|_| p.clone()),
                        new_path: new.get(p).map(|_| p.clone()),
                    })
                    .collect()))
            }
            Request::BlameHunks { file, first, last, newest } => {
                assert_eq!(first, last);
                Reply::Hunks(Ok(vec![self.blame(file, *first, newest)]))
            }
            Request::FetchLog { .. } => done(),
            Request::LineAttribution { commit, file, number } => {
                self.attribution(commit, file, *number)
            }
            Request::CheckpointsForSquash { log, .. } => {
                Reply::Checkpoints(Ok(World::checkpoints(log)))
            }
            Request::PersistFile { base, content } => {
                Reply::Text(Ok(format!("kept-{}-{}", base, content.len())))
            }
            Request::ReadLog { commit } => Reply::Log(match self.notes.get(commit) {
                Some(log) => Ok(log.clone()),
                None => Err(GitAiError::Generic(text("no note"))),
            }),
            Request::ReadCheckpoints { base } => Reply::Checkpoints(match self.working.get(base) {
                Some(checkpoints) => Ok(checkpoints.clone()),
                None => Err(GitAiError::Generic(text("no working log"))),
            }),
            Request::ApplyCheckpoints { author, .. } => {
                assert_eq!(author, "Test User <test@example.com>");
                Reply::Log(Ok(self.applied.clone()))
            }
            Request::SerializeLog { log } => {
                self.serialized.push(log.clone());
                Reply::Text(Ok(format!("log {}", self.serialized.len() - 1)))
            }
            Request::AddNote { commit, text } => {
                let log = self.serialized[text["log ".len()..].parse::<usize>().unwrap()].clone();
                assert_eq!(log.metadata.base_commit_sha, *commit);
                self.notes.insert(commit.clone(), log);
                self.changes.push(format!("note {}", commit));
                done()
            }
            Request::ResetWorkingLog { base } => {
                self.working.insert(base.clone(), Vec::new());
                self.changes.push(format!("reset {}", base));
                done()
            }
            Request::DeleteWorkingLog { base } => {
                self.working.remove(base);
                self.changes.push(format!("delete {}", base));
                done()
            }
            Request::AppendCheckpoint { base, checkpoint } => {
                self.working.entry(base.clone()).or_default().push(checkpoint.clone());
                self.changes.push(format!("append {}", base));
                done()
            }
            Request::Stdout { line } => {
                self.changes.push(format!("say {}", line));
                done()
            }
            Request::ShowLog { log } => {
                self.changes.push(format!("show {}", log.attestations.len()));
                done()
            }
            Request::PostCommit { parent, commit, author, quiet } => {
                let line = format!("post {:?} {} {} {}", parent, commit, author, quiet);
                self.changes.push(line);
                done()
            }
            other => panic!("not expected: {:?}", other),
        }
    }

    /// Runs a program to its end.
    fn drive<T>(
        &mut self,
        program: &dyn Fn(&Repository, &mut Session) -> Result<T, Stop>,
    ) -> Result<T, Stop> {
        let mut replies: Vec<Reply> = Vec::new();
        loop {
            let mut session = Session::new(&replies);
            let result = match find_repository_in_path("/work", &mut session) {
                Ok(repo) => program(&repo, &mut session),
                Err(stop) => Err(stop),
            };
            match result {
                Err(Stop::Pending(request)) => {
                    let reply = self.answer(&request);
                    replies.push(reply);
                }
                other => return other,
            }
        }
    }
}

const USER: &str = "Test User <test@example.com>";

fn working_checkpoint(id: &str) -> Checkpoint {
    Checkpoint {
        kind: CheckpointKind::AiAgent,
        author: text("ai"),
        agent_id: Some(agent(id, "gpt-4")),
        transcript: None,
        entries: Vec::new(),
        diff: String::new(),
        rest: String::new(),
    }
}

/// Amends `original`, where applying the working log of these sessions to its log gives `applied`.
fn amend(before: AuthorshipLog, sessions: &[&str], applied: AuthorshipLog) -> AuthorshipLog {
    let mut world = World::new();
    world.commit("original", None, before);
    let checkpoints = sessions.iter().map(|s| working_checkpoint(s)).collect();
    world.working.insert(text("original"), checkpoints);
    world.applied = applied;
    let mut log = world
        .drive(&|repo, session| {
            rewrite_authorship_after_commit_amend(
                repo,
                "original",
                "amended",
                text(USER),
                session,
            )
        })
        .unwrap();
    assert_eq!(world.changes, vec!["note amended", "delete original"]);
    assert_eq!(world.notes["amended"], log);
    assert_eq!(log.metadata.base_commit_sha, "amended");
    log.metadata.base_commit_sha = text("");
    log
}

#[test]
fn test_amend_add_lines_at_top() {
    // "// AI added line 1\n// AI added line 2\n" in front of "line 1\n" to "line 5\n"
    let applied = log(&[("test.txt", "ai_agent", "gpt-4", vec![LineRange::Range(1, 2)])]);
    assert_eq!(amend(AuthorshipLog::new(), &["ai_agent"], applied.clone()), applied);
}

#[test]
fn test_amend_add_lines_in_middle() {
    // "// AI inserted line 1\n// AI inserted line 2\n" behind "line 1\nline 2\n"
    let applied = log(&[("test.txt", "ai_agent", "gpt-4", vec![LineRange::Range(3, 4)])]);
    assert_eq!(amend(AuthorshipLog::new(), &["ai_agent"], applied.clone()), applied);
}

#[test]
fn test_amend_add_lines_at_bottom() {
    // "// AI appended line 1\n// AI appended line 2\n" behind "line 1\n" to "line 5\n"
    let applied = log(&[("test.txt", "ai_agent", "gpt-4", vec![LineRange::Range(6, 7)])]);
    assert_eq!(amend(AuthorshipLog::new(), &["ai_agent"], applied.clone()), applied);
}

#[test]
fn test_amend_multiple_changes() {
    // "function example() {\n  return 42;\n}\n", then a header, a comment and a footer
    let before = log(&[("code.js", "ai_agent_1", "gpt-4", vec![LineRange::Range(1, 3)])]);
    let applied = log(&[
        ("code.js", "ai_agent_1", "gpt-4", vec![LineRange::Single(2), LineRange::Range(4, 5)]),
        ("code.js", "ai_agent_2", "gpt-4", vec![LineRange::Single(1)]),
        ("code.js", "ai_agent_3", "gpt-4", vec![LineRange::Single(3)]),
        ("code.js", "ai_agent_4", "gpt-4", vec![LineRange::Range(6, 7)]),
    ]);
    let sessions = ["ai_agent_2", "ai_agent_3", "ai_agent_4"];
    assert_eq!(amend(before, &sessions, applied.clone()), applied);
}

#[test]
fn without_a_working_log_an_amended_commit_keeps_its_log() {
    let mut world = World::new();
    let before = log(&[("a.txt", "s", "m", vec![LineRange::Single(1)])]);
    world.commit("original", None, before.clone());
    let mut amended = world
        .drive(&|repo, session| {
            rewrite_authorship_after_commit_amend(
                repo,
                "original",
                "amended",
                text(USER),
                session,
            )
        })
        .unwrap();
    assert!(world.changes.is_empty());
    assert_eq!(amended.metadata.base_commit_sha, "amended");
    amended.metadata.base_commit_sha = text("");
    assert_eq!(amended, before);
}

fn prepare(world: &mut World, source: &str, target: &str) -> Vec<Checkpoint> {
    let checkpoints = world
        .drive(&|repo, session| {
            prepare_working_log_after_squash(repo, source, target, USER, session)
        })
        .unwrap();
    // Preparing changes no note and no working log
    assert!(world.changes.iter().all(|c| c.starts_with("let go refs/heads/temp-")));
    checkpoints
}

/// Test merge --squash with a simple feature branch containing AI and human edits
#[test]
fn test_prepare_working_log_simple_squash() {
    let mut world = World::new();
    // Create master branch with initial content
    world.write("main.txt", "line 1\nline 2\nline 3\n");
    world.commit("master", None, AuthorshipLog::new());
    // Add AI changes on feature branch
    world.write("main.txt", "line 1\nline 2\nline 3\n// AI added feature\n");
    let said = log(&[("main.txt", "ai_agent", "gpt-4", vec![LineRange::Single(4)])]);
    world.commit("feature1", Some("master"), said);
    // Add human changes on feature branch
    world.write("main.txt", "line 1\nline 2\nline 3\n// AI added feature\n// Human refinement\n");
    world.commit("feature2", Some("feature1"), AuthorshipLog::new());

    // The index holds what the squash put there
    let checkpoints = prepare(&mut world, "feature2", "master");

    // Should have 1 checkpoint: 1 AI only (no human checkpoint)
    assert_eq!(checkpoints.len(), 1);
    // Checkpoint should be AI
    assert_eq!(checkpoints[0].author, "ai");
    assert!(checkpoints[0].agent_id.is_some());
    assert!(checkpoints[0].transcript.is_some());
    // Verify checkpoint has entries
    assert!(!checkpoints[0].entries.is_empty());
    // Verify blob is saved
    assert!(!checkpoints[0].entries[0].blob_sha.is_empty());
    assert_eq!(checkpoints[0].entries[0].blob_sha, "kept-master-61");
    assert_eq!(
        world.messages,
        vec![
            "Merge diff from master to master onto feature2",
            "Temporary commit for squash authorship reconstruction"
        ]
    );
}

/// Test merge --squash with out-of-band changes on master (handles 3-way merge)
/// This tests the scenario where commits are made on master AFTER the feature branch diverges
#[test]
fn test_prepare_working_log_squash_with_main_changes() {
    let mut world = World::new();
    world.write("document.txt", "section 1\nsection 2\nsection 3\n");
    world.commit("base", None, AuthorshipLog::new());
    // AI adds content at the END (non-conflicting with master changes)
    world.write(
        "document.txt",
        "section 1\nsection 2\nsection 3\n// AI feature addition at end\n",
    );
    let said = log(&[("document.txt", "ai_agent", "gpt-4", vec![LineRange::Single(4)])]);
    world.commit("feature", Some("base"), said);
    // Switch back to master and make out-of-band changes
    world.write("document.txt", "// Master update at top\nsection 1\nsection 2\nsection 3\n");
    world.commit("master", Some("base"), AuthorshipLog::new());
    // The squashed result has BOTH changes
    world.write(
        "document.txt",
        "// Master update at top\nsection 1\nsection 2\nsection 3\n// AI feature addition at end\n",
    );

    let checkpoints = prepare(&mut world, "feature", "master");

    // Should have at least some checkpoints
    assert!(
        !checkpoints.is_empty(),
        "Should generate at least one checkpoint from squash merge"
    );
    // Verify at least one checkpoint has content
    let has_content = checkpoints.iter().any(|c| !c.entries.is_empty());
    assert!(has_content, "At least one checkpoint should have entries");
}

/// Test merge --squash with multiple AI sessions and human edits
#[test]
fn test_prepare_working_log_squash_multiple_sessions() {
    let mut world = World::new();
    world.write("file.txt", "header\nbody\nfooter\n");
    world.commit("master", None, AuthorshipLog::new());
    // First AI session
    world.write("file.txt", "header\n// AI session 1\nbody\nfooter\n");
    let said = log(&[("file.txt", "ai_session_1", "gpt-4", vec![LineRange::Single(2)])]);
    world.commit("feature1", Some("master"), said);
    // Human edit
    world.write("file.txt", "header\n// AI session 1\nbody\n// Human addition\nfooter\n");
    world.commit("feature2", Some("feature1"), AuthorshipLog::new());
    // Second AI session
    world.write(
        "file.txt",
        "header\n// AI session 1\nbody\n// Human addition\nfooter\n// AI session 2\n",
    );
    let said = log(&[("file.txt", "ai_session_2", "sonnet", vec![LineRange::Single(6)])]);
    world.commit("feature3", Some("feature2"), said);

    let checkpoints = prepare(&mut world, "feature3", "master");

    // Should have 2 checkpoints: 2 AI sessions (no human checkpoint)
    assert_eq!(checkpoints.len(), 2);
    // All checkpoints should be AI
    let ai_checkpoints: Vec<_> = checkpoints.iter().filter(|c| c.agent_id.is_some()).collect();
    assert_eq!(ai_checkpoints.len(), 2);
    // No human checkpoints
    let human_checkpoints: Vec<_> = checkpoints.iter().filter(|c| c.agent_id.is_none()).collect();
    assert_eq!(human_checkpoints.len(), 0);
    // Verify AI checkpoints have distinct session IDs
    assert_ne!(
        ai_checkpoints[0].agent_id.as_ref().unwrap().id,
        ai_checkpoints[1].agent_id.as_ref().unwrap().id
    );
}

/// Test merge --squash with multiple files modified by different AI sessions
#[test]
fn test_prepare_working_log_squash_multiple_files() {
    let mut world = World::new();
    // Create master branch with multiple files
    world.write("src/main.rs", "fn main() {\n    println!(\"Hello\");\n}\n");
    world.write("src/lib.rs", "pub fn add(a: i32, b: i32) -> i32 {\n    a + b\n}\n");
    world.write("README.md", "# My Project\n\nA simple project.\n");
    world.commit("master", None, AuthorshipLog::new());
    // First AI session modifies main.rs and lib.rs
    world.write(
        "src/main.rs",
        "fn main() {\n    println!(\"Hello\");\n    // AI: Added logging\n    log::info!(\"Started\");\n}\n",
    );
    world.write(
        "src/lib.rs",
        "pub fn add(a: i32, b: i32) -> i32 {\n    // AI: Added validation\n    a + b\n}\n",
    );
    let said = log(&[
        ("src/main.rs", "ai_session_1", "gpt-4", vec![LineRange::Range(3, 4)]),
        ("src/lib.rs", "ai_session_1", "gpt-4", vec![LineRange::Single(2)]),
    ]);
    world.commit("feature1", Some("master"), said);
    // Second AI session modifies README.md only
    world.write(
        "README.md",
        "# My Project\n\nA simple project.\n\n## AI Generated Features\n- Logging\n- Validation\n",
    );
    let said = log(&[("README.md", "ai_session_2", "sonnet", vec![LineRange::Range(4, 7)])]);
    world.commit("feature2", Some("feature1"), said);
    // Third AI session adds a new file
    world.write(
        "src/utils.rs",
        "// AI: Utility functions\npub fn log_message(msg: &str) {\n    println!(\"{}\", msg);\n}\n",
    );
    let said = log(&[("src/utils.rs", "ai_session_3", "gpt-4", vec![LineRange::Range(1, 4)])]);
    world.commit("feature3", Some("feature2"), said);

    let checkpoints = prepare(&mut world, "feature3", "master");

    // Session 1 touched 2 files (main.rs, lib.rs) = 2 checkpoints
    // Session 2 touched 1 file (README.md) = 1 checkpoint
    // Session 3 touched 1 file (utils.rs) = 1 checkpoint
    assert_eq!(
        checkpoints.len(),
        4,
        "Should have 4 checkpoints (one per file per session)"
    );
    // All checkpoints should be AI
    let ai_checkpoints: Vec<_> = checkpoints.iter().filter(|c| c.agent_id.is_some()).collect();
    assert_eq!(ai_checkpoints.len(), 4, "All checkpoints should be AI");
    for checkpoint in &checkpoints {
        assert_eq!(
            checkpoint.entries.len(),
            1,
            "Each checkpoint should have exactly one file entry"
        );
        for entry in &checkpoint.entries {
            assert!(
                !entry.blob_sha.is_empty(),
                "Blob SHA should be set for file: {}",
                entry.file
            );
        }
        assert!(!checkpoint.diff.is_empty(), "Diff hash should be set for checkpoint");
    }
    // Collect all modified files
    let mut modified_files: Vec<String> =
        checkpoints.iter().flat_map(|c| c.entries.iter().map(|e| e.file.clone())).collect();
    modified_files.sort();
    modified_files.dedup();
    assert_eq!(modified_files.len(), 4, "Should have 4 unique modified files");
    assert!(modified_files.contains(&"src/main.rs".to_string()));
    assert!(modified_files.contains(&"src/lib.rs".to_string()));
    assert!(modified_files.contains(&"README.md".to_string()));
    assert!(modified_files.contains(&"src/utils.rs".to_string()));
    // Verify we have 3 distinct AI sessions
    let mut session_ids: Vec<String> =
        checkpoints.iter().map(|c| c.agent_id.as_ref().unwrap().id.clone()).collect();
    session_ids.sort();
    session_ids.dedup();
    assert_eq!(session_ids.len(), 3, "Should have 3 unique AI sessions");
}

/// A branch of two commits, of an AI and of a human, on top of `base`.
fn branch() -> World {
    let mut world = World::new();
    world.write("a.txt", "one\ntwo\n");
    world.commit("base", None, AuthorshipLog::new());
    world.write("a.txt", "one\nai 1\nai 2\ntwo\nai 3\n");
    let ranges = vec![LineRange::Range(2, 3), LineRange::Single(5)];
    world.commit("old1", Some("base"), log(&[("a.txt", "s1", "m", ranges)]));
    world.write("a.txt", "one\nai 1\nai 2\nhuman\ntwo\nai 3\n");
    world.commit("old2", Some("old1"), AuthorshipLog::new());
    world
}

#[test]
fn a_squash_says_what_the_commits_said() {
    let mut world = branch();
    world.commit("squashed", Some("base"), AuthorshipLog::new());
    let made = world
        .drive(&|repo, session| {
            rewrite_authorship_after_squash_or_rebase(
                repo, "main", "old2", "squashed", false, session,
            )
        })
        .unwrap();
    assert_eq!(made.metadata.base_commit_sha, "squashed");
    assert_eq!(made.attestations.len(), 1);
    assert_eq!(made.attestations[0].file_path, "a.txt");
    assert_eq!(made.attestations[0].entries.len(), 1);
    assert_eq!(made.attestations[0].entries[0].hash, "s1");
    assert_eq!(
        made.attestations[0].entries[0].line_ranges,
        vec![LineRange::Range(2, 3), LineRange::Single(6)]
    );
    // All of the session is kept but the number of lines, which is counted anew
    assert_eq!(made.metadata.prompts.len(), 1);
    let prompt = &made.metadata.prompts[0].1;
    assert_eq!(prompt.accepted_lines, 3);
    assert_eq!((prompt.total_additions, prompt.total_deletions), (9, 4));
    assert_eq!(
        world.changes,
        vec![
            "let go refs/heads/temp-made-0",
            "note squashed",
            "say Authorship log saved to notes/ai/squashed"
        ]
    );
}

#[test]
fn a_dry_run_saves_nothing() {
    let mut world = branch();
    world.commit("squashed", Some("base"), AuthorshipLog::new());
    world
        .drive(&|repo, session| {
            rewrite_authorship_after_squash_or_rebase(
                repo, "main", "old2", "squashed", true, session,
            )
        })
        .unwrap();
    assert_eq!(world.changes, vec!["let go refs/heads/temp-made-0"]);
}

fn shas(names: &[&str]) -> Vec<String> {
    names.iter().map(|n| text(n)).collect()
}

fn rebase(world: &mut World, old: &[&str], new: &[&str]) -> Result<(), Stop> {
    let (old, new) = (shas(old), shas(new));
    world.drive(&|repo, session| rewrite_authorship_after_rebase(repo, &old, &new, USER, session))
}

#[test]
fn a_rebase_copies_the_log_where_the_tree_is_the_same() {
    let mut world = branch();
    world.checkout("old1");
    world.commit("new1", Some("base"), AuthorshipLog::new());
    world.checkout("old2");
    world.commit("new2", Some("new1"), AuthorshipLog::new());
    assert!(rebase(&mut world, &["old1", "old2"], &["new1", "new2"]).is_ok());
    assert_eq!(world.changes, vec!["note new1", "note new2"]);
    assert_eq!(world.notes["new1"].attestations, world.notes["old1"].attestations);
    assert_eq!(world.notes["new1"].metadata.prompts, world.notes["old1"].metadata.prompts);
}

#[test]
fn a_rebase_blames_where_the_tree_differs() {
    let mut world = branch();
    world.checkout("base");
    world.write("b.txt", "other\n");
    world.commit("upstream", Some("base"), AuthorshipLog::new());
    world.write("a.txt", "one\nai 1\nai 2\ntwo\nai 3\n");
    world.commit("new1", Some("upstream"), AuthorshipLog::new());
    assert!(rebase(&mut world, &["old1"], &["new1"]).is_ok());
    assert_eq!(world.changes, vec!["let go refs/heads/temp-made-0", "note new1"]);
    assert_eq!(world.notes["new1"].attestations, world.notes["old1"].attestations);
    assert_eq!(world.messages, vec!["Merge diff from base to upstream onto old1"]);
}

#[test]
fn a_rebase_to_fewer_commits_is_a_squash() {
    let mut world = branch();
    world.commit("new", Some("base"), AuthorshipLog::new());
    assert!(rebase(&mut world, &["old1", "old2"], &["new"]).is_ok());
    assert!(world.changes.contains(&text("note new")));
    assert_eq!(
        world.notes["new"].attestations[0].entries[0].line_ranges,
        vec![LineRange::Range(2, 3), LineRange::Single(6)]
    );
}

#[test]
fn a_rebase_to_more_commits_takes_what_it_can() {
    let mut world = branch();
    world.checkout("old1");
    world.commit("new1", Some("base"), AuthorshipLog::new());
    world.checkout("old2");
    world.commit("new2", Some("new1"), AuthorshipLog::new());
    world.write("c.txt", "more\n");
    world.commit("new3", Some("new2"), AuthorshipLog::new());
    assert!(rebase(&mut world, &["old1", "old2"], &["new1", "new2", "new3"]).is_ok());
    let notes: Vec<&String> = world.changes.iter().filter(|c| c.starts_with("note")).collect();
    assert_eq!(notes, vec!["note new1", "note new2", "note new3"]);
}

#[test]
fn a_rebase_of_no_commits_fails() {
    let mut world = branch();
    match rebase(&mut world, &[], &["old1"]) {
        Err(Stop::Fail(GitAiError::Generic(message))) => {
            assert_eq!(message, "No original commits found")
        }
        other => panic!("not expected: {:?}", other),
    }
    assert!(rebase(&mut world, &[], &[]).is_ok());
}

#[test]
fn a_cherry_pick_passes_failures_over() {
    let mut world = branch();
    world.checkout("old1");
    world.commit("picked", Some("base"), AuthorshipLog::new());
    let sources = shas(&["missing", "old1", "old2"]);
    let new = shas(&["also missing", "picked"]);
    let r = world.drive(&|repo, session| {
        rewrite_authorship_after_cherry_pick(repo, &sources, &new, USER, session)
    });
    assert!(r.is_ok());
    assert_eq!(world.changes, vec!["note picked"]);
    assert_eq!(world.notes["picked"].attestations, world.notes["old1"].attestations);
}

#[test]
fn copying_a_log_that_is_not_there_does_nothing() {
    let mut world = World::new();
    let r = world.drive(&|_, session| copy_authorship_log("nothing", "new", session));
    assert!(r.is_ok());
    assert!(world.changes.is_empty());
}

fn path(world: &mut World, head: &str, base: &str) -> Result<Vec<String>, Stop> {
    world.drive(&|repo, session| build_commit_path_to_base(repo, head, base, session))
}

fn failure<T>(r: Result<T, Stop>) -> String {
    match r {
        Err(Stop::Fail(GitAiError::Generic(message))) => message,
        _ => panic!("not a failure with a message"),
    }
}

#[test]
fn a_path_leads_from_the_base_to_the_head() {
    let mut world = branch();
    world.write("a.txt", "three\n");
    world.commit("old3", Some("old2"), AuthorshipLog::new());
    assert_eq!(path(&mut world, "old3", "base").unwrap(), shas(&["old1", "old2", "old3"]));
    let walked = world
        .drive(&|repo, session| walk_commits_to_base(repo, "old3", "base", session))
        .unwrap();
    assert_eq!(walked, shas(&["old3", "old2", "old1"]));
    assert_eq!(
        failure(path(&mut world, "base", "base")),
        "Incompatible lineage: head_sha (base) and origin_base (base) are the same commit"
    );
    world.commit("stray", None, AuthorshipLog::new());
    assert_eq!(
        failure(path(&mut world, "old1", "stray")),
        "Incompatible lineage: no path from old1 to stray. Reached end of history without finding origin base."
    );
}

#[test]
fn a_path_is_not_followed_for_ever() {
    let mut world = World::new();
    world.commit("a", Some("b"), AuthorshipLog::new());
    world.commit("b", Some("a"), AuthorshipLog::new());
    // Answers are put in by hand: going through the list anew for each would take long
    let ok = |text: &str| wrote(text);
    let mut replies: Vec<Reply> = vec![ok("commit\n")];
    for _ in 0..5001 {
        replies.push(ok("b\n"));
        replies.push(ok("a\n"));
    }
    let setup: Vec<Reply> = vec![wrote("/work/.git\n"), Reply::Flag(true)];
    let mut session = Session::new(&setup);
    let repo = find_repository_in_path("/work", &mut session).unwrap();
    let r = build_commit_path_to_base(&repo, "a", "elsewhere", &mut Session::new(&replies));
    assert_eq!(
        failure(r),
        "Incompatible lineage: path too long, possible circular reference"
    );
}

#[test]
fn a_reset_turns_commits_into_a_working_log() {
    let mut world = branch();
    // HEAD goes back to the base, the files stay as they are
    let head = text("old2");
    world.working.insert(head.clone(), vec![working_checkpoint("s2")]);
    let mut log_with_working = world.notes["old2"].clone();
    log_with_working.metadata.base_commit_sha = head;
    world.applied = log_with_working;
    let r = world.drive(&|repo, session| {
        reconstruct_working_log_after_reset(repo, "base", "old2", USER, session)
    });
    assert!(r.is_ok());
    assert_eq!(
        world.changes,
        vec![
            "note made-1",
            "show 1",
            "reset base",
            "append base",
            "let go refs/heads/temp-made-1",
            "let go refs/heads/temp-made-0",
            "delete old2"
        ]
    );
    assert_eq!(world.working["base"].len(), 1);
    let kept = &world.working["base"][0];
    assert_eq!(kept.agent_id, Some(agent("s1", "m")));
    assert_eq!(kept.entries[0].file, "a.txt");
    // What the library does not read is kept
    assert_eq!((kept.rest.as_str(), kept.entries[0].rest.as_str()), ("noon", "2 ranges"));
    assert!(kept.entries[0].blob_sha.starts_with("kept-base-"));
    assert_eq!(
        world.messages,
        vec![
            "Temporary commit representing working directory after reset",
            "Hanging commit for reset: working dir with parent old2"
        ]
    );
}

#[test]
fn a_reset_sees_what_is_not_staged() {
    let mut world = branch();
    // HEAD and the index go back to the base, the files stay as they are
    world.workdir = Some(world.index.clone());
    world.checkout("base");
    world.working.insert(text("old2"), vec![working_checkpoint("s2")]);
    let mut log_with_working = world.notes["old2"].clone();
    log_with_working.metadata.base_commit_sha = text("old2");
    world.applied = log_with_working;
    let r = world.drive(&|repo, session| {
        reconstruct_working_log_after_reset(repo, "base", "old2", USER, session)
    });
    assert!(r.is_ok());
    assert_eq!(world.working["base"].len(), 1);
    assert_eq!(world.working["base"][0].agent_id, Some(agent("s1", "m")));
    assert_eq!(world.commits["made-0"].files["a.txt"], "one\nai 1\nai 2\nhuman\ntwo\nai 3\n");
    // What is kept is what the lines are of
    assert_eq!(
        world.working["base"][0].entries[0].blob_sha,
        format!("kept-base-{}", "one\nai 1\nai 2\nhuman\ntwo\nai 3\n".len())
    );
    // The tree that is captured is that of the commit that was made for it
    let tree = world
        .drive(&|repo, session| capture_working_directory_as_tree(repo, session))
        .unwrap();
    assert_eq!(world.tree_files(&tree)["a.txt"], "one\nai 1\nai 2\nhuman\ntwo\nai 3\n");
    // Where nothing differs, it is that of the index
    world.workdir = None;
    let tree = world
        .drive(&|repo, session| capture_working_directory_as_tree(repo, session))
        .unwrap();
    assert_eq!(world.tree_files(&tree)["a.txt"], "one\ntwo\n");
}

fn entry(file: &str, blob_sha: &str) -> WorkingLogEntry {
    WorkingLogEntry { file: text(file), blob_sha: text(blob_sha), rest: String::new() }
}

#[test]
fn the_hash_of_a_checkpoint_does_not_depend_on_order() {
    let one = compute_combined_hash(&vec![entry("a", "1"), entry("b", "2")]);
    let two = compute_combined_hash(&vec![entry("b", "2"), entry("a", "1")]);
    assert_eq!(one, two);
    assert_ne!(one, compute_combined_hash(&vec![entry("a", "2"), entry("b", "1")]));
    // SHA-256 of "abc"
    assert_eq!(
        compute_combined_hash(&vec![entry("ab", "c")]),
        "ba7816bf8f01cfea414140de5dae2223b00361a396177a9cb410ff61f20015ad"
    );
    assert_eq!(
        compute_combined_hash(&Vec::new()),
        "e3b0c44298fc1c149afbf4c8996fb92427ae41e4649b934ca495991b7852b855"
    );
    assert_eq!(join_bytes(&vec![(text("é"), text("x"))]), "éx".as_bytes().to_vec());
}

fn event(world: &mut World, event: RewriteLogEvent) -> Result<(), Stop> {
    world.drive(&|repo, session| {
        let all = vec![event.clone()];
        rewrite_authorship_if_needed(repo, &all[0], text(USER), true, session)
    })
}

#[test]
fn events_are_answered() {
    let mut world = branch();
    let commit =
        RewriteLogEvent::Commit { base_commit: Some(text("base")), commit_sha: text("old1") };
    assert!(event(&mut world, commit).is_ok());
    assert_eq!(world.changes, vec![format!("post Some(\"base\") old1 {} true", USER)]);

    let mut world = branch();
    let squash = RewriteLogEvent::MergeSquash {
        source_branch: text("feature"),
        source_head: text("old2"),
        base_branch: text("main"),
        base_head: text("base"),
    };
    assert!(event(&mut world, squash).is_ok());
    assert_eq!(world.changes[0], "delete base");
    assert_eq!(world.changes.last().unwrap(), "append base");

    let mut world = branch();
    assert!(event(&mut world, RewriteLogEvent::Other(text("reset"))).is_ok());
    assert!(world.changes.is_empty());
}
