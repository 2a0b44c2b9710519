//! What is asked of git, and what is made of its answers.
use git_ai::error::GitAiError;
use git_ai::git::diff::{
    hunk_range, parse_diff_added_lines, parse_hunk_header, try_parse_diff_added_lines,
};
use git_ai::git::repository::{
    find_repository, git_date_text, keep_distinct, read_filled_lines, read_trimmed_lines,
    CommitRange, Repository, Time,
};
use git_ai::git::rewrite_log::RewriteLogEvent;
use git_ai::session::{Reply, Request, Session, Stop};

fn text(s: &str) -> String {
    s.to_string()
}

fn wrote(text: &str) -> Reply {
    Reply::Exit {
        success: true,
        code: Some(0),
        stdout: text.as_bytes().to_vec(),
        stderr: Vec::new(),
    }
}

fn refused(code: i32) -> Reply {
    Reply::Exit {
        success: false,
        code: Some(code),
        stdout: Vec::new(),
        stderr: b"no".to_vec(),
    }
}

/// Runs a program with these answers; gives its end, what it asked git, and what git was told.
fn ask<T>(
    answers: Vec<Reply>,
    program: &dyn Fn(&mut Repository, &mut Session) -> Result<T, Stop>,
) -> (Result<T, Stop>, Vec<String>) {
    let mut waiting = answers.into_iter();
    let mut replies = vec![wrote("/work/.git\n"), Reply::Flag(true)];
    let mut commands: Vec<String> = Vec::new();
    loop {
        let mut session = Session::new(&replies);
        let mut repo = find_repository(&Vec::new(), &mut session).unwrap();
        match program(&mut repo, &mut session) {
            Err(Stop::Pending(request)) => {
                commands.push(match &request {
                    Request::Git { args, stdin, env } => {
                        let start = args.iter().position(|a| a == "--no-pager").unwrap() + 1;
                        let mut line = args[start..].join(" ");
                        for (name, value) in env {
                            line += &format!(" {}={}", name, value);
                        }
                        if let Some(bytes) = stdin {
                            line += &format!(" < {}", String::from_utf8_lossy(bytes));
                        }
                        line
                    }
                    other => format!("{:?}", other),
                });
                let reply = waiting.next().unwrap_or_else(|| panic!("no answer: {:?}", request));
                replies.push(reply);
            }
            other => return (other, commands),
        }
    }
}

fn message<T>(r: Result<T, Stop>) -> String {
    match r {
        Err(Stop::Fail(GitAiError::Generic(message))) => message,
        _ => panic!("not a failure with a message"),
    }
}

#[test]
fn a_repository_is_where_git_says() {
    let first = vec![wrote("/work/.git\n"), Reply::Flag(false)];
    let r = find_repository(&Vec::new(), &mut Session::new(&first));
    assert_eq!(message(r), "Git directory does not exist: /work/.git");
    let first = vec![Reply::NotRun(text("no such program"))];
    let r = find_repository(&Vec::new(), &mut Session::new(&first));
    assert!(matches!(r, Err(Stop::Fail(GitAiError::IoError(_)))));
    let first = vec![Reply::Flag(true)];
    let r = find_repository(&Vec::new(), &mut Session::new(&first));
    assert!(matches!(r, Err(Stop::Mismatch)));
    let bytes = Reply::Exit {
        success: true,
        code: Some(0),
        stdout: vec![0xff, 0xfe],
        stderr: Vec::new(),
    };
    let first = vec![bytes];
    let r = find_repository(&Vec::new(), &mut Session::new(&first));
    assert!(matches!(r, Err(Stop::Fail(GitAiError::FromUtf8Error))));
}

#[test]
fn a_git_command_starts_no_pager() {
    let (r, _) = ask(Vec::new(), &|repo, _| Ok(repo.global_args_for_exec()));
    assert_eq!(r.unwrap(), vec!["--no-pager"]);
    let start = vec![wrote("/work/.git\n"), Reply::Flag(true)];
    let args_with = |given: &[&str]| {
        let given: Vec<String> = given.iter().map(|g| text(g)).collect();
        find_repository(&given, &mut Session::new(&start)).unwrap().global_args_for_exec()
    };
    assert_eq!(args_with(&["-C", "/work"]), vec!["-C", "/work", "--no-pager"]);
    assert_eq!(args_with(&["--no-pager", "-C", "/work"]), vec!["--no-pager", "-C", "/work"]);
}

#[test]
fn the_working_directory_is_asked_for_once() {
    let (r, commands) = ask(vec![wrote("/work\n"), Reply::Flag(true)], &|repo, session| {
        let one = repo.workdir(session)?;
        let two = repo.workdir(session)?;
        Ok((one, two))
    });
    assert_eq!(r.unwrap(), (text("/work"), text("/work")));
    assert_eq!(commands[0], "rev-parse --show-toplevel");
    assert_eq!(commands.len(), 2);
}

#[test]
fn head_is_a_branch_or_itself() {
    let (r, commands) = ask(vec![wrote("refs/heads/main\n")], &|repo, session| {
        let head = repo.head(session)?;
        Ok((head.name().map(|n| n.to_string()), head.is_branch()))
    });
    assert_eq!(r.unwrap(), (Some(text("refs/heads/main")), true));
    assert_eq!(commands, vec!["symbolic-ref HEAD"]);
    let (r, _) = ask(vec![refused(128)], &|repo, session| {
        let head = repo.head(session)?;
        Ok((head.name().map(|n| n.to_string()), head.is_branch()))
    });
    assert_eq!(r.unwrap(), (Some(text("HEAD")), false));
}

#[test]
fn what_head_was_is_found_once() {
    let answers = vec![wrote("refs/heads/main\n"), wrote("abc\n")];
    let (r, commands) = ask(answers, &|repo, session| {
        repo.require_pre_command_head(session)?;
        repo.require_pre_command_head(session)?;
        Ok((repo.pre_command_base_commit.clone(), repo.pre_command_refname.clone()))
    });
    assert_eq!(r.unwrap(), (Some(text("abc")), Some(text("refs/heads/main"))));
    assert_eq!(commands.len(), 2);
}

#[test]
fn a_commit_tells_of_itself() {
    let answers = vec![
        wrote("commit\n"),
        wrote("Fix it\n"),
        wrote("p1 p2\n"),
        wrote("p1 p2\n"),
        wrote("tree1\n"),
        wrote("p2\n"),
    ];
    let (r, commands) = ask(answers, &|repo, session| {
        let commit = repo.find_commit(text("abc"), session)?;
        let summary = commit.summary(session)?;
        let count = commit.parent_count(session)?;
        let mut parents = commit.parents(session)?;
        let first = parents.next().map(|p| p.id());
        let second = parents.next().map(|p| p.id());
        assert!(parents.next().is_none());
        let tree = commit.tree(session)?.id();
        let parent = commit.parent(1, session)?.id();
        Ok((summary, count, first, second, tree, parent))
    });
    assert_eq!(
        r.unwrap(),
        (text("Fix it"), 2, Some(text("p1")), Some(text("p2")), text("tree1"), text("p2"))
    );
    assert_eq!(
        commands,
        vec![
            "cat-file -t abc",
            "show -s --no-notes --encoding=UTF-8 --format=%s abc",
            "show -s --format=%P abc",
            "show -s --format=%P abc",
            "rev-parse --verify abc^{tree}",
            "rev-parse --verify abc^2"
        ]
    );
}

#[test]
fn an_object_of_another_kind_is_refused() {
    let (r, _) = ask(vec![wrote("tree\n")], &|repo, session| {
        repo.find_commit(text("abc"), session).map(|c| c.id())
    });
    assert_eq!(message(r), "Object is not a commit: abc (type: tree)");
    let (r, _) = ask(vec![wrote("blob\n")], &|repo, session| {
        repo.find_blob(text("abc"), session).map(|c| c.id())
    });
    assert_eq!(r.unwrap(), "abc");
    let (r, _) = ask(vec![wrote("tree\n")], &|repo, session| {
        repo.find_tree(text("abc"), session).map(|c| c.id())
    });
    assert_eq!(r.unwrap(), "abc");
}

#[test]
fn signatures_have_a_name_an_address_and_a_time() {
    let answers = vec![
        wrote("commit\n"),
        wrote("Ann\nann@example.com\n2025-10-07T13:51:13-05:30\n"),
        wrote("\n\nnever\n"),
    ];
    let (r, commands) = ask(answers, &|repo, session| {
        let commit = repo.find_commit(text("abc"), session)?;
        let author = commit.author(session)?;
        let committer = commit.committer(session)?;
        Ok((
            author.name().map(|n| n.to_string()),
            author.email().map(|n| n.to_string()),
            (author.when().seconds(), author.when().offset_minutes()),
            committer.name().map(|n| n.to_string()),
            (committer.when().seconds(), committer.when().offset_minutes()),
        ))
    });
    assert_eq!(
        r.unwrap(),
        (
            Some(text("Ann")),
            Some(text("ann@example.com")),
            (1759864873, -330),
            None,
            (0, 0)
        )
    );
    assert_eq!(commands[1], "show -s --no-notes --encoding=UTF-8 --format=%an%n%ae%n%aI abc");
    assert_eq!(commands[2], "show -s --no-notes --encoding=UTF-8 --format=%cn%n%ce%n%cI abc");
}

#[test]
fn dates_are_written_as_git_reads_them() {
    assert_eq!(git_date_text(&Time::from_instant(Some((1759864873, -19800)))), "1759864873 -0530");
    assert_eq!(git_date_text(&Time::from_instant(Some((-5, 3600)))), "-5 +0100");
    assert_eq!(git_date_text(&Time::from_instant(None)), "0 +0000");
}

fn new_commit(answers: Vec<Reply>, update: Option<&str>) -> (Result<String, Stop>, Vec<String>) {
    let mut all = vec![
        wrote("commit\n"),
        wrote("Ann\nann@example.com\n2025-10-07T13:51:13+02:00\n"),
        wrote("tree\n"),
    ];
    all.extend(answers);
    ask(all, &|repo, session| {
        let parent = repo.find_commit(text("p1"), session)?;
        let author = parent.author(session)?;
        let tree = repo.find_tree(text("t1"), session)?;
        repo.commit(update, &author, &author, "Message", &tree, &[&parent], session)
    })
}

#[test]
fn a_commit_is_made() {
    let (r, commands) = new_commit(vec![wrote("new1\n")], None);
    assert_eq!(r.unwrap(), "new1");
    assert_eq!(
        commands[3],
        "commit-tree t1 -p p1 GIT_AUTHOR_NAME=Ann GIT_AUTHOR_EMAIL=ann@example.com GIT_AUTHOR_DATE=1759837873 +0200 GIT_COMMITTER_NAME=Ann GIT_COMMITTER_EMAIL=ann@example.com GIT_COMMITTER_DATE=1759837873 +0200 < Message"
    );
    // HEAD moves along
    let answers = vec![wrote("new1\n"), wrote("refs/heads/main\n"), wrote("p1\n"), wrote("")];
    let (r, commands) = new_commit(answers, Some("HEAD"));
    assert_eq!(r.unwrap(), "new1");
    assert_eq!(commands[6], "update-ref -m Message refs/heads/main new1 p1");
    // A reference that has moved on stays
    let (r, _) = new_commit(vec![wrote("new1\n"), wrote("p2\n")], Some("refs/heads/x"));
    assert_eq!(message(r), "First parent (p1) != current tip (p2) of refs/heads/x");
    // A reference that is not there is made
    let answers = vec![wrote("new1\n"), refused(128), wrote("")];
    let (r, commands) = new_commit(answers, Some("refs/heads/x"));
    assert_eq!(r.unwrap(), "new1");
    assert_eq!(commands[5], "update-ref -m Message refs/heads/x new1");
}

#[test]
fn remotes_are_listed() {
    let (r, _) = ask(vec![wrote("up\norigin\n")], &|repo, session| repo.remotes(session));
    assert_eq!(r.unwrap(), vec!["up", "origin"]);
    let (r, _) =
        ask(vec![wrote("up\norigin\n")], &|repo, session| repo.get_default_remote(session));
    assert_eq!(r.unwrap(), Some(text("origin")));
    let (r, _) = ask(vec![wrote("up\nother\n")], &|repo, session| repo.get_default_remote(session));
    assert_eq!(r.unwrap(), Some(text("up")));
    let (r, _) = ask(vec![wrote("")], &|repo, session| repo.remotes(session));
    assert_eq!(r.unwrap(), Vec::<String>::new());
    let (r, _) = ask(vec![wrote("\n")], &|repo, session| repo.get_default_remote(session));
    assert_eq!(r.unwrap(), None);
    let listing = "up\tgit@a:b (fetch)\nup\tgit@a:c (push)\nz\thttps://d (fetch)\n";
    let (r, _) = ask(vec![wrote(listing)], &|repo, session| repo.remotes_with_urls(session));
    assert_eq!(
        r.unwrap(),
        vec![(text("up"), text("git@a:b")), (text("z"), text("https://d"))]
    );
    let (r, commands) = ask(vec![wrote("main\n"), wrote("up\n")], &|repo, session| {
        repo.upstream_remote(session)
    });
    assert_eq!(r.unwrap(), Some(text("up")));
    assert_eq!(commands[1], "config --get branch.main.remote");
    let (r, _) = ask(vec![wrote("\n")], &|repo, session| repo.upstream_remote(session));
    assert_eq!(r.unwrap(), None);
    let (r, _) =
        ask(vec![wrote("up/main\n")], &|repo, session| repo.remote_head("up", session));
    assert_eq!(r.unwrap(), "up/main");
}

#[test]
fn configuration_is_read_and_written() {
    let get = |repo: &mut Repository, session: &mut Session| repo.config_get_str("a.b", session);
    assert_eq!(ask(vec![wrote(" value \n")], &get).0.unwrap(), Some(text("value")));
    assert_eq!(ask(vec![refused(1)], &get).0.unwrap(), None);
    assert!(matches!(
        ask(vec![refused(3)], &get).0,
        Err(Stop::Fail(GitAiError::GitCliError { code: Some(3), .. }))
    ));
    let (r, commands) =
        ask(vec![wrote("")], &|repo, session| repo.config_set_str("a.b", "c", session));
    assert!(r.is_ok());
    assert_eq!(commands, vec!["config set a.b c"]);
}

#[test]
fn references_are_made_and_found() {
    let (r, commands) = ask(vec![wrote(""), wrote("")], &|repo, session| {
        let made = repo.reference("refs/x", text("abc\n"), false, "why", session)?;
        assert_eq!(made.name(), Some("refs/x"));
        let forced = repo.reference("refs/x", text("abc"), true, "why", session)?;
        assert_eq!(forced.name(), Some("refs/x"));
        Ok(())
    });
    assert!(r.is_ok());
    assert_eq!(
        commands,
        vec![
            "update-ref --stdin --create-reflog -m why < create refs/x abc\n",
            "update-ref --stdin --create-reflog -m why < update refs/x abc\n"
        ]
    );
    let (r, _) = ask(vec![wrote("refs/a\n\n refs/b \n")], &|repo, session| {
        let mut all = repo.references(session)?;
        let mut names: Vec<String> = Vec::new();
        while let Some(Ok(reference)) = all.next() {
            names.push(reference.name().unwrap().to_string());
        }
        Ok(names)
    });
    assert_eq!(r.unwrap(), vec!["refs/a", "refs/b"]);
    let (r, _) = ask(vec![refused(128)], &|repo, session| {
        repo.find_reference("refs/x", session).map(|_| ())
    });
    assert!(r.is_err());
}

#[test]
fn an_author_is_resolved() {
    let answers = vec![wrote("abc\n"), wrote("Ann <ann@example.com>\n")];
    let (r, commands) = ask(answers, &|repo, session| repo.resolve_author_spec("ann", session));
    assert_eq!(r.unwrap(), Some(text("Ann <ann@example.com>")));
    assert_eq!(commands[0], "rev-list --all -i --max-count=1 --author=ann");
    let (r, _) = ask(vec![wrote("\n")], &|repo, session| repo.resolve_author_spec("x", session));
    assert_eq!(r.unwrap(), None);
    let (r, _) = ask(vec![refused(1)], &|repo, session| repo.resolve_author_spec("x", session));
    assert_eq!(r.unwrap(), None);
}

#[test]
fn an_entry_of_a_tree_is_found_by_its_path() {
    let listing = "100644 blob aaa\tsrc/a.rs\0";
    let (r, commands) = ask(vec![wrote("tree\n"), wrote(listing)], &|repo, session| {
        let tree = repo.find_tree(text("t"), session)?;
        tree.get_path("src/a.rs", session).map(|e| e.id())
    });
    assert_eq!(r.unwrap(), "aaa");
    assert_eq!(commands[1], "ls-tree -z t -- src/a.rs");
    let (r, _) = ask(vec![wrote("tree\n"), wrote("")], &|repo, session| {
        let tree = repo.find_tree(text("t"), session)?;
        tree.get_path("src/a.rs", session).map(|e| e.id())
    });
    assert_eq!(message(r), "Path not found in tree: src/a.rs");
    // A directory is an entry like another; one with another path is none for this one
    let listing = "040000 tree ddd\tsrc\0";
    let (r, commands) = ask(vec![wrote("tree\n"), wrote(listing)], &|repo, session| {
        let tree = repo.find_tree(text("t"), session)?;
        tree.get_path("src", session).map(|e| e.id())
    });
    assert_eq!(r.unwrap(), "ddd");
    assert_eq!(commands[1], "ls-tree -z t -- src");
    let listing = "100644 blob aaa\tsrc/a.rs\0";
    let (r, _) = ask(vec![wrote("tree\n"), wrote(listing)], &|repo, session| {
        let tree = repo.find_tree(text("t"), session)?;
        tree.get_path("src", session).map(|e| e.id())
    });
    assert_eq!(message(r), "Path not found in tree: src");
}

#[test]
fn a_range_has_to_hold_together() {
    let start = || vec![wrote("a\n"), wrote("b\n"), wrote("commit\n"), wrote("commit\n")];
    let validity = |more: Vec<Reply>| {
        let mut answers = start();
        answers.extend(more);
        ask(answers, &|repo, session| {
            let range = CommitRange::new(repo, text("x"), text("y"), text("refs/z"), session)?;
            range.is_valid(session)
        })
        .0
    };
    assert!(validity(vec![wrote(""), wrote(""), wrote("")]).is_ok());
    assert_eq!(
        message(validity(vec![refused(1)])),
        "Commit a is not reachable from refname refs/z"
    );
    assert_eq!(
        message(validity(vec![wrote(""), refused(1)])),
        "Commit b is not reachable from refname refs/z"
    );
    assert_eq!(
        message(validity(vec![wrote(""), wrote(""), refused(1)])),
        "Commit a is not an ancestor of b"
    );
}

#[test]
fn a_parent_is_one_of_the_parents() {
    for (i, found) in [(0, Some("p1")), (1, Some("p2")), (2, None)] {
        let one = match found {
            Some(id) => wrote(&format!("{}\n", id)),
            None => refused(128),
        };
        let answers = vec![wrote("commit\n"), wrote("p1 p2\n"), one];
        let (r, commands) = ask(answers, &|repo, session| {
            let commit = repo.find_commit(text("abc"), session)?;
            let mut parents = commit.parents(session)?;
            let mut ids: Vec<String> = Vec::new();
            while let Some(parent) = parents.next() {
                ids.push(parent.id());
            }
            let parent = commit.parent(i, session).map(|p| p.id());
            match parent {
                Ok(id) => assert_eq!(id, ids[i]),
                Err(Stop::Fail(_)) => assert!(i >= ids.len()),
                Err(stop) => return Err(stop),
            }
            Ok(ids.len())
        });
        assert_eq!(r.unwrap(), 2);
        assert_eq!(commands[2], format!("rev-parse --verify abc^{}", i + 1));
    }
}

#[test]
fn an_object_is_of_one_type() {
    for (said, commit, blob, tree) in
        [("commit\n", true, false, false), ("blob\n", false, true, false), ("tree\n", false, false, true)]
    {
        let ok = |program: &dyn Fn(&mut Repository, &mut Session) -> Result<(), Stop>| {
            ask(vec![wrote(said)], program).0.is_ok()
        };
        assert_eq!(ok(&|repo, s| repo.find_commit(text("x"), s).map(|_| ())), commit);
        assert_eq!(ok(&|repo, s| repo.find_blob(text("x"), s).map(|_| ())), blob);
        assert_eq!(ok(&|repo, s| repo.find_tree(text("x"), s).map(|_| ())), tree);
    }
    // The tree of a commit is found as that tree
    let answers = vec![wrote("commit\n"), wrote("ttt\n"), wrote("tree\n")];
    let (r, commands) = ask(answers, &|repo, session| {
        let tree = repo.find_commit(text("abc"), session)?.tree(session)?;
        Ok((tree.id(), repo.find_tree(tree.id(), session)?.id()))
    });
    assert_eq!(r.unwrap(), (text("ttt"), text("ttt")));
    assert_eq!(commands[2], "cat-file -t ttt");
}

#[test]
fn the_commits_of_a_range_are_listed() {
    let answers = vec![wrote("a\n"), wrote("b\n"), wrote("2\n"), wrote("c2\nc1\n")];
    let (r, commands) = ask(answers, &|repo, session| {
        let range = CommitRange::new(repo, text("x"), text("y"), text("refs/z"), session)?;
        let length = range.length(session)?;
        let ids = range.into_iter(session)?.ids();
        Ok((length, ids))
    });
    assert_eq!(r.unwrap(), (2, vec![text("c2"), text("c1")]));
    assert_eq!(commands[2], "rev-list --count a..b");
    assert_eq!(commands[3], "rev-list a..b");
    // Where git cannot tell, there are none
    let answers = vec![wrote("a\n"), wrote("b\n"), refused(128), refused(128)];
    let (r, _) = ask(answers, &|repo, session| {
        let range = CommitRange::new(repo, text("x"), text("y"), text("refs/z"), session)?;
        Ok((range.length(session)?, range.into_iter(session)?.ids().len()))
    });
    assert_eq!(r.unwrap(), (0, 0));
}

#[test]
fn the_reference_of_a_range_is_inferred() {
    let infer = |more: Vec<Reply>| {
        let mut answers = vec![wrote("a\n"), wrote("b\n")];
        answers.extend(more);
        ask(answers, &|repo, session| {
            let range = CommitRange::new_infer_refname(repo, text("x"), text("y"), None, session)?;
            Ok(range.refname_text().to_string())
        })
        .0
        .unwrap()
    };
    assert_eq!(infer(vec![wrote("refs/heads/one\n")]), "refs/heads/one");
    let two = wrote("refs/heads/one\nrefs/heads/two\n");
    assert_eq!(infer(vec![two, wrote("refs/heads/main\n")]), "refs/heads/main");
    assert_eq!(infer(vec![wrote(""), refused(128)]), "HEAD");
}

#[test]
fn the_commits_of_one_branch_are_a_range() {
    let answers = vec![
        wrote("refs/heads/x\n"),
        wrote("refs/heads/main\nrefs/heads/x\n"),
        wrote("c1\nc2\nc3\n"),
        wrote("c1\n"),
        wrote("c3\n"),
    ];
    let (r, commands) = ask(answers, &|repo, session| {
        let range = repo.commit_range_on_branch("x", session)?;
        Ok((range.start_text().to_string(), range.end_text().to_string()))
    });
    assert_eq!(r.unwrap(), (text("c1"), text("c3")));
    assert_eq!(
        commands[2],
        "log --format=%H --reverse --ancestry-path x --not refs/heads/main"
    );
    let answers = vec![wrote("refs/heads/x\n"), wrote("refs/heads/x\n"), wrote("")];
    let (r, _) = ask(answers, &|repo, session| {
        repo.commit_range_on_branch("x", session).map(|_| ())
    });
    assert_eq!(message(r), "No commits found on branch x unique to this branch");
}

#[test]
fn the_files_of_a_commit_are_listed_once() {
    let answers = vec![wrote("commit\n"), wrote("p\n"), wrote("a\nb\na\n")];
    let (r, commands) =
        ask(answers, &|repo, session| repo.list_commit_files("abc", None, session));
    assert_eq!(r.unwrap(), vec!["a", "b"]);
    assert_eq!(commands[2], "diff-tree --no-commit-id --name-only -r abc");
    let answers = vec![wrote("commit\n"), wrote("\n"), wrote("a\n")];
    let paths = vec![text("src")];
    let (_, commands) =
        ask(answers, &|repo, session| repo.list_commit_files("abc", Some(&paths), session));
    assert_eq!(
        commands[2],
        "diff-tree --no-commit-id --name-only -r 4b825dc642cb6eb9a060e54bf8d69288fbee4904 abc -- src"
    );
}

const DIFF: &str = "diff --git a/a.txt b/a.txt
--- a/a.txt
+++ b/a.txt
@@ -10,2 +15,3 @@ fn main()
@@ -1 +2 @@
@@ -30,2 +40,0 @@
diff --git a/gone b/gone
--- a/gone
+++ /dev/null
@@ -1,3 +0,0 @@
";

#[test]
fn added_lines_are_read_from_hunk_headers() {
    let added = parse_diff_added_lines(DIFF).unwrap();
    assert_eq!(added, vec![(text("a.txt"), vec![2, 15, 16, 17])]);
    let (r, commands) = ask(vec![wrote(DIFF)], &|repo, session| {
        repo.diff_added_lines("x", "y", None, session)
    });
    assert_eq!(r.unwrap(), added);
    assert_eq!(commands, vec!["diff -U0 --no-color x y"]);
    let (r, commands) = ask(vec![wrote(DIFF)], &|repo, session| {
        repo.diff_workdir_added_lines("x", None, session)
    });
    assert_eq!(r.unwrap(), added);
    assert_eq!(commands, vec!["diff -U0 --no-color x"]);
}

#[test]
fn a_header_whose_lines_do_not_follow_hides_no_file() {
    let diff = "+++ b/a\n@@ -0,0 +1,2 @@\n+++ b/b\n@@ -0,0 +5 @@\n";
    assert_eq!(
        parse_diff_added_lines(diff).unwrap(),
        vec![(text("a"), vec![1, 2]), (text("b"), vec![5])]
    );
}

#[test]
fn what_is_stored_is_read_back() {
    let data: Vec<u8> = vec![0, 159, 146, 150, 10];
    let raw = Reply::Exit {
        success: true,
        code: Some(0),
        stdout: data.clone(),
        stderr: Vec::new(),
    };
    let answers = vec![wrote("b10b\n"), wrote("blob\n"), raw];
    let (r, commands) = ask(answers, &|repo, session| {
        let oid = repo.blob(vec![0, 159, 146, 150, 10], session)?;
        let blob = repo.find_blob(oid, session)?;
        Ok(blob.content(session)?.clone())
    });
    assert_eq!(r.unwrap(), data);
    assert_eq!(commands[2], "cat-file blob b10b");
    let (r, commands) = ask(vec![wrote(""), wrote("a value\n")], &|repo, session| {
        repo.config_set_str("x.y", "a value", session)?;
        repo.config_get_str("x.y", session)
    });
    assert_eq!(r.unwrap(), Some(text("a value")));
    assert_eq!(commands, vec!["config set x.y a value", "config --get x.y"]);
}

#[test]
fn a_merge_with_the_base_gives_the_other_side() {
    let answers =
        vec![wrote("commit\n"), wrote("commit\n"), wrote("ttt\n"), wrote("ttt\n")];
    let (r, commands) = ask(answers, &|repo, session| {
        let base = repo.find_commit(text("b"), session)?;
        let ours = repo.find_commit(text("o"), session)?;
        let merged = repo.merge_commits_favor_ours(&base, &ours, &base, session)?;
        Ok((merged, ours.tree(session)?.id()))
    });
    assert_eq!(r.unwrap(), (text("ttt"), text("ttt")));
    assert_eq!(commands[2], "merge-tree --write-tree --merge-base=b -X ours o b");
}

#[test]
fn lines_of_a_hunk_name_no_file() {
    let diff = "+++ b/a.txt
@@ -1 +1,2 @@
-@@ -1 +7 @@
+++ b/other.txt
+@@ -1 +8 @@
@@ -5,0 +9 @@
+++ /dev/null
+++ b/b.txt
@@ -0,0 +3 @@
+x
";
    assert_eq!(
        parse_diff_added_lines(diff).unwrap(),
        vec![(text("a.txt"), vec![1, 2, 9]), (text("b.txt"), vec![3])]
    );
}

#[test]
fn a_clean_working_directory_adds_what_head_adds() {
    let (workdir, _) = ask(vec![wrote(DIFF)], &|repo, session| {
        repo.diff_workdir_added_lines("x", None, session)
    });
    let (head, commands) = ask(vec![wrote(DIFF)], &|repo, session| {
        repo.diff_added_lines("x", "HEAD", None, session)
    });
    assert_eq!(workdir.unwrap(), head.unwrap());
    assert_eq!(commands, vec!["diff -U0 --no-color x HEAD"]);
}

#[test]
fn a_hunk_header_gives_a_first_line_and_a_count() {
    assert_eq!(hunk_range("@@ -10,2 +15,5 @@"), Some((15, 5)));
    assert_eq!(hunk_range("@@ -10 +15 @@"), Some((15, 1)));
    assert_eq!(hunk_range("@@ -10,2 15,5 @@"), None);
    assert_eq!(parse_hunk_header("@@ -10,2 +15,5 @@"), Some(vec![15, 16, 17, 18, 19]));
    assert_eq!(parse_hunk_header("@@ -1,2 +3,0 @@"), Some(Vec::new()));
    assert!(try_parse_diff_added_lines("+++ b/a\n@@ -1 +4294967295,3 @@\n").is_none());
}

#[test]
fn lines_are_trimmed_and_empty_ones_left_out() {
    assert_eq!(read_trimmed_lines(" a \n\n  \nb\r\n"), vec!["a", "b"]);
    assert_eq!(read_filled_lines("a \n\nb\n"), vec!["a ", "b"]);
    let texts = vec![text("b"), text("a"), text("b")];
    assert_eq!(keep_distinct(&texts), vec!["b", "a"]);
}

#[test]
fn a_blob_is_written_and_read() {
    let (r, commands) = ask(vec![wrote("abc\n")], &|repo, session| {
        repo.blob(b"content".to_vec(), session)
    });
    assert_eq!(r.unwrap(), "abc");
    assert_eq!(commands, vec!["hash-object -w --stdin < content"]);
    let (r, commands) = ask(vec![wrote("bytes")], &|repo, session| {
        Ok(repo.get_file_content("a b.txt", "abc", session)?.clone())
    });
    assert_eq!(r.unwrap(), b"bytes".to_vec());
    assert_eq!(commands, vec!["show abc:a b.txt"]);
}

#[test]
fn notes_are_fetched_and_pushed() {
    let (r, commands) = ask(vec![Reply::Done(Ok(()))], &|repo, session| {
        repo.push_authorship("up", session)
    });
    assert!(r.is_ok());
    assert_eq!(commands, vec!["PushNotes { remote: \"up\" }"]);
    let (r, commands) =
        ask(vec![Reply::Done(Err(GitAiError::Generic(text("no"))))], &|repo, session| {
            repo.fetch_authorship("up", session)
        });
    assert_eq!(message(r), "no");
    assert_eq!(commands, vec!["FetchNotes { remote: \"up\" }"]);
}

#[test]
fn a_rewrite_is_logged_and_then_answered() {
    let event = || RewriteLogEvent::Commit { base_commit: None, commit_sha: text("abc") };
    let broken = || Reply::Done(Err(GitAiError::Generic(text("no"))));
    let handle = |answers: Vec<Reply>, apply: bool| {
        ask(answers, &|repo, session| {
            repo.handle_rewrite_log_event(event(), text("Ann"), true, apply, session)
        })
    };
    let (r, commands) = handle(vec![Reply::Done(Ok(()))], false);
    assert!(r.is_ok());
    assert_eq!(commands.len(), 1);
    // What follows a rewrite may fail
    let (r, commands) = handle(vec![Reply::Done(Ok(())), broken()], true);
    assert!(r.is_ok());
    assert_eq!(commands.len(), 2);
    let (r, _) = handle(vec![broken()], true);
    assert!(matches!(r, Err(Stop::Abort(_))));
}
