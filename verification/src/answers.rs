//! Answers that a function finds before it, and what it asks for where they end.
use crate::error::GitAiErrorView;
use crate::git::repository::{
    author_run, committer_run, config_get_run, find_repository_run, find_run, parent_run,
    signature_of, tree_run, ObjectView, RepositoryView, SignatureView,
};
use crate::session::{git_bytes, git_line, git_text, Reply, RequestView, Run, StopView, Tape};
use crate::text::{
    decimal, law_lines_are_read_back, law_trimmed_line, lines_of, trimmed, utf8_lossy, utf8_text,
};
use vstd::prelude::*;

verus! {

/// How many answers there still are.
pub open spec fn left(s: Tape) -> int {
    s.replies.len() - s.next
}

/// The answer `i` places behind the next.
pub open spec fn answer(s: Tape, i: int) -> Reply {
    s.replies[s.next + i]
}

/// The answers behind the next `i`.
pub open spec fn behind(s: Tape, i: int) -> Tape {
    Tape { next: s.next + i, ..s }
}

/// The answers are used up, and this is to be done next.
pub open spec fn waits_for<T>(run: Run<T>, request: RequestView) -> bool {
    run.0 == Err::<T, StopView>(StopView::Pending(request))
}

/// A git command without input.
pub open spec fn git_command(args: Seq<Seq<char>>) -> RequestView {
    RequestView::Git { args, env: Seq::empty(), stdin: None }
}

/// Git ended well and wrote a line without white space at its ends.
pub open spec fn wrote(reply: Reply, line: Seq<char>) -> bool {
    trimmed(line) == line && (reply matches Reply::Exit { success, stdout, .. } && success
        && utf8_text(stdout@) == Some(line.push('\n')))
}

/// Asking git for a line: the command is run, and the line that it writes is the answer.
pub proof fn law_git_line(s: Tape, args: Seq<Seq<char>>, line: Seq<char>)
    requires
        0 <= s.next <= s.replies.len(),
    ensures
        left(s) == 0 ==> waits_for(git_line(s, args), git_command(args)),
        left(s) > 0 && wrote(answer(s, 0), line) ==> git_line(s, args) == (
            Ok::<Seq<char>, StopView>(line),
            behind(s, 1),
        ),
{
    if left(s) > 0 && wrote(answer(s, 0), line) {
        law_trimmed_line(line);
    }
}

/// A commit that is looked for is there just where git says that it is one.
pub proof fn law_find_commit(repo: RepositoryView, oid: Seq<char>, s: Tape)
    requires
        0 <= s.next <= s.replies.len(),
    ensures
        left(s) == 0 ==> waits_for(
            find_run(repo, "commit"@, oid, s),
            git_command(repo.args().push("cat-file"@).push("-t"@).push(oid)),
        ),
        left(s) > 0 && wrote(answer(s, 0), "commit"@) ==> find_run(repo, "commit"@, oid, s) == (
            Ok::<ObjectView, StopView>(ObjectView { repo, oid }),
            behind(s, 1),
        ),
{
    law_git_line(s, repo.args().push("cat-file"@).push("-t"@).push(oid), "commit"@);
}

/// A tree that is looked for is there just where git says that it is one.
pub proof fn law_find_tree(repo: RepositoryView, oid: Seq<char>, s: Tape)
    requires
        0 <= s.next <= s.replies.len(),
    ensures
        left(s) == 0 ==> waits_for(
            find_run(repo, "tree"@, oid, s),
            git_command(repo.args().push("cat-file"@).push("-t"@).push(oid)),
        ),
        left(s) > 0 && wrote(answer(s, 0), "tree"@) ==> find_run(repo, "tree"@, oid, s) == (
            Ok::<ObjectView, StopView>(ObjectView { repo, oid }),
            behind(s, 1),
        ),
{
    law_git_line(s, repo.args().push("cat-file"@).push("-t"@).push(oid), "tree"@);
}

/// The tree of a commit is what git says it is.
pub proof fn law_tree_of(repo: RepositoryView, oid: Seq<char>, tree: Seq<char>, s: Tape)
    requires
        0 <= s.next <= s.replies.len(),
    ensures
        left(s) == 0 ==> waits_for(
            tree_run(repo, oid, s),
            git_command(
                repo.args().push("rev-parse"@).push("--verify"@).push(oid + "^{tree}"@),
            ),
        ),
        left(s) > 0 && wrote(answer(s, 0), tree) ==> tree_run(repo, oid, s) == (
            Ok::<ObjectView, StopView>(ObjectView { repo, oid: tree }),
            behind(s, 1),
        ),
{
    law_git_line(
        s,
        repo.args().push("rev-parse"@).push("--verify"@).push(oid + "^{tree}"@),
        tree,
    );
}

/// The first parent of a commit is what git says it is.
pub proof fn law_first_parent_of(repo: RepositoryView, oid: Seq<char>, parent: Seq<char>, s: Tape)
    requires
        0 <= s.next <= s.replies.len(),
    ensures
        left(s) == 0 ==> waits_for(
            parent_run(repo, oid, 0, s),
            git_command(repo.args().push("rev-parse"@).push("--verify"@).push(oid + "^1"@)),
        ),
        left(s) > 0 && wrote(answer(s, 0), parent) ==> parent_run(repo, oid, 0, s) == (
            Ok::<ObjectView, StopView>(ObjectView { repo, oid: parent }),
            behind(s, 1),
        ),
{
    reveal_strlit("^");
    reveal_strlit("^1");
    assert(decimal(1) =~= seq!['1']);
    assert(oid + "^"@ + decimal(1) =~= oid + "^1"@);
    law_git_line(s, repo.args().push("rev-parse"@).push("--verify"@).push(oid + "^1"@), parent);
}

/// A repository is where git says it is, if that is a directory.
pub proof fn law_repository_is_found(global_args: Seq<Seq<char>>, dir: Seq<char>, s: Tape)
    requires
        0 <= s.next <= s.replies.len(),
        left(s) > 0 ==> wrote(answer(s, 0), dir),
    ensures
        ({
            let run = find_repository_run(global_args, s);
            &&& left(s) == 0 ==> waits_for(
                run,
                git_command(global_args.push("rev-parse"@).push("--absolute-git-dir"@)),
            )
            &&& left(s) == 1 ==> waits_for(run, RequestView::IsDir { path: dir })
            &&& left(s) > 1 && answer(s, 1) == Reply::Flag(true) ==> run.1 == behind(s, 2) && (run.0
                matches Ok(repo) && repo.global_args == global_args && repo.git_dir == dir
                && repo.pre_command_base_commit is None && repo.pre_command_refname is None
                && repo.workdir_cache is None)
            &&& left(s) > 1 && answer(s, 1) == Reply::Flag(false) ==> run.1 == behind(s, 2) && (
            run.0 matches Err(StopView::Fail(_)))
        }),
{
    law_git_line(s, global_args.push("rev-parse"@).push("--absolute-git-dir"@), dir);
    if left(s) > 0 {
        assert(answer(behind(s, 1), 0) == answer(s, 1));
    }
}

/// The value of a setting is what git says it is; there is none where git ends with exit code 1.
pub proof fn law_setting_is_read(repo: RepositoryView, key: Seq<char>, value: Seq<char>, s: Tape)
    requires
        0 <= s.next <= s.replies.len(),
    ensures
        ({
            let run = config_get_run(repo, key, s);
            &&& left(s) == 0 ==> waits_for(
                run,
                git_command(repo.args().push("config"@).push("--get"@).push(key)),
            )
            &&& left(s) > 0 && wrote(answer(s, 0), value) ==> run == (
                Ok::<Option<Seq<char>>, StopView>(Some(value)),
                behind(s, 1),
            )
            &&& left(s) > 0 && (answer(s, 0) matches Reply::Exit { success, code, .. } && !success
                && code == Some(1i32)) ==> run == (
                Ok::<Option<Seq<char>>, StopView>(None),
                behind(s, 1),
            )
            &&& left(s) > 0 && (answer(s, 0) matches Reply::Exit { success, code, .. } && !success
                && code != Some(1i32)) ==> run.0 matches Err(
                StopView::Fail(GitAiErrorView::GitCliError { .. }),
            )
        }),
{
    if left(s) > 0 && wrote(answer(s, 0), value) {
        law_trimmed_line(value);
    }
}

/// A text that is one line, without white space at its ends.
pub open spec fn is_one_line(text: Seq<char>) -> bool {
    trimmed(text) == text && !text.contains('\n') && (text.len() > 0 ==> text.last() != '\r')
}

/// Git ended well and wrote a name, an email and a time, each on a line.
pub open spec fn wrote_signature(reply: Reply, signature: SignatureView) -> bool {
    &&& is_one_line(signature.name)
    &&& is_one_line(signature.email)
    &&& is_one_line(signature.time_iso8601)
    &&& (reply matches Reply::Exit { success, stdout, .. } && success && utf8_text(stdout@) == Some(
        signature.name.push('\n') + (signature.email.push('\n') + signature.time_iso8601.push('\n')),
    ))
}

/// A signature is read back from the three lines that it is written on.
pub proof fn law_signature_is_read(name: Seq<char>, email: Seq<char>, time: Seq<char>)
    requires
        is_one_line(name),
        is_one_line(email),
        is_one_line(time),
    ensures
        signature_of(name.push('\n') + (email.push('\n') + time.push('\n'))) == (SignatureView {
            name,
            email,
            time_iso8601: time,
        }),
{
    let last = time.push('\n');
    law_lines_are_read_back(name, email.push('\n') + last);
    law_lines_are_read_back(email, last);
    law_lines_are_read_back(time, Seq::empty());
    assert(lines_of(name.push('\n') + (email.push('\n') + last)) =~= seq![name, email, time]);
}

/// Who wrote a commit, and who committed it: git is asked for each of the two, and what it writes is
/// the answer.
pub proof fn law_author_and_committer_of(
    repo: RepositoryView,
    oid: Seq<char>,
    signature: SignatureView,
    s: Tape,
)
    requires
        0 <= s.next <= s.replies.len(),
    ensures
        ({
            let question = |format: Seq<char>|
                git_command(
                    repo.args().push("show"@).push("-s"@).push("--no-notes"@).push(
                        "--encoding=UTF-8"@,
                    ).push(format).push(oid),
                );
            &&& left(s) == 0 ==> waits_for(
                author_run(repo, oid, s),
                question("--format=%an%n%ae%n%aI"@),
            )
            &&& left(s) == 0 ==> waits_for(
                committer_run(repo, oid, s),
                question("--format=%cn%n%ce%n%cI"@),
            )
        }),
        left(s) > 0 && wrote_signature(answer(s, 0), signature) ==> author_run(repo, oid, s) == (
            Ok::<SignatureView, StopView>(signature),
            behind(s, 1),
        ) && committer_run(repo, oid, s) == (
            Ok::<SignatureView, StopView>(signature),
            behind(s, 1),
        ),
{
    if left(s) > 0 && wrote_signature(answer(s, 0), signature) {
        law_signature_is_read(signature.name, signature.email, signature.time_iso8601);
    }
}

/// Going on behind some answers is going on among them.
pub proof fn lemma_behind(s: Tape, n: int)
    ensures
        left(behind(s, n)) == left(s) - n,
        forall|i: int| #[trigger] answer(behind(s, n), i) == answer(s, n + i),
        forall|i: int| #[trigger] behind(behind(s, n), i) == behind(s, n + i),
{
}

/// A git command that ends badly is a failure that says with which exit code, what git wrote to
/// standard error, and which command it was; what git writes must be text where text is asked for;
/// and an answer of another kind than was asked for is none.
pub proof fn law_git_failure(s: Tape, args: Seq<Seq<char>>)
    requires
        0 <= s.next <= s.replies.len(),
        left(s) > 0,
    ensures
        match answer(s, 0) {
            Reply::Exit { success, code, stdout, stderr } => if success {
                &&& git_bytes(s, args) == (Ok::<Seq<u8>, StopView>(stdout@), behind(s, 1))
                &&& utf8_text(stdout@) is None ==> git_text(s, args) == (
                    Err::<Seq<char>, StopView>(StopView::Fail(GitAiErrorView::FromUtf8Error)),
                    behind(s, 1),
                )
                &&& (utf8_text(stdout@) matches Some(text) ==> git_text(s, args) == (
                    Ok::<Seq<char>, StopView>(text),
                    behind(s, 1),
                ))
            } else {
                git_bytes(s, args) == (
                    Err::<Seq<u8>, StopView>(
                        StopView::Fail(
                            GitAiErrorView::GitCliError { code, stderr: utf8_lossy(stderr@), args },
                        ),
                    ),
                    behind(s, 1),
                )
            },
            Reply::NotRun(message) => git_bytes(s, args) == (
                Err::<Seq<u8>, StopView>(StopView::Fail(GitAiErrorView::IoError(message@))),
                behind(s, 1),
            ),
            _ => git_bytes(s, args).0 == Err::<Seq<u8>, StopView>(StopView::Mismatch),
        },
{
}

} // verus!
