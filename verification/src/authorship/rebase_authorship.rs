//! Authorship logs for commits that were made out of other commits.
use crate::assoc::{by_key, keys_unique, law_order_is_unique, put, sort_by_key, with_value};
use crate::authorship::authorship_log::{
    Author, AuthorView, AuthorshipLog, AuthorshipLogView, FileAttestationView, PromptRecord,
    PromptRecordView,
};
use crate::authorship::reconstruction::{
    all_fit, as_numbers, blamed_once, build_log, collect_inserted, inserted_lines,
    law_log_says_once, law_matched_lines, log_fits, log_of, match_inserted, matched_lines,
    says_once, BlamedLine, BlamedLineView,
};
use crate::authorship::working_log::{
    Checkpoint, CheckpointKind, CheckpointView, WorkingLogEntry, WorkingLogEntryView,
};
use crate::changes::{are_comparable, comparable, diff_texts, text_changes};
use crate::digest::{sha256, sha256_hex};
use crate::error::{generic, GitAiError, GitAiErrorView};
use crate::git::records::{BlameHunk, Delta};
use crate::git::repository::{
    author_run, commit_ids, commit_run, committer_run, find_run, get_path_run, merge_base_run,
    merge_favor_ours_run, parent_run, rev_parse_run, tree_run, Commit, ObjectView, Repository,
    RepositoryView, SignatureView, Tree,
};
use crate::git::rewrite_log::{RewriteLogEvent, RewriteLogEventView};
use crate::session::{
    aborted, asked, asked_checkpoints, asked_done, asked_log, asked_text, caught, catch, failed,
    git_bytes, git_line, git_output, git_output_line, must, or_fail, printed, seen, word, Reply,
    Request, RequestView, Run, Session, Stop, StopView, Tape,
};
use crate::text::{
    from_utf8, from_utf8_lossy, join2, join3, lines, lines_of, same, utf8_lossy, utf8_text,
};
use vstd::prelude::*;
use vstd::utf8::encode_utf8;

verus! {

broadcast use vstd::seq::group_seq_axioms;

// ---------------------------------------------------------------------------------------------
// Blame
// ---------------------------------------------------------------------------------------------
/// The parts of a file that commits last changed.
pub open spec fn asked_hunks(s: Tape, request: RequestView) -> Run<Seq<BlameHunk>> {
    match asked(s, request) {
        (Ok(Reply::Hunks(Ok(hunks))), s1) => (Ok(hunks@), s1),
        (Ok(Reply::Hunks(Err(e))), s1) => failed(e.deep_view(), s1),
        (Ok(_), s1) => (Err(StopView::Mismatch), s1),
        (Err(stop), s1) => (Err(stop), s1),
    }
}

/// Who wrote a line, and the session of it where an AI did.
pub type AttributionView = Option<(AuthorView, Option<PromptRecordView>)>;

/// What an authorship log says of a line.
pub open spec fn asked_attribution(s: Tape, request: RequestView) -> Run<AttributionView> {
    match asked(s, request) {
        (Ok(Reply::Attribution(found)), s1) => (Ok(found.deep_view()), s1),
        (Ok(_), s1) => (Err(StopView::Mismatch), s1),
        (Err(stop), s1) => (Err(stop), s1),
    }
}

/// Who wrote a line, and where an AI did, its session and the turn in it.
pub type BlameView = Option<(AuthorView, Option<(PromptRecordView, u32)>)>;

/// The author whom git names for a commit.
pub open spec fn git_author_of(signature: SignatureView) -> AuthorView {
    AuthorView {
        username: if signature.name.len() == 0 {
            "unknown"@
        } else {
            signature.name
        },
        email: signature.email,
    }
}

/// The author whom git names for a commit.
pub open spec fn git_author_run(repo: RepositoryView, commit: Seq<char>, s: Tape) -> Run<
    BlameView,
> {
    match find_run(repo, "commit"@, commit, s) {
        (Ok(_), s1) => match author_run(repo, commit, s1) {
            (Ok(signature), s2) => (Ok(Some((git_author_of(signature), None))), s2),
            (Err(stop), s2) => (Err(stop), s2),
        },
        (Err(stop), s1) => (Err(stop), s1),
    }
}

/// What the authorship log of a commit says of a line, or git's author where it says nothing or
/// there is no log.
pub open spec fn attributed_run(
    repo: RepositoryView,
    commit: Seq<char>,
    file: Seq<char>,
    number: u32,
    s: Tape,
) -> Run<BlameView> {
    match asked_done(s, RequestView::FetchLog { commit }) {
        (Ok(Ok(_)), s1) => match asked_attribution(
            s1,
            RequestView::LineAttribution { commit, file, number },
        ) {
            (Ok(Some((author, prompt))), s2) => (
                Ok(
                    Some(
                        (
                            author,
                            match prompt {
                                Some(p) => Some((p, 0u32)),
                                None => None,
                            },
                        ),
                    ),
                ),
                s2,
            ),
            (Ok(None), s2) => git_author_run(repo, commit, s2),
            (Err(stop), s2) => (Err(stop), s2),
        },
        (Ok(Err(_)), s1) => git_author_run(repo, commit, s1),
        (Err(stop), s1) => (Err(stop), s1),
    }
}

/// Who wrote a line of a file, as seen from a commit: what is said of the line under its number in
/// the commit that last changed it.
pub open spec fn blame_run(
    repo: RepositoryView,
    file: Seq<char>,
    line: u32,
    hanging: Seq<char>,
    s: Tape,
) -> Run<BlameView> {
    match find_run(repo, "commit"@, hanging, s) {
        (Ok(_), s1) => match asked_hunks(
            s1,
            RequestView::BlameHunks { file, first: line, last: line, newest: hanging },
        ) {
            (Ok(hunks), s2) => if hunks.len() == 0 {
                (Ok(None), s2)
            } else {
                attributed_run(repo, hunks[0].commit_sha@, file, hunks[0].orig_range.0, s2)
            },
            (Err(stop), s2) => (Err(stop), s2),
        },
        (Err(stop), s1) => (Err(stop), s1),
    }
}

fn find_git_author(repo: &Repository, commit_sha: &str, session: &mut Session) -> (r: Result<
    Option<(Author, Option<(PromptRecord, u32)>)>,
    Stop,
>)
    ensures
        (seen(r), final(session)@) == git_author_run(
            repo.deep_view(),
            commit_sha@,
            old(session)@,
        ),
{
    let commit = repo.find_commit(commit_sha.to_string(), session)?;
    let author = commit.author(session)?;
    let author_info = Author {
        username: match author.name() {
            Some(name) => name.to_string(),
            None => "unknown".to_string(),
        },
        email: match author.email() {
            Some(email) => email.to_string(),
            None => String::new(),
        },
    };
    assert(author_info.deep_view().email =~= author.deep_view().email);
    assert(author_info.deep_view() == git_author_of(author.deep_view()));
    Ok(Some((author_info, None)))
}

/// Run blame on a specific line in the context of a hanging commit and return AI authorship info
///
/// This function runs blame on a specific line number in a file, then looks up the AI authorship
/// log for the blamed commit to get the full authorship information including prompt details.
///
/// # Arguments
/// * `repo` - Git repository
/// * `file_path` - Path to the file
/// * `line_number` - Line number to blame (1-indexed)
/// * `hanging_commit_sha` - SHA of the hanging commit to use as context
///
/// # Returns
/// The AI authorship information (author and prompt) for the line, or None if not found
pub fn run_blame_in_context(
    repo: &Repository,
    file_path: &str,
    line_number: u32,
    hanging_commit_sha: &str,
    session: &mut Session,
) -> (r: Result<Option<(Author, Option<(PromptRecord, u32)>)>, Stop>)
    ensures
        (seen(r), final(session)@) == blame_run(
            repo.deep_view(),
            file_path@,
            line_number,
            hanging_commit_sha@,
            old(session)@,
        ),
{
    // Find the hanging commit
    let hanging_commit = repo.find_commit(hanging_commit_sha.to_string(), session)?;
    // Run blame on the file in the context of the hanging commit
    let blame = match session.ask(
        Request::BlameHunks {
            file: file_path.to_string(),
            first: line_number,
            last: line_number,
            newest: hanging_commit.id(),
        },
    )? {
        Reply::Hunks(Ok(hunks)) => hunks,
        Reply::Hunks(Err(e)) => {
            return Err(Stop::Fail(e.clone()));
        },
        _ => {
            return Err(Stop::Mismatch);
        },
    };
    if blame.len() == 0 {
        return Ok(None);
    }
    let commit_sha: &String = &blame[0].commit_sha;
    // Look up the AI authorship log for this commit
    match session.ask_done(Request::FetchLog { commit: commit_sha.clone() })? {
        Ok(()) => {},
        Err(_) => {
            // No AI authorship data for this commit, fall back to git author
            return find_git_author(repo, commit_sha.as_str(), session);
        },
    }
    // Get the line attribution from the AI authorship log
    // Use the ORIGINAL line number from the blamed commit, not the current line number
    match session.ask(
        Request::LineAttribution {
            commit: commit_sha.clone(),
            file: file_path.to_string(),
            number: blame[0].orig_range.0,
        },
    )? {
        Reply::Attribution(Some((author, prompt))) => {
            let turn: Option<(PromptRecord, u32)> = match prompt {
                Some(p) => Some((p.clone(), 0)),
                None => None,
            };
            Ok(Some((author.clone(), turn)))
        },
        // Line not found in authorship log, fall back to git author
        Reply::Attribution(None) => find_git_author(repo, commit_sha.as_str(), session),
        _ => Err(Stop::Mismatch),
    }
}

// ---------------------------------------------------------------------------------------------
// Reconstruction
// ---------------------------------------------------------------------------------------------
/// The files that differ between two trees.
pub open spec fn asked_deltas(s: Tape, old_tree: Seq<char>, new_tree: Seq<char>) -> Run<
    Seq<Delta>,
> {
    match asked(s, RequestView::DiffTrees { old_tree, new_tree }) {
        (Ok(Reply::Deltas(Ok(deltas))), s1) => (Ok(deltas@), s1),
        (Ok(Reply::Deltas(Err(e))), s1) => failed(e.deep_view(), s1),
        (Ok(_), s1) => (Err(StopView::Mismatch), s1),
        (Err(stop), s1) => (Err(stop), s1),
    }
}

pub open spec fn seen_deltas(r: Result<&Vec<Delta>, Stop>) -> Result<Seq<Delta>, StopView> {
    match r {
        Ok(deltas) => Ok(deltas@),
        Err(stop) => Err(stop.deep_view()),
    }
}

fn diff_tree_to_tree<'a>(
    old_tree: &Tree<'_>,
    new_tree: &Tree<'_>,
    session: &mut Session<'a>,
) -> (r: Result<&'a Vec<Delta>, Stop>)
    ensures
        (seen_deltas(r), final(session)@) == asked_deltas(
            old(session)@,
            old_tree.deep_view().oid,
            new_tree.deep_view().oid,
        ),
{
    match session.ask(Request::DiffTrees { old_tree: old_tree.id(), new_tree: new_tree.id() })? {
        Reply::Deltas(Ok(deltas)) => Ok(deltas),
        Reply::Deltas(Err(e)) => Err(Stop::Fail(e.clone())),
        _ => Err(Stop::Mismatch),
    }
}

/// The content of a file in a tree; no text where the tree has no such file.
pub open spec fn content_run(
    repo: RepositoryView,
    tree: ObjectView,
    path: Seq<char>,
    s: Tape,
) -> Run<Seq<char>> {
    match caught(get_path_run(tree.repo, tree.oid, path, s)) {
        (Ok(Ok(entry)), s1) => match caught(find_run(repo, "blob"@, entry.oid, s1)) {
            (Ok(Ok(_)), s2) => match git_bytes(
                s2,
                repo.args().push("cat-file"@).push("blob"@).push(entry.oid),
            ) {
                (Ok(bytes), s3) => (Ok(utf8_lossy(bytes)), s3),
                (Err(stop), s3) => (Err(stop), s3),
            },
            (Ok(Err(_)), s2) => (Ok(Seq::empty()), s2),
            (Err(stop), s2) => (Err(stop), s2),
        },
        (Ok(Err(_)), s1) => (Ok(Seq::empty()), s1),
        (Err(stop), s1) => (Err(stop), s1),
    }
}

fn read_content(repo: &Repository, tree: &Tree<'_>, path: &str, session: &mut Session) -> (r: Result<
    String,
    Stop,
>)
    ensures
        (seen(r), final(session)@) == content_run(
            repo.deep_view(),
            tree.deep_view(),
            path@,
            old(session)@,
        ),
{
    match catch(tree.get_path(path, session))? {
        Ok(entry) => match catch(repo.find_blob(entry.id(), session))? {
            Ok(blob) => {
                let bytes = blob.content(session)?;
                Ok(from_utf8_lossy(bytes.as_slice()))
            },
            Err(_) => {
                let none = String::new();
                assert(none@ =~= Seq::empty());
                Ok(none)
            },
        },
        Err(_) => {
            let none = String::new();
            assert(none@ =~= Seq::empty());
            Ok(none)
        },
    }
}

/// The numbers of the lines of the hanging content in which the lines inserted from the old to the
/// new content are found again.
pub open spec fn found_again(old: Seq<char>, new: Seq<char>, hanging: Seq<char>) -> Seq<int> {
    matched_lines(inserted_lines(text_changes(old, new)), lines_of(hanging))
}

/// Lines are blamed one after the other; those of which nothing is found are left out.
pub open spec fn blame_lines_run(
    repo: RepositoryView,
    file: Seq<char>,
    hanging: Seq<char>,
    numbers: Seq<u32>,
    i: int,
    done: Seq<BlamedLineView>,
    s: Tape,
) -> Run<Seq<BlamedLineView>>
    decreases numbers.len() - i,
{
    if i < 0 || i >= numbers.len() {
        (Ok(done), s)
    } else {
        match caught(blame_run(repo, file, numbers[i], hanging, s)) {
            (Ok(Ok(Some((_, prompt)))), s1) => blame_lines_run(
                repo,
                file,
                hanging,
                numbers,
                i + 1,
                done.push(
                    BlamedLineView {
                        file,
                        line: numbers[i],
                        prompt: match prompt {
                            Some((p, _)) => Some(p),
                            None => None,
                        },
                    },
                ),
                s1,
            ),
            (Ok(_), s1) => blame_lines_run(repo, file, hanging, numbers, i + 1, done, s1),
            (Err(stop), s1) => (Err(stop), s1),
        }
    }
}

fn blame_lines(
    repo: &Repository,
    file: &str,
    hanging: &str,
    numbers: &Vec<u32>,
    done: &mut Vec<BlamedLine>,
    session: &mut Session,
) -> (r: Result<(), Stop>)
    ensures
        match r {
            Ok(()) => blame_lines_run(
                repo.deep_view(),
                file@,
                hanging@,
                numbers@,
                0,
                old(done).deep_view(),
                old(session)@,
            ) == (
                Ok::<Seq<BlamedLineView>, StopView>(final(done).deep_view()),
                final(session)@,
            ),
            Err(stop) => blame_lines_run(
                repo.deep_view(),
                file@,
                hanging@,
                numbers@,
                0,
                old(done).deep_view(),
                old(session)@,
            ) == (Err::<Seq<BlamedLineView>, StopView>(stop.deep_view()), final(session)@),
        },
{
    let ghost whole = blame_lines_run(
        repo.deep_view(),
        file@,
        hanging@,
        numbers@,
        0,
        done.deep_view(),
        session@,
    );
    let mut i: usize = 0;
    while i < numbers.len()
        invariant
            i <= numbers@.len(),
            blame_lines_run(
                repo.deep_view(),
                file@,
                hanging@,
                numbers@,
                i as int,
                done.deep_view(),
                session@,
            ) == whole,
            whole == blame_lines_run(
                repo.deep_view(),
                file@,
                hanging@,
                numbers@,
                0,
                old(done).deep_view(),
                old(session)@,
            ),
        decreases numbers@.len() - i,
    {
        let number: u32 = numbers[i];
        let ghost before = done.deep_view();
        // Handle blame errors gracefully (e.g., file doesn't exist in hanging commit)
        match catch(run_blame_in_context(repo, file, number, hanging, session)) {
            Ok(Ok(Some((_, prompt)))) => {
                let entry = BlamedLine {
                    file: file.to_string(),
                    line: number,
                    prompt: match prompt {
                        Some((p, _)) => Some(p),
                        None => None,
                    },
                };
                done.push(entry);
                assert(done.deep_view() =~= before.push(entry.deep_view()));
            },
            Ok(_) => {},
            Err(stop) => {
                return Err(stop);
            },
        }
        i = i + 1;
    }
    Ok(())
}

/// The path of a file that differs: the new one where there is one.
pub open spec fn delta_path(delta: Delta) -> Option<Seq<char>> {
    match delta.new_path {
        Some(path) => Some(path@),
        None => match delta.old_path {
            Some(path) => Some(path@),
            None => None,
        },
    }
}

/// The lines that a file has more, blamed as seen from the hanging commit.
pub open spec fn file_run(
    repo: RepositoryView,
    parent_tree: ObjectView,
    new_tree: ObjectView,
    hanging: Seq<char>,
    path: Seq<char>,
    done: Seq<BlamedLineView>,
    s: Tape,
) -> Run<Seq<BlamedLineView>> {
    match content_run(repo, parent_tree, path, s) {
        (Ok(old_content), s1) => match content_run(repo, new_tree, path, s1) {
            (Ok(new_content), s2) => match find_run(repo, "commit"@, hanging, s2) {
                (Ok(_), s3) => match tree_run(repo, hanging, s3) {
                    (Ok(tree), s4) => match content_run(repo, tree, path, s4) {
                        (Ok(hanging_content), s5) => {
                            let numbers = found_again(old_content, new_content, hanging_content);
                            if comparable(old_content, new_content) && all_fit(numbers) {
                                blame_lines_run(
                                    repo,
                                    path,
                                    hanging,
                                    as_numbers(numbers),
                                    0,
                                    done,
                                    s5,
                                )
                            } else {
                                aborted("attempt to add with overflow"@, s5)
                            }
                        },
                        (Err(stop), s5) => (Err(stop), s5),
                    },
                    (Err(stop), s4) => (Err(stop), s4),
                },
                (Err(stop), s3) => (Err(stop), s3),
            },
            (Err(stop), s2) => (Err(stop), s2),
        },
        (Err(stop), s1) => (Err(stop), s1),
    }
}

/// The lines that the files have more, blamed as seen from the hanging commit.
pub open spec fn files_run(
    repo: RepositoryView,
    parent_tree: ObjectView,
    new_tree: ObjectView,
    hanging: Seq<char>,
    deltas: Seq<Delta>,
    i: int,
    done: Seq<BlamedLineView>,
    s: Tape,
) -> Run<Seq<BlamedLineView>>
    decreases deltas.len() - i,
{
    if i < 0 || i >= deltas.len() {
        (Ok(done), s)
    } else {
        match delta_path(deltas[i]) {
            Some(path) => match file_run(repo, parent_tree, new_tree, hanging, path, done, s) {
                (Ok(more), s1) => files_run(
                    repo,
                    parent_tree,
                    new_tree,
                    hanging,
                    deltas,
                    i + 1,
                    more,
                    s1,
                ),
                (Err(stop), s1) => (Err(stop), s1),
            },
            None => failed(GitAiErrorView::Generic("File path not available"@), s),
        }
    }
}

/// The authorship log of what a commit has more than its parent, by blame as seen from the hanging
/// commit.
pub open spec fn reconstruct_run(
    repo: RepositoryView,
    new_commit: ObjectView,
    parent: ObjectView,
    hanging: Seq<char>,
    s: Tape,
) -> Run<AuthorshipLogView> {
    match tree_run(new_commit.repo, new_commit.oid, s) {
        (Ok(new_tree), s1) => match tree_run(parent.repo, parent.oid, s1) {
            (Ok(parent_tree), s2) => match asked_deltas(s2, parent_tree.oid, new_tree.oid) {
                (Ok(deltas), s3) => match files_run(
                    repo,
                    parent_tree,
                    new_tree,
                    hanging,
                    deltas,
                    0,
                    Seq::empty(),
                    s3,
                ) {
                    (Ok(blamed), s4) => if log_fits(blamed) {
                        (Ok(log_of(blamed)), s4)
                    } else {
                        aborted("attempt to add with overflow"@, s4)
                    },
                    (Err(stop), s4) => (Err(stop), s4),
                },
                (Err(stop), s3) => (Err(stop), s3),
            },
            (Err(stop), s2) => (Err(stop), s2),
        },
        (Err(stop), s1) => (Err(stop), s1),
    }
}

/// No two of the files that differ have the same path.
pub open spec fn paths_distinct(deltas: Seq<Delta>) -> bool {
    forall|i: int, j: int|
        0 <= i < j < deltas.len() && delta_path(#[trigger] deltas[i]) is Some ==> delta_path(
            deltas[i],
        ) != delta_path(#[trigger] deltas[j])
}

/// One of the first `i` of the files that differ has this path.
spec fn named_before(deltas: Seq<Delta>, i: int, file: Seq<char>) -> bool {
    exists|m: int| 0 <= m < i && delta_path(#[trigger] deltas[m]) == Some(file)
}

/// One of the first `i` numbers is this.
spec fn numbered_before(numbers: Seq<u32>, i: int, n: u32) -> bool {
    exists|m: int| 0 <= m < i && #[trigger] numbers[m] == n
}

proof fn lemma_blame_lines_once(
    repo: RepositoryView,
    file: Seq<char>,
    hanging: Seq<char>,
    numbers: Seq<u32>,
    i: int,
    done: Seq<BlamedLineView>,
    s: Tape,
    deltas: Seq<Delta>,
    d: int,
)
    requires
        0 <= i,
        numbers.no_duplicates(),
        blamed_once(done),
        0 <= d < deltas.len(),
        delta_path(deltas[d]) == Some(file),
        forall|k: int|
            0 <= k < done.len() ==> named_before(deltas, d + 1, (#[trigger] done[k]).file),
        forall|k: int|
            0 <= k < done.len() && (#[trigger] done[k]).file == file ==> numbered_before(
                numbers,
                i,
                done[k].line,
            ),
    ensures
        blame_lines_run(repo, file, hanging, numbers, i, done, s).0 matches Ok(more)
            ==> blamed_once(more) && forall|k: int|
            0 <= k < more.len() ==> named_before(deltas, d + 1, (#[trigger] more[k]).file),
    decreases numbers.len() - i,
{
    if i < numbers.len() {
        assert forall|k: int|
            0 <= k < done.len() && (#[trigger] done[k]).file == file implies numbered_before(
            numbers,
            i + 1,
            done[k].line,
        ) by {
            let m = choose|m: int| 0 <= m < i && #[trigger] numbers[m] == done[k].line;
            assert(0 <= m < i + 1 && numbers[m] == done[k].line);
        }
        match caught(blame_run(repo, file, numbers[i], hanging, s)) {
            (Ok(Ok(Some((author, prompt)))), s1) => {
                let line = BlamedLineView {
                    file,
                    line: numbers[i],
                    prompt: match prompt {
                        Some((p, _)) => Some(p),
                        None => None,
                    },
                };
                let more = done.push(line);
                assert forall|k: int| 0 <= k < more.len() implies named_before(
                    deltas,
                    d + 1,
                    (#[trigger] more[k]).file,
                ) by {
                    if k < done.len() {
                        assert(more[k] == done[k]);
                    } else {
                        assert(delta_path(deltas[d]) == Some(more[k].file));
                    }
                }
                assert forall|k: int|
                    0 <= k < more.len() && (#[trigger] more[k]).file == file implies
                    numbered_before(numbers, i + 1, more[k].line) by {
                    if k < done.len() {
                        assert(more[k] == done[k]);
                    } else {
                        assert(numbers[i] == more[k].line);
                    }
                }
                assert forall|k: int, m: int| 0 <= k < m < more.len() implies !((
                #[trigger] more[k]).file == (#[trigger] more[m]).file && more[k].line
                    == more[m].line) by {
                    assert(more[k] == done[k]);
                    if m < done.len() {
                        assert(more[m] == done[m]);
                    } else if done[k].file == file && done[k].line == numbers[i] {
                        let j = choose|j: int| 0 <= j < i && #[trigger] numbers[j] == done[k].line;
                        assert(numbers[j] == numbers[i]);
                    }
                }
                lemma_blame_lines_once(
                    repo,
                    file,
                    hanging,
                    numbers,
                    i + 1,
                    more,
                    s1,
                    deltas,
                    d,
                );
            },
            (Ok(_), s1) => {
                lemma_blame_lines_once(
                    repo,
                    file,
                    hanging,
                    numbers,
                    i + 1,
                    done,
                    s1,
                    deltas,
                    d,
                );
            },
            (Err(_), _) => {},
        }
    }
}

proof fn lemma_file_once(
    repo: RepositoryView,
    parent_tree: ObjectView,
    new_tree: ObjectView,
    hanging: Seq<char>,
    done: Seq<BlamedLineView>,
    s: Tape,
    deltas: Seq<Delta>,
    d: int,
)
    requires
        blamed_once(done),
        paths_distinct(deltas),
        0 <= d < deltas.len(),
        delta_path(deltas[d]) is Some,
        forall|k: int| 0 <= k < done.len() ==> named_before(deltas, d, (#[trigger] done[k]).file),
    ensures
        file_run(
            repo,
            parent_tree,
            new_tree,
            hanging,
            delta_path(deltas[d])->Some_0,
            done,
            s,
        ).0 matches Ok(more) ==> blamed_once(more) && forall|k: int|
            0 <= k < more.len() ==> named_before(deltas, d + 1, (#[trigger] more[k]).file),
{
    let path = delta_path(deltas[d])->Some_0;
    assert forall|k: int| 0 <= k < done.len() implies named_before(
        deltas,
        d + 1,
        (#[trigger] done[k]).file,
    ) && done[k].file != path by {
        let m = choose|m: int| 0 <= m < d && delta_path(#[trigger] deltas[m]) == Some(done[k].file);
        assert(0 <= m < d + 1 && delta_path(deltas[m]) == Some(done[k].file));
    }
    if let (Ok(old_content), s1) = content_run(repo, parent_tree, path, s) {
        if let (Ok(new_content), s2) = content_run(repo, new_tree, path, s1) {
            if let (Ok(_), s3) = find_run(repo, "commit"@, hanging, s2) {
                if let (Ok(tree), s4) = tree_run(repo, hanging, s3) {
                    if let (Ok(hanging_content), s5) = content_run(repo, tree, path, s4) {
                        let numbers = found_again(old_content, new_content, hanging_content);
                        if all_fit(numbers) {
                            law_matched_lines(
                                inserted_lines(text_changes(old_content, new_content)),
                                lines_of(hanging_content),
                            );
                            let places = as_numbers(numbers);
                            assert forall|i: int, j: int|
                                0 <= i < places.len() && 0 <= j < places.len() && i != j implies
                                places[i] != places[j] by {
                                assert(numbers[i] != numbers[j]);
                            }
                            lemma_blame_lines_once(
                                repo,
                                path,
                                hanging,
                                places,
                                0,
                                done,
                                s5,
                                deltas,
                                d,
                            );
                        }
                    }
                }
            }
        }
    }
}

proof fn lemma_files_once(
    repo: RepositoryView,
    parent_tree: ObjectView,
    new_tree: ObjectView,
    hanging: Seq<char>,
    deltas: Seq<Delta>,
    i: int,
    done: Seq<BlamedLineView>,
    s: Tape,
)
    requires
        0 <= i,
        paths_distinct(deltas),
        blamed_once(done),
        forall|k: int| 0 <= k < done.len() ==> named_before(deltas, i, (#[trigger] done[k]).file),
    ensures
        files_run(repo, parent_tree, new_tree, hanging, deltas, i, done, s).0 matches Ok(blamed)
            ==> blamed_once(blamed),
    decreases deltas.len() - i,
{
    if i < deltas.len() {
        if let Some(path) = delta_path(deltas[i]) {
            lemma_file_once(repo, parent_tree, new_tree, hanging, done, s, deltas, i);
            if let (Ok(more), s1) = file_run(
                repo,
                parent_tree,
                new_tree,
                hanging,
                path,
                done,
                s,
            ) {
                lemma_files_once(repo, parent_tree, new_tree, hanging, deltas, i + 1, more, s1);
            }
        }
    }
}

/// Where no two of the files that differ have the same path, no line of a file is blamed twice.
pub proof fn law_files_are_blamed_once(
    repo: RepositoryView,
    parent_tree: ObjectView,
    new_tree: ObjectView,
    hanging: Seq<char>,
    deltas: Seq<Delta>,
    s: Tape,
)
    requires
        paths_distinct(deltas),
    ensures
        files_run(
            repo,
            parent_tree,
            new_tree,
            hanging,
            deltas,
            0,
            Seq::empty(),
            s,
        ).0 matches Ok(blamed) ==> blamed_once(blamed),
{
    lemma_files_once(repo, parent_tree, new_tree, hanging, deltas, 0, Seq::empty(), s);
}

/// The files that are said to differ between a commit and its parent have distinct paths.
pub open spec fn changes_distinct(new_commit: ObjectView, parent: ObjectView, s: Tape) -> bool {
    match tree_run(new_commit.repo, new_commit.oid, s) {
        (Ok(new_tree), s1) => match tree_run(parent.repo, parent.oid, s1) {
            (Ok(parent_tree), s2) => match asked_deltas(s2, parent_tree.oid, new_tree.oid) {
                (Ok(deltas), _) => paths_distinct(deltas),
                (Err(_), _) => true,
            },
            (Err(_), _) => true,
        },
        (Err(_), _) => true,
    }
}

/// A reconstructed log says of each line of a file at most once who wrote it, in ranges that are in
/// ascending order and apart, where the files that differ have distinct paths.
pub proof fn law_reconstructed_log_says_once(
    repo: RepositoryView,
    new_commit: ObjectView,
    parent: ObjectView,
    hanging: Seq<char>,
    s: Tape,
)
    requires
        changes_distinct(new_commit, parent, s),
    ensures
        reconstruct_run(repo, new_commit, parent, hanging, s).0 matches Ok(log) ==> says_once(log),
{
    if let (Ok(new_tree), s1) = tree_run(new_commit.repo, new_commit.oid, s) {
        if let (Ok(parent_tree), s2) = tree_run(parent.repo, parent.oid, s1) {
            if let (Ok(deltas), s3) = asked_deltas(s2, parent_tree.oid, new_tree.oid) {
                law_files_are_blamed_once(repo, parent_tree, new_tree, hanging, deltas, s3);
                if let (Ok(blamed), s4) = files_run(
                    repo,
                    parent_tree,
                    new_tree,
                    hanging,
                    deltas,
                    0,
                    Seq::empty(),
                    s3,
                ) {
                    law_log_says_once(blamed);
                }
            }
        }
    }
}

fn overflow() -> (r: Stop)
    ensures
        r.deep_view() == StopView::Abort("attempt to add with overflow"@),
{
    Stop::Abort("attempt to add with overflow".to_string())
}

fn blame_file(
    repo: &Repository,
    parent_tree: &Tree<'_>,
    new_tree: &Tree<'_>,
    hanging_commit_sha: &str,
    file_path: &str,
    done: &mut Vec<BlamedLine>,
    session: &mut Session,
) -> (r: Result<(), Stop>)
    ensures
        match r {
            Ok(()) => file_run(
                repo.deep_view(),
                parent_tree.deep_view(),
                new_tree.deep_view(),
                hanging_commit_sha@,
                file_path@,
                old(done).deep_view(),
                old(session)@,
            ) == (
                Ok::<Seq<BlamedLineView>, StopView>(final(done).deep_view()),
                final(session)@,
            ),
            Err(stop) => file_run(
                repo.deep_view(),
                parent_tree.deep_view(),
                new_tree.deep_view(),
                hanging_commit_sha@,
                file_path@,
                old(done).deep_view(),
                old(session)@,
            ) == (Err::<Seq<BlamedLineView>, StopView>(stop.deep_view()), final(session)@),
        },
{
    // Get the content of the file from both trees
    let old_content = read_content(repo, parent_tree, file_path, session)?;
    let new_content = read_content(repo, new_tree, file_path, session)?;
    // Pull the file content from the hanging commit to map inserted text to historical lines
    let hanging_commit = repo.find_commit(hanging_commit_sha.to_string(), session)?;
    let hanging_tree = hanging_commit.tree(session)?;
    let hanging_content = read_content(repo, &hanging_tree, file_path, session)?;
    if !are_comparable(old_content.as_str(), new_content.as_str()) {
        return Err(overflow());
    }
    // Create a text diff between the old and new content

    let changes = diff_texts(old_content.as_str(), new_content.as_str());
    let inserted = collect_inserted(&changes);
    let hanging_lines = lines(hanging_content.as_str());
    // For each inserted line, find the same content in the hanging commit; only lines that exist
    // in it have historical authorship
    match match_inserted(&inserted, &hanging_lines) {
        Some(numbers) => blame_lines(
            repo,
            file_path,
            hanging_commit_sha,
            &numbers,
            done,
            session,
        ),
        None => Err(overflow()),
    }
}

/// Reconstruct authorship history from a diff by running blame in the context of a hanging commit
///
/// This is the core logic that takes the diff between new_commit and new_commit_parent,
/// iterates through each file and hunk, and runs blame in the context of the hanging_commit_sha
/// to reconstruct the pre-squash authorship information.
///
/// # Arguments
/// * `repo` - Git repository
/// * `new_commit` - The new squashed commit
/// * `new_commit_parent` - The parent of the new commit
/// * `hanging_commit_sha` - The hanging commit that contains the pre-squash history
///
/// # Returns
/// A new AuthorshipLog with reconstructed authorship information
pub fn reconstruct_authorship_from_diff(
    repo: &Repository,
    new_commit: &Commit<'_>,
    new_commit_parent: &Commit<'_>,
    hanging_commit_sha: &str,
    session: &mut Session,
) -> (r: Result<AuthorshipLog, Stop>)
    ensures
        (seen(r), final(session)@) == reconstruct_run(
            repo.deep_view(),
            new_commit.deep_view(),
            new_commit_parent.deep_view(),
            hanging_commit_sha@,
            old(session)@,
        ),
{
    // Get the trees for the diff
    let new_tree = new_commit.tree(session)?;
    let parent_tree = new_commit_parent.tree(session)?;
    // Create diff between new_commit and new_commit_parent using Git CLI
    let deltas = diff_tree_to_tree(&parent_tree, &new_tree, session)?;
    let mut authorship_entries: Vec<BlamedLine> = Vec::new();
    assert(authorship_entries.deep_view() =~= Seq::empty());
    let ghost whole = files_run(
        repo.deep_view(),
        parent_tree.deep_view(),
        new_tree.deep_view(),
        hanging_commit_sha@,
        deltas@,
        0,
        Seq::empty(),
        session@,
    );
    let ghost run = reconstruct_run(
        repo.deep_view(),
        new_commit.deep_view(),
        new_commit_parent.deep_view(),
        hanging_commit_sha@,
        old(session)@,
    );
    let mut i: usize = 0;
    // Iterate through each file in the diff
    while i < deltas.len()
        invariant
            i <= deltas@.len(),
            files_run(
                repo.deep_view(),
                parent_tree.deep_view(),
                new_tree.deep_view(),
                hanging_commit_sha@,
                deltas@,
                i as int,
                authorship_entries.deep_view(),
                session@,
            ) == whole,
            match whole {
                (Err(stop), s1) => run == (Err::<AuthorshipLogView, StopView>(stop), s1),
                (Ok(_), _) => true,
            },
            run == reconstruct_run(
                repo.deep_view(),
                new_commit.deep_view(),
                new_commit_parent.deep_view(),
                hanging_commit_sha@,
                old(session)@,
            ),
        decreases deltas@.len() - i,
    {
        // Use the new file path if available, otherwise old file path
        let file_path: &String = match &deltas[i].new_path {
            Some(path) => path,
            None => match &deltas[i].old_path {
                Some(path) => path,
                None => {
                    return Err(Stop::Fail(generic("File path not available")));
                },
            },
        };
        blame_file(
            repo,
            &parent_tree,
            &new_tree,
            hanging_commit_sha,
            file_path.as_str(),
            &mut authorship_entries,
            session,
        )?;
        i = i + 1;
    }
    // Convert the collected entries into an AuthorshipLog
    match build_log(&authorship_entries) {
        Some(log) => Ok(log),
        None => Err(overflow()),
    }
}

// ---------------------------------------------------------------------------------------------
// Hanging commits
// ---------------------------------------------------------------------------------------------
/// A commit that no reference points at, with the author and the committer of another.
pub open spec fn commit_as_run(
    repo: RepositoryView,
    like: Seq<char>,
    message: Seq<char>,
    tree: Seq<char>,
    parent: Seq<char>,
    s: Tape,
) -> Run<Seq<char>> {
    match author_run(repo, like, s) {
        (Ok(author), s1) => match committer_run(repo, like, s1) {
            (Ok(committer), s2) => commit_run(
                repo,
                None,
                author,
                committer,
                message,
                tree,
                seq![parent],
                s2,
            ),
            (Err(stop), s2) => (Err(stop), s2),
        },
        (Err(stop), s1) => (Err(stop), s1),
    }
}

fn commit_as(
    repo: &Repository,
    like: &Commit<'_>,
    message: &str,
    tree: &Tree<'_>,
    parent: &Commit<'_>,
    session: &mut Session,
) -> (r: Result<String, Stop>)
    requires
        like.deep_view().repo == repo.deep_view(),
    ensures
        (seen(r), final(session)@) == commit_as_run(
            repo.deep_view(),
            like.deep_view().oid,
            message@,
            tree.deep_view().oid,
            parent.deep_view().oid,
            old(session)@,
        ),
{
    let author = like.author(session)?;
    let committer = like.committer(session)?;
    let mut parents: Vec<&Commit<'_>> = Vec::new();
    parents.push(parent);
    assert(commit_ids(parents@) =~= seq![parent.deep_view().oid]);
    repo.commit(None, &author, &committer, message, tree, parents.as_slice(), session)
}

/// The message of the commit that merges a difference onto a commit.
pub open spec fn merge_message(base: Seq<char>, parent: Seq<char>, head: Seq<char>) -> Seq<char> {
    "Merge diff from "@ + base + " to "@ + parent + " onto "@ + head
}

/// A hanging commit on top of `head`, with what `parent` has more than `base`.
pub open spec fn apply_merge_run(
    repo: RepositoryView,
    base: Seq<char>,
    parent: Seq<char>,
    head: Seq<char>,
    s: Tape,
) -> Run<Seq<char>> {
    match find_run(repo, "commit"@, base, s) {
        (Ok(_), s1) => match find_run(repo, "commit"@, head, s1) {
            (Ok(_), s2) => match find_run(repo, "commit"@, parent, s2) {
                (Ok(_), s3) => match merge_favor_ours_run(repo, base, head, parent, s3) {
                    (Ok(oid), s4) => match find_run(repo, "tree"@, oid, s4) {
                        (Ok(tree), s5) => commit_as_run(
                            repo,
                            head,
                            merge_message(base, parent, head),
                            tree.oid,
                            head,
                            s5,
                        ),
                        (Err(stop), s5) => (Err(stop), s5),
                    },
                    (Err(stop), s4) => (Err(stop), s4),
                },
                (Err(stop), s3) => (Err(stop), s3),
            },
            (Err(stop), s2) => (Err(stop), s2),
        },
        (Err(stop), s1) => (Err(stop), s1),
    }
}

/// Apply a diff as a merge commit, creating a hanging commit that's not attached to any branch
///
/// This function takes the diff between origin_base and new_commit_parent and applies it
/// to the old_head_sha, creating a merge commit where conflicts are resolved by accepting
/// the old head's version (Accept Theirs strategy).
///
/// # Arguments
/// * `repo` - Git repository
/// * `origin_base` - The common base commit SHA
/// * `new_commit_parent` - The new commit's parent SHA
/// * `old_head_sha` - The HEAD of the old shas history
///
/// # Returns
/// The SHA of the created hanging commit
pub fn apply_diff_as_merge_commit(
    repo: &Repository,
    origin_base: &str,
    new_commit_parent: &str,
    old_head_sha: &str,
    session: &mut Session,
) -> (r: Result<String, Stop>)
    ensures
        (seen(r), final(session)@) == apply_merge_run(
            repo.deep_view(),
            origin_base@,
            new_commit_parent@,
            old_head_sha@,
            old(session)@,
        ),
{
    // Resolve the merge as a real three-way merge of trees
    // base: origin_base, ours: old_head_sha, theirs: new_commit_parent
    // Favor OURS (old_head) on conflicts per comment "OLD Head wins when there's conflicts"
    let base_commit = repo.find_commit(origin_base.to_string(), session)?;
    let ours_commit = repo.find_commit(old_head_sha.to_string(), session)?;
    let theirs_commit = repo.find_commit(new_commit_parent.to_string(), session)?;
    // Get a merged tree oid straight back from merge-tree.
    let tree_oid = repo.merge_commits_favor_ours(
        &base_commit,
        &ours_commit,
        &theirs_commit,
        session,
    )?;
    let merged_tree = repo.find_tree(tree_oid, session)?;
    // Create the hanging commit with ONLY the feature branch (ours) as parent
    // This is critical: by having only one parent, git blame will trace through
    // the feature branch history where AI authorship logs exist, rather than
    // potentially tracing through the target branch lineage
    let start = join3("Merge diff from ", origin_base, " to ");
    let middle = join3(start.as_str(), new_commit_parent, " onto ");
    let message = join2(middle.as_str(), old_head_sha);
    commit_as(repo, &ours_commit, message.as_str(), &merged_tree, &ours_commit, session)
}

/// A hanging commit is let go: git deletes the branch that would keep it, whether or not there is
/// one.
pub open spec fn delete_run(repo: RepositoryView, commit: Seq<char>, s: Tape) -> Run<()> {
    match find_run(repo, "commit"@, commit, s) {
        (Ok(_), s1) => match asked(
            s1,
            RequestView::GitBeside {
                git_dir: repo.git_dir,
                args: seq!["update-ref"@, "-d"@, "refs/heads/temp-"@ + commit],
            },
        ) {
            (Ok(Reply::Exit { .. }), s2) => (Ok(()), s2),
            (Ok(Reply::NotRun(message)), s2) => failed(GitAiErrorView::IoError(message@), s2),
            (Ok(_), s2) => (Err(StopView::Mismatch), s2),
            (Err(stop), s2) => (Err(stop), s2),
        },
        (Err(stop), s1) => (Err(stop), s1),
    }
}

/// Delete a hanging commit that's not attached to any branch
///
/// This function removes a commit from the git object database. Since the commit
/// is hanging (not referenced by any branch or tag), it will be garbage collected
/// by git during the next gc operation.
///
/// # Arguments
/// * `repo` - Git repository
/// * `commit_sha` - SHA of the commit to delete
pub fn delete_hanging_commit(repo: &Repository, commit_sha: &str, session: &mut Session) -> (r:
    Result<(), Stop>)
    ensures
        (seen(r), final(session)@) == delete_run(repo.deep_view(), commit_sha@, old(session)@),
{
    // Find the commit to verify it exists
    repo.find_commit(commit_sha.to_string(), session)?;
    // Delete the commit using git command
    let mut args: Vec<String> = Vec::new();
    word(&mut args, "update-ref");
    word(&mut args, "-d");
    word(&mut args, join2("refs/heads/temp-", commit_sha).as_str());
    assert(args.deep_view() =~= seq!["update-ref"@, "-d"@, "refs/heads/temp-"@ + commit_sha@]);
    match session.ask(Request::GitBeside { git_dir: repo.path().to_string(), args })? {
        Reply::Exit { .. } => Ok(()),
        Reply::NotRun(message) => Err(Stop::Fail(GitAiError::IoError(message.clone()))),
        _ => Err(Stop::Mismatch),
    }
}

// ---------------------------------------------------------------------------------------------
// Walking to a base
// ---------------------------------------------------------------------------------------------
/// A merge base of two commits, which have to be there.
pub open spec fn origin_base_run(
    repo: RepositoryView,
    head: Seq<char>,
    new: Seq<char>,
    s: Tape,
) -> Run<Seq<char>> {
    match find_run(repo, "commit"@, new, s) {
        (Ok(_), s1) => match find_run(repo, "commit"@, head, s1) {
            (Ok(_), s2) => merge_base_run(repo, head, new, s2),
            (Err(stop), s2) => (Err(stop), s2),
        },
        (Err(stop), s1) => (Err(stop), s1),
    }
}

/// Find the common origin base between the head commit and the new commit's branch
pub fn find_common_origin_base_from_head(
    repo: &Repository,
    head_sha: &str,
    new_sha: &str,
    session: &mut Session,
) -> (r: Result<String, Stop>)
    ensures
        (seen(r), final(session)@) == origin_base_run(
            repo.deep_view(),
            head_sha@,
            new_sha@,
            old(session)@,
        ),
{
    let new_commit = repo.find_commit(new_sha.to_string(), session)?;
    let head_commit = repo.find_commit(head_sha.to_string(), session)?;
    // Find the merge base between the head commit and the new commit
    repo.merge_base(head_commit.id().as_str(), new_commit.id().as_str(), session)
}

/// Finding a parent uses one answer, whether it is found or not.
pub proof fn lemma_parent_advances(repo: RepositoryView, oid: Seq<char>, i: nat, s: Tape)
    ensures
        parent_run(repo, oid, i, s).0 is Ok ==> 0 <= s.next < s.replies.len() && parent_run(
            repo,
            oid,
            i,
            s,
        ).1 == (Tape { next: s.next + 1, ..s }),
        caught(parent_run(repo, oid, i, s)).0 is Ok ==> 0 <= s.next < s.replies.len() && caught(
            parent_run(repo, oid, i, s),
        ).1 == (Tape { next: s.next + 1, ..s }),
{
}

/// The most commits that are walked.
pub const PATH_LIMIT: usize = 10000;

pub open spec fn same_commit_error(head: Seq<char>, base: Seq<char>) -> GitAiErrorView {
    GitAiErrorView::Generic(
        "Incompatible lineage: head_sha ("@ + head + ") and origin_base ("@ + base
            + ") are the same commit"@,
    )
}

pub open spec fn no_path_error(head: Seq<char>, base: Seq<char>) -> GitAiErrorView {
    GitAiErrorView::Generic(
        "Incompatible lineage: no path from "@ + head + " to "@ + base
            + ". Reached end of history without finding origin base."@,
    )
}

pub open spec fn too_long_error() -> GitAiErrorView {
    GitAiErrorView::Generic(
        "Incompatible lineage: path too long, possible circular reference"@,
    )
}

/// The commits on the way along first parents from `current` to `base`, without `base`, behind
/// those walked before; oldest first.
pub open spec fn path_run(
    repo: RepositoryView,
    head: Seq<char>,
    base: Seq<char>,
    current: Seq<char>,
    walked: Seq<Seq<char>>,
    s: Tape,
) -> Run<Seq<Seq<char>>>
    decreases s.replies.len() - s.next,
{
    proof {
        lemma_parent_advances(repo, current, 0, s);
    }
    if current == base {
        if walked.len() == 0 {
            failed(same_commit_error(head, base), s)
        } else {
            (Ok(walked.reverse()), s)
        }
    } else {
        match caught(parent_run(repo, current, 0, s)) {
            (Ok(Ok(parent)), s1) => if walked.len() + 1 > PATH_LIMIT {
                failed(too_long_error(), s1)
            } else {
                path_run(repo, head, base, parent.oid, walked.push(current), s1)
            },
            (Ok(Err(_)), s1) => failed(no_path_error(head, base), s1),
            (Err(stop), s1) => (Err(stop), s1),
        }
    }
}

/// The commits on the way along first parents from `head` to `base`, without `base`; oldest first.
pub open spec fn path_to_base_run(
    repo: RepositoryView,
    head: Seq<char>,
    base: Seq<char>,
    s: Tape,
) -> Run<Seq<Seq<char>>> {
    match find_run(repo, "commit"@, head, s) {
        (Ok(_), s1) => path_run(repo, head, base, head, Seq::empty(), s1),
        (Err(stop), s1) => (Err(stop), s1),
    }
}

/// The commits on the way along first parents from `current` to `base`, without `base`, behind
/// those walked before; newest first.
pub open spec fn walk_run(
    repo: RepositoryView,
    base: Seq<char>,
    current: Seq<char>,
    walked: Seq<Seq<char>>,
    s: Tape,
) -> Run<Seq<Seq<char>>>
    decreases s.replies.len() - s.next,
{
    proof {
        lemma_parent_advances(repo, current, 0, s);
    }
    if current == base {
        (Ok(walked), s)
    } else {
        match parent_run(repo, current, 0, s) {
            (Ok(parent), s1) => walk_run(repo, base, parent.oid, walked.push(current), s1),
            (Err(stop), s1) => (Err(stop), s1),
        }
    }
}

/// The commits on the way along first parents from `head` to `base`, without `base`; newest first.
pub open spec fn walk_to_base_run(
    repo: RepositoryView,
    head: Seq<char>,
    base: Seq<char>,
    s: Tape,
) -> Run<Seq<Seq<char>>> {
    match find_run(repo, "commit"@, head, s) {
        (Ok(_), s1) => walk_run(repo, base, head, Seq::empty(), s1),
        (Err(stop), s1) => (Err(stop), s1),
    }
}

proof fn lemma_walked_start(
    repo: RepositoryView,
    base: Seq<char>,
    current: Seq<char>,
    walked: Seq<Seq<char>>,
    s: Tape,
)
    ensures
        walk_run(repo, base, current, walked, s).0 matches Ok(all) ==> {
            &&& walked.len() <= all.len()
            &&& all.take(walked.len() as int) == walked
            &&& current != base ==> all.len() > walked.len() && all[walked.len() as int] == current
            &&& current == base ==> all == walked
            &&& forall|i: int| walked.len() <= i < all.len() ==> #[trigger] all[i] != base
        },
    decreases s.replies.len() - s.next,
{
    lemma_parent_advances(repo, current, 0, s);
    if current == base {
        assert(walked.take(walked.len() as int) =~= walked);
    } else {
        match parent_run(repo, current, 0, s) {
            (Ok(parent), s1) => {
                let more = walked.push(current);
                lemma_walked_start(repo, base, parent.oid, more, s1);
                match walk_run(repo, base, parent.oid, more, s1).0 {
                    Ok(all) => {
                        let n = walked.len() as int;
                        assert(all.take(n + 1) == more);
                        assert(all[n] == all.take(n + 1)[n]);
                        assert(all.take(n) =~= all.take(n + 1).take(n));
                        assert(more.take(n) =~= walked);
                        assert forall|i: int| n <= i < all.len() implies #[trigger] all[i]
                            != base by {
                            if i == n {
                            }
                        }
                    },
                    Err(_) => {},
                }
            },
            (Err(_), _) => {},
        }
    }
}

proof fn lemma_path_is_walk(
    repo: RepositoryView,
    head: Seq<char>,
    base: Seq<char>,
    current: Seq<char>,
    walked: Seq<Seq<char>>,
    s: Tape,
)
    ensures
        path_run(repo, head, base, current, walked, s).0 matches Ok(path) ==> walk_run(
            repo,
            base,
            current,
            walked,
            s,
        ) == (
            Ok::<Seq<Seq<char>>, StopView>(path.reverse()),
            path_run(repo, head, base, current, walked, s).1,
        ),
        walk_run(repo, base, current, walked, s).0 matches Ok(all) ==> 0 < all.len() <= PATH_LIMIT
            ==> path_run(repo, head, base, current, walked, s) == (
            Ok::<Seq<Seq<char>>, StopView>(all.reverse()),
            walk_run(repo, base, current, walked, s).1,
        ),
    decreases s.replies.len() - s.next,
{
    lemma_parent_advances(repo, current, 0, s);
    if current == base {
        assert(walked.reverse().reverse() =~= walked);
    } else {
        match parent_run(repo, current, 0, s) {
            (Ok(parent), s1) => {
                lemma_path_is_walk(repo, head, base, parent.oid, walked.push(current), s1);
                lemma_walked_start(repo, base, parent.oid, walked.push(current), s1);
            },
            (Err(_), _) => {},
        }
    }
}

/// The path to a base is the walk to it, turned round; there is one just where the walk arrives
/// after at least one commit and no more than the limit.
pub proof fn law_path_is_walk_reversed(
    repo: RepositoryView,
    head: Seq<char>,
    base: Seq<char>,
    s: Tape,
)
    ensures
        path_to_base_run(repo, head, base, s).0 matches Ok(path) ==> walk_to_base_run(
            repo,
            head,
            base,
            s,
        ) == (
            Ok::<Seq<Seq<char>>, StopView>(path.reverse()),
            path_to_base_run(repo, head, base, s).1,
        ),
        walk_to_base_run(repo, head, base, s).0 matches Ok(all) ==> 0 < all.len() <= PATH_LIMIT
            ==> path_to_base_run(repo, head, base, s) == (
            Ok::<Seq<Seq<char>>, StopView>(all.reverse()),
            walk_to_base_run(repo, head, base, s).1,
        ),
{
    match find_run(repo, "commit"@, head, s) {
        (Ok(_), s1) => {
            lemma_path_is_walk(repo, head, base, head, Seq::empty(), s1);
        },
        (Err(_), _) => {},
    }
}

/// A path to a base ends with the commit that it was asked for, and the base is not on it.
pub proof fn law_path_ends_with_head(
    repo: RepositoryView,
    head: Seq<char>,
    base: Seq<char>,
    s: Tape,
)
    ensures
        path_to_base_run(repo, head, base, s).0 matches Ok(path) ==> path.len() > 0
            && path.last() == head && !path.contains(base),
{
    law_path_is_walk_reversed(repo, head, base, s);
    match find_run(repo, "commit"@, head, s) {
        (Ok(_), s1) => {
            lemma_walked_start(repo, base, head, Seq::empty(), s1);
            match path_to_base_run(repo, head, base, s).0 {
                Ok(path) => {
                    let all = path.reverse();
                    assert(walk_run(repo, base, head, Seq::empty(), s1).0 == Ok::<
                        Seq<Seq<char>>,
                        StopView,
                    >(all));
                    assert(all.len() == path.len());
                    if head == base {
                        assert(path_run(repo, head, base, head, Seq::empty(), s1).0 is Err);
                    } else {
                        assert(all[0] == path[path.len() - 1]);
                        assert forall|i: int| 0 <= i < path.len() implies path[i] != base by {
                            assert(all[path.len() - 1 - i] == path[i]);
                        }
                    }
                },
                Err(_) => {},
            }
        },
        (Err(_), _) => {},
    }
}

fn reversed(texts: &Vec<String>) -> (r: Vec<String>)
    ensures
        r.deep_view() == texts.deep_view().reverse(),
{
    let ghost all = texts.deep_view().reverse();
    let mut r: Vec<String> = Vec::new();
    let mut i: usize = texts.len();
    assert(r.deep_view() =~= all.take(0));
    while i > 0
        invariant
            i <= texts@.len(),
            all == texts.deep_view().reverse(),
            r.deep_view() == all.take(texts@.len() - i),
        decreases i,
    {
        i = i - 1;
        assert(all[texts@.len() - 1 - i] == texts@[i as int]@);
        assert(all.take(texts@.len() - i) =~= all.take(texts@.len() - 1 - i).push(
            texts@[i as int]@,
        ));
        word(&mut r, texts[i].as_str());
    }
    assert(all.take(texts@.len() as int) =~= all);
    r
}

/// Build a path of commit SHAs from head_sha to the origin base
///
/// This function walks the commit history from head_sha backwards until it reaches
/// the origin_base, collecting all commit SHAs in the path. If no valid linear path
/// exists (incompatible lineage), it returns an error.
///
/// # Arguments
/// * `repo` - Git repository
/// * `head_sha` - SHA of the HEAD commit to start from
/// * `origin_base` - SHA of the origin base commit to walk to
///
/// # Returns
/// A vector of commit SHAs in chronological order (oldest first) representing
/// the path from just after origin_base to head_sha
pub fn build_commit_path_to_base(
    repo: &Repository,
    head_sha: &str,
    origin_base: &str,
    session: &mut Session,
) -> (r: Result<Vec<String>, Stop>)
    ensures
        (seen(r), final(session)@) == path_to_base_run(
            repo.deep_view(),
            head_sha@,
            origin_base@,
            old(session)@,
        ),
{
    let mut current_commit = repo.find_commit(head_sha.to_string(), session)?;
    let mut commits: Vec<String> = Vec::new();
    let ghost whole = path_to_base_run(
        repo.deep_view(),
        head_sha@,
        origin_base@,
        old(session)@,
    );
    assert(commits.deep_view() =~= Seq::empty());
    // Walk backwards from head to origin_base
    while !same(current_commit.id().as_str(), origin_base)
        invariant
            current_commit.deep_view().repo == repo.deep_view(),
            path_run(
                repo.deep_view(),
                head_sha@,
                origin_base@,
                current_commit.deep_view().oid,
                commits.deep_view(),
                session@,
            ) == whole,
            whole == path_to_base_run(
                repo.deep_view(),
                head_sha@,
                origin_base@,
                old(session)@,
            ),
        decreases session@.replies.len() - session@.next,
    {
        let ghost walked = commits.deep_view();
        let ghost here = current_commit.deep_view().oid;
        proof {
            lemma_parent_advances(repo.deep_view(), here, 0, session@);
        }
        // Add current commit to our path
        word(&mut commits, current_commit.id().as_str());
        assert(commits@.len() == commits.deep_view().len());
        // Move to parent commit
        match catch(current_commit.parent(0, session))? {
            Ok(parent) => {
                current_commit = parent;
            },
            Err(_) => {
                let start = join3("Incompatible lineage: no path from ", head_sha, " to ");
                let message = join3(
                    start.as_str(),
                    origin_base,
                    ". Reached end of history without finding origin base.",
                );
                return Err(Stop::Fail(GitAiError::Generic(message)));
            },
        }
        // Safety check: avoid infinite loops in case of circular references
        if commits.len() > PATH_LIMIT {
            return Err(
                Stop::Fail(
                    generic(
                        "Incompatible lineage: path too long, possible circular reference",
                    ),
                ),
            );
        }
    }
    // If we have no commits, head_sha and origin_base are the same
    if commits.len() == 0 {
        let start = join3("Incompatible lineage: head_sha (", head_sha, ") and origin_base (");
        let message = join3(start.as_str(), origin_base, ") are the same commit");
        return Err(Stop::Fail(GitAiError::Generic(message)));
    }
    // Reverse to get chronological order (oldest first)

    Ok(reversed(&commits))
}

pub fn walk_commits_to_base(
    repository: &Repository,
    head: &str,
    base: &str,
    session: &mut Session,
) -> (r: Result<Vec<String>, Stop>)
    ensures
        (seen(r), final(session)@) == walk_to_base_run(
            repository.deep_view(),
            head@,
            base@,
            old(session)@,
        ),
{
    let mut current = repository.find_commit(head.to_string(), session)?;
    let mut commits: Vec<String> = Vec::new();
    let ghost whole = walk_to_base_run(repository.deep_view(), head@, base@, old(session)@);
    assert(commits.deep_view() =~= Seq::empty());
    while !same(current.id().as_str(), base)
        invariant
            current.deep_view().repo == repository.deep_view(),
            walk_run(
                repository.deep_view(),
                base@,
                current.deep_view().oid,
                commits.deep_view(),
                session@,
            ) == whole,
            whole == walk_to_base_run(repository.deep_view(), head@, base@, old(session)@),
        decreases session@.replies.len() - session@.next,
    {
        proof {
            lemma_parent_advances(repository.deep_view(), current.deep_view().oid, 0, session@);
        }
        word(&mut commits, current.id().as_str());
        current = current.parent(0, session)?;
    }
    Ok(commits)
}

// ---------------------------------------------------------------------------------------------
// One commit
// ---------------------------------------------------------------------------------------------
/// A log becomes the note of a commit.
pub open spec fn save_run(commit: Seq<char>, log: AuthorshipLogView, s: Tape) -> Run<()> {
    match asked_text(s, RequestView::SerializeLog { log }) {
        (Ok(Ok(text)), s1) => must(s1, RequestView::AddNote { commit, text }),
        (Ok(Err(_)), s1) => failed(
            GitAiErrorView::Generic("Failed to serialize authorship log"@),
            s1,
        ),
        (Err(stop), s1) => (Err(stop), s1),
    }
}

fn save_log(commit: &str, log: &AuthorshipLog, session: &mut Session) -> (r: Result<(), Stop>)
    ensures
        (seen(r), final(session)@) == save_run(commit@, log.deep_view(), old(session)@),
{
    match session.ask_text(Request::SerializeLog { log: log.clone() })? {
        Ok(text) => session.must(Request::AddNote { commit: commit.to_string(), text }),
        Err(_) => Err(Stop::Fail(generic("Failed to serialize authorship log"))),
    }
}

/// Whether two commits have the same tree.
pub open spec fn trees_identical_run(one: ObjectView, two: ObjectView, s: Tape) -> Run<bool> {
    match tree_run(one.repo, one.oid, s) {
        (Ok(tree1), s1) => match tree_run(two.repo, two.oid, s1) {
            (Ok(tree2), s2) => (Ok(tree1.oid == tree2.oid), s2),
            (Err(stop), s2) => (Err(stop), s2),
        },
        (Err(stop), s1) => (Err(stop), s1),
    }
}

/// Check if two commits have identical trees
pub fn trees_identical(commit1: &Commit<'_>, commit2: &Commit<'_>, session: &mut Session) -> (r:
    Result<bool, Stop>)
    ensures
        (seen(r), final(session)@) == trees_identical_run(
            commit1.deep_view(),
            commit2.deep_view(),
            old(session)@,
        ),
{
    let tree1 = commit1.tree(session)?;
    let tree2 = commit2.tree(session)?;
    Ok(same(tree1.id().as_str(), tree2.id().as_str()))
}

/// The log of one commit becomes that of another; where it has none, nothing is done.
pub open spec fn copy_run(from: Seq<char>, to: Seq<char>, s: Tape) -> Run<()> {
    match asked_log(s, RequestView::ReadLog { commit: from }) {
        (Ok(Ok(log)), s1) => save_run(to, log.for_commit(to), s1),
        (Ok(Err(_)), s1) => (Ok(()), s1),
        (Err(stop), s1) => (Err(stop), s1),
    }
}

/// Copy authorship log from one commit to another
pub fn copy_authorship_log(from_sha: &str, to_sha: &str, session: &mut Session) -> (r: Result<
    (),
    Stop,
>)
    ensures
        (seen(r), final(session)@) == copy_run(from_sha@, to_sha@, old(session)@),
{
    // Try to get the authorship log from the old commit
    match session.ask_log(Request::ReadLog { commit: from_sha.to_string() })? {
        Ok(log) => {
            // Update the base_commit_sha to the new commit
            let mut copy = log;
            copy.set_commit(to_sha);
            // Save to the new commit
            save_log(to_sha, &copy, session)
        },
        // No authorship log exists for the old commit, that's ok
        Err(_) => Ok(()),
    }
}

/// The log of a commit that takes the place of another on top of another parent.
pub open spec fn reconstruct_commit_run(
    repo: RepositoryView,
    old_sha: Seq<char>,
    new_sha: Seq<char>,
    s: Tape,
) -> Run<AuthorshipLogView> {
    match find_run(repo, "commit"@, old_sha, s) {
        (Ok(_), s1) => match find_run(repo, "commit"@, new_sha, s1) {
            (Ok(new_commit), s2) => match parent_run(repo, new_sha, 0, s2) {
                (Ok(new_parent), s3) => match parent_run(repo, old_sha, 0, s3) {
                    (Ok(old_parent), s4) => match apply_merge_run(
                        repo,
                        old_parent.oid,
                        new_parent.oid,
                        old_sha,
                        s4,
                    ) {
                        (Ok(hanging), s5) => match reconstruct_run(
                            repo,
                            new_commit,
                            new_parent,
                            hanging,
                            s5,
                        ) {
                            (Ok(log), s6) => match delete_run(repo, hanging, s6) {
                                (Ok(_), s7) => (Ok(log.for_commit(new_sha)), s7),
                                (Err(stop), s7) => (Err(stop), s7),
                            },
                            (Err(stop), s6) => (Err(stop), s6),
                        },
                        (Err(stop), s5) => (Err(stop), s5),
                    },
                    (Err(stop), s4) => (Err(stop), s4),
                },
                (Err(stop), s3) => (Err(stop), s3),
            },
            (Err(stop), s2) => (Err(stop), s2),
        },
        (Err(stop), s1) => (Err(stop), s1),
    }
}

/// Reconstruct authorship for a single commit that changed during rebase
pub fn reconstruct_authorship_for_commit(
    repo: &Repository,
    old_sha: &str,
    new_sha: &str,
    session: &mut Session,
) -> (r: Result<AuthorshipLog, Stop>)
    ensures
        (seen(r), final(session)@) == reconstruct_commit_run(
            repo.deep_view(),
            old_sha@,
            new_sha@,
            old(session)@,
        ),
{
    // Get commits
    let old_commit = repo.find_commit(old_sha.to_string(), session)?;
    let new_commit = repo.find_commit(new_sha.to_string(), session)?;
    let new_parent = new_commit.parent(0, session)?;
    let old_parent = old_commit.parent(0, session)?;
    // Create "hanging commit" for blame context
    // This applies the changes from (old_parent -> new_parent) onto old_commit
    let hanging_commit_sha = apply_diff_as_merge_commit(
        repo,
        old_parent.id().as_str(),
        new_parent.id().as_str(),
        old_sha,
        session,
    )?;
    // Reconstruct authorship by running blame in hanging commit context
    let mut reconstructed_log = reconstruct_authorship_from_diff(
        repo,
        &new_commit,
        &new_parent,
        hanging_commit_sha.as_str(),
        session,
    )?;
    // Set the base_commit_sha to the new commit
    reconstructed_log.set_commit(new_sha);
    // Cleanup
    delete_hanging_commit(repo, hanging_commit_sha.as_str(), session)?;
    Ok(reconstructed_log)
}

/// The log of a commit is carried over to the commit that takes its place.
pub open spec fn single_run(
    repo: RepositoryView,
    old_sha: Seq<char>,
    new_sha: Seq<char>,
    s: Tape,
) -> Run<()> {
    match find_run(repo, "commit"@, old_sha, s) {
        (Ok(old_commit), s1) => match find_run(repo, "commit"@, new_sha, s1) {
            (Ok(new_commit), s2) => match trees_identical_run(old_commit, new_commit, s2) {
                (Ok(identical), s3) => if identical {
                    copy_run(old_sha, new_sha, s3)
                } else {
                    match reconstruct_commit_run(repo, old_sha, new_sha, s3) {
                        (Ok(log), s4) => save_run(new_sha, log, s4),
                        (Err(stop), s4) => (Err(stop), s4),
                    }
                },
                (Err(stop), s3) => (Err(stop), s3),
            },
            (Err(stop), s2) => (Err(stop), s2),
        },
        (Err(stop), s1) => (Err(stop), s1),
    }
}

/// Rewrite authorship for a single commit after rebase
///
/// Fast path: If trees are identical, just copy the authorship log
/// Slow path: If trees differ, reconstruct via blame in hanging commit context
pub fn rewrite_single_commit_authorship(
    repo: &Repository,
    old_sha: &str,
    new_sha: &str,
    _human_author: &str,
    session: &mut Session,
) -> (r: Result<(), Stop>)
    ensures
        (seen(r), final(session)@) == single_run(
            repo.deep_view(),
            old_sha@,
            new_sha@,
            old(session)@,
        ),
{
    let old_commit = repo.find_commit(old_sha.to_string(), session)?;
    let new_commit = repo.find_commit(new_sha.to_string(), session)?;
    // Fast path: Check if trees are identical
    if trees_identical(&old_commit, &new_commit, session)? {
        // Trees are the same, just copy the authorship log with new SHA
        return copy_authorship_log(old_sha, new_sha, session);
    }
    // Slow path: Trees differ, need reconstruction

    let new_authorship_log = reconstruct_authorship_for_commit(repo, old_sha, new_sha, session)?;
    // Save the reconstructed log
    save_log(new_sha, &new_authorship_log, session)
}

// ---------------------------------------------------------------------------------------------
// Squash, rebase and cherry-pick
// ---------------------------------------------------------------------------------------------
/// The log of a commit in which the commits up to `head` were put together.
pub open spec fn squash_log_run(
    repo: RepositoryView,
    head: Seq<char>,
    new_sha: Seq<char>,
    base: Seq<char>,
    new_commit: ObjectView,
    new_parent: ObjectView,
    s: Tape,
) -> Run<AuthorshipLogView> {
    match find_run(repo, "commit"@, base, s) {
        (Ok(_), s1) => match tree_run(repo, base, s1) {
            (Ok(base_tree), s2) => match tree_run(repo, new_parent.oid, s2) {
                (Ok(parent_tree), s3) => match asked_deltas(s3, base_tree.oid, parent_tree.oid) {
                    (Ok(_), s4) => match apply_merge_run(repo, base, new_parent.oid, head, s4) {
                        (Ok(hanging), s5) => match reconstruct_run(
                            repo,
                            new_commit,
                            new_parent,
                            hanging,
                            s5,
                        ) {
                            (Ok(log), s6) => match delete_run(repo, hanging, s6) {
                                (Ok(_), s7) => (Ok(log.for_commit(new_sha)), s7),
                                (Err(stop), s7) => (Err(stop), s7),
                            },
                            (Err(stop), s6) => (Err(stop), s6),
                        },
                        (Err(stop), s5) => (Err(stop), s5),
                    },
                    (Err(stop), s4) => (Err(stop), s4),
                },
                (Err(stop), s3) => (Err(stop), s3),
            },
            (Err(stop), s2) => (Err(stop), s2),
        },
        (Err(stop), s1) => (Err(stop), s1),
    }
}

/// The log of a commit in which the commits up to `head` were put together; it is saved, and this
/// is said, unless the run is a dry one.
pub open spec fn squash_run(
    repo: RepositoryView,
    head: Seq<char>,
    new_sha: Seq<char>,
    dry_run: bool,
    s: Tape,
) -> Run<AuthorshipLogView> {
    match origin_base_run(repo, head, new_sha, s) {
        (Ok(base), s1) => match path_to_base_run(repo, head, base, s1) {
            (Ok(_), s2) => match find_run(repo, "commit"@, new_sha, s2) {
                (Ok(new_commit), s3) => match parent_run(repo, new_sha, 0, s3) {
                    (Ok(new_parent), s4) => match squash_log_run(
                        repo,
                        head,
                        new_sha,
                        base,
                        new_commit,
                        new_parent,
                        s4,
                    ) {
                        (Ok(log), s5) => if dry_run {
                            (Ok(log), s5)
                        } else {
                            match save_run(new_sha, log, s5) {
                                (Ok(_), s6) => match printed(
                                    s6,
                                    "Authorship log saved to notes/ai/"@ + new_sha,
                                ) {
                                    (Ok(_), s7) => (Ok(log), s7),
                                    (Err(stop), s7) => (Err(stop), s7),
                                },
                                (Err(stop), s6) => (Err(stop), s6),
                            }
                        },
                        (Err(stop), s5) => (Err(stop), s5),
                    },
                    (Err(stop), s4) => (Err(stop), s4),
                },
                (Err(stop), s3) => (Err(stop), s3),
            },
            (Err(stop), s2) => (Err(stop), s2),
        },
        (Err(stop), s1) => (Err(stop), s1),
    }
}

/// Rewrite authorship log after a squash merge or rebase
///
/// This function handles the complex case where multiple commits from a linear history
/// have been squashed into a single new commit (new_sha). It preserves AI authorship attribution
/// by analyzing the diff and applying blame logic to identify which lines were originally
/// authored by AI.
///
/// # Arguments
/// * `repo` - Git repository
/// * `head_sha` - SHA of the HEAD commit of the original history that was squashed
/// * `new_sha` - SHA of the new squash commit
///
/// # Returns
/// The authorship log for the new commit
pub fn rewrite_authorship_after_squash_or_rebase(
    repo: &Repository,
    _destination_branch: &str,
    head_sha: &str,
    new_sha: &str,
    dry_run: bool,
    session: &mut Session,
) -> (r: Result<AuthorshipLog, Stop>)
    ensures
        (seen(r), final(session)@) == squash_run(
            repo.deep_view(),
            head_sha@,
            new_sha@,
            dry_run,
            old(session)@,
        ),
{
    // Step 1: Find the common origin base
    let origin_base = find_common_origin_base_from_head(repo, head_sha, new_sha, session)?;
    // Step 2: Build the old_shas path from head_sha to origin_base
    build_commit_path_to_base(repo, head_sha, origin_base.as_str(), session)?;
    // Step 3: Get the parent of the new commit
    let new_commit = repo.find_commit(new_sha.to_string(), session)?;
    let new_commit_parent = new_commit.parent(0, session)?;
    let new_authorship_log = reconstruct_squashed(
        repo,
        head_sha,
        new_sha,
        origin_base.as_str(),
        &new_commit,
        &new_commit_parent,
        session,
    )?;
    if !dry_run {
        // Step (Save): Save the authorship log with the new sha as its id
        save_log(new_sha, &new_authorship_log, session)?;
        session.print(join2("Authorship log saved to notes/ai/", new_sha))?;
    }
    Ok(new_authorship_log)
}

fn reconstruct_squashed(
    repo: &Repository,
    head_sha: &str,
    new_sha: &str,
    origin_base: &str,
    new_commit: &Commit<'_>,
    new_commit_parent: &Commit<'_>,
    session: &mut Session,
) -> (r: Result<AuthorshipLog, Stop>)
    requires
        new_commit_parent.deep_view().repo == repo.deep_view(),
    ensures
        (seen(r), final(session)@) == squash_log_run(
            repo.deep_view(),
            head_sha@,
            new_sha@,
            origin_base@,
            new_commit.deep_view(),
            new_commit_parent.deep_view(),
            old(session)@,
        ),
{
    // Step 4: Compute a diff between origin_base and new_commit_parent. Sometimes it's the same
    // sha. that's ok
    let origin_base_commit = repo.find_commit(origin_base.to_string(), session)?;
    let origin_base_tree = origin_base_commit.tree(session)?;
    let new_commit_parent_tree = new_commit_parent.tree(session)?;
    diff_tree_to_tree(&origin_base_tree, &new_commit_parent_tree, session)?;
    // Step 5: Take this diff and apply it to the HEAD of the old shas history.
    // We want it to be a merge essentially, and Accept Theirs (OLD Head wins when there's conflicts)
    let hanging_commit_sha = apply_diff_as_merge_commit(
        repo,
        origin_base,
        new_commit_parent.id().as_str(),
        head_sha,  // HEAD of old shas history
        session,
    )?;
    // Step 5: Now get the diff between between new_commit and new_commit_parent.
    // We want just the changes between the two commits.
    // We will iterate each file / hunk and then, we will run @blame logic in the context of
    // hanging_commit_sha
    // That way we can get the authorship log pre-squash.
    let mut new_authorship_log = reconstruct_authorship_from_diff(
        repo,
        new_commit,
        new_commit_parent,
        hanging_commit_sha.as_str(),
        session,
    )?;
    // Set the base_commit_sha to the new commit
    new_authorship_log.set_commit(new_sha);
    // Step 6: Delete the hanging commit
    delete_hanging_commit(repo, hanging_commit_sha.as_str(), session)?;
    Ok(new_authorship_log)
}

/// Commits are carried over one by one, from place `i` on; the first failure ends it.
pub open spec fn pairs_run(
    repo: RepositoryView,
    old_shas: Seq<Seq<char>>,
    new_shas: Seq<Seq<char>>,
    i: int,
    s: Tape,
) -> Run<()>
    decreases new_shas.len() - i,
{
    if i < 0 || i >= new_shas.len() || i >= old_shas.len() {
        (Ok(()), s)
    } else {
        match single_run(repo, old_shas[i], new_shas[i], s) {
            (Ok(_), s1) => pairs_run(repo, old_shas, new_shas, i + 1, s1),
            (Err(stop), s1) => (Err(stop), s1),
        }
    }
}

/// Each of the commits from place `i` on is taken for one in which those up to `head` were put
/// together.
pub open spec fn squashed_run(
    repo: RepositoryView,
    head: Seq<char>,
    new_shas: Seq<Seq<char>>,
    i: int,
    s: Tape,
) -> Run<()>
    decreases new_shas.len() - i,
{
    if i < 0 || i >= new_shas.len() {
        (Ok(()), s)
    } else {
        match squash_run(repo, head, new_shas[i], false, s) {
            (Ok(_), s1) => squashed_run(repo, head, new_shas, i + 1, s1),
            (Err(stop), s1) => (Err(stop), s1),
        }
    }
}

/// The log of the first of the commits from place `j` on with which that does not fail is carried
/// over; nothing is done where it fails with all.
pub open spec fn any_original_run(
    repo: RepositoryView,
    old_shas: Seq<Seq<char>>,
    j: int,
    new_sha: Seq<char>,
    s: Tape,
) -> Run<()>
    decreases old_shas.len() - j,
{
    if j < 0 || j >= old_shas.len() {
        (Ok(()), s)
    } else {
        match caught(single_run(repo, old_shas[j], new_sha, s)) {
            (Ok(Ok(_)), s1) => (Ok(()), s1),
            (Ok(Err(_)), s1) => any_original_run(repo, old_shas, j + 1, new_sha, s1),
            (Err(stop), s1) => (Err(stop), s1),
        }
    }
}

/// Each of the commits from place `i` on is taken for one in which those up to `head` were put
/// together; where that fails, the originals are tried one by one.
pub open spec fn split_run(
    repo: RepositoryView,
    head: Seq<char>,
    old_shas: Seq<Seq<char>>,
    new_shas: Seq<Seq<char>>,
    i: int,
    s: Tape,
) -> Run<()>
    decreases new_shas.len() - i,
{
    if i < 0 || i >= new_shas.len() {
        (Ok(()), s)
    } else {
        match caught(squash_run(repo, head, new_shas[i], false, s)) {
            (Ok(Ok(_)), s1) => split_run(repo, head, old_shas, new_shas, i + 1, s1),
            (Ok(Err(_)), s1) => match any_original_run(repo, old_shas, 0, new_shas[i], s1) {
                (Ok(_), s2) => split_run(repo, head, old_shas, new_shas, i + 1, s2),
                (Err(stop), s2) => (Err(stop), s2),
            },
            (Err(stop), s1) => (Err(stop), s1),
        }
    }
}

/// Logs are carried over a rebase: one by one where there are as many commits as before, otherwise
/// from the last of the originals.
pub open spec fn rebase_run(
    repo: RepositoryView,
    old_shas: Seq<Seq<char>>,
    new_shas: Seq<Seq<char>>,
    s: Tape,
) -> Run<()> {
    if old_shas.len() == new_shas.len() {
        pairs_run(repo, old_shas, new_shas, 0, s)
    } else if old_shas.len() == 0 {
        failed(GitAiErrorView::Generic("No original commits found"@), s)
    } else if old_shas.len() > new_shas.len() {
        squashed_run(repo, old_shas.last(), new_shas, 0, s)
    } else {
        split_run(repo, old_shas.last(), old_shas, new_shas, 0, s)
    }
}

/// Logs are carried over a cherry-pick one by one, from place `i` on, as far as there are commits
/// on both sides; failures are passed over.
pub open spec fn cherry_pick_run(
    repo: RepositoryView,
    sources: Seq<Seq<char>>,
    new_shas: Seq<Seq<char>>,
    i: int,
    s: Tape,
) -> Run<()>
    decreases new_shas.len() - i,
{
    if i < 0 || i >= new_shas.len() || i >= sources.len() {
        (Ok(()), s)
    } else {
        match caught(single_run(repo, sources[i], new_shas[i], s)) {
            (Ok(_), s1) => cherry_pick_run(repo, sources, new_shas, i + 1, s1),
            (Err(stop), s1) => (Err(stop), s1),
        }
    }
}

/// Handle squashed rebase where multiple commits become fewer commits
///
/// This reconstructs authorship by using the comprehensive squash logic
/// that properly traces through all original commits to preserve authorship.
pub fn handle_squashed_rebase(
    repo: &Repository,
    original_commits: &Vec<String>,
    new_commits: &Vec<String>,
    _human_author: &str,
    session: &mut Session,
) -> (r: Result<(), Stop>)
    ensures
        (seen(r), final(session)@) == (if original_commits@.len() == 0 {
            failed(GitAiErrorView::Generic("No original commits found"@), old(session)@)
        } else {
            squashed_run(
                repo.deep_view(),
                original_commits.deep_view().last(),
                new_commits.deep_view(),
                0,
                old(session)@,
            )
        }),
{
    // For squashing, we use the last (most recent) original commit as the source
    // since it contains all the accumulated changes from previous commits
    let n: usize = original_commits.len();
    if n == 0 {
        return Err(Stop::Fail(generic("No original commits found")));
    }
    let head_of_originals: &String = &original_commits[n - 1];
    let ghost head = original_commits.deep_view().last();
    let ghost news = new_commits.deep_view();
    let ghost whole = squashed_run(repo.deep_view(), head, news, 0, session@);
    assert(head == head_of_originals@);
    let mut i: usize = 0;
    // Process each new commit using the comprehensive squash logic
    // This handles the complex case where files from multiple commits need to be blamed
    while i < new_commits.len()
        invariant
            i <= new_commits@.len(),
            original_commits@.len() > 0,
            news == new_commits.deep_view(),
            head == head_of_originals@,
            head == original_commits.deep_view().last(),
            squashed_run(repo.deep_view(), head, news, i as int, session@) == whole,
            whole == squashed_run(repo.deep_view(), head, news, 0, old(session)@),
        decreases new_commits@.len() - i,
    {
        assert(news[i as int] == new_commits@[i as int]@);
        // Use the existing squash logic which properly handles multiple commits
        // by finding the common base and creating a hanging commit with all files
        rewrite_authorship_after_squash_or_rebase(
            repo,
            "",  // branch name not used in the logic
            head_of_originals.as_str(),
            new_commits[i].as_str(),
            false,  // not a dry run
            session,
        )?;
        i = i + 1;
    }
    Ok(())
}

fn try_originals(
    repo: &Repository,
    original_commits: &Vec<String>,
    new_sha: &str,
    human_author: &str,
    session: &mut Session,
) -> (r: Result<(), Stop>)
    ensures
        (seen(r), final(session)@) == any_original_run(
            repo.deep_view(),
            original_commits.deep_view(),
            0,
            new_sha@,
            old(session)@,
        ),
{
    let ghost originals = original_commits.deep_view();
    let ghost whole = any_original_run(repo.deep_view(), originals, 0, new_sha@, session@);
    let mut j: usize = 0;
    while j < original_commits.len()
        invariant
            j <= original_commits@.len(),
            originals == original_commits.deep_view(),
            any_original_run(repo.deep_view(), originals, j as int, new_sha@, session@) == whole,
            whole == any_original_run(
                repo.deep_view(),
                originals,
                0,
                new_sha@,
                old(session)@,
            ),
        decreases original_commits@.len() - j,
    {
        assert(originals[j as int] == original_commits@[j as int]@);
        match catch(
            rewrite_single_commit_authorship(
                repo,
                original_commits[j].as_str(),
                new_sha,
                human_author,
                session,
            ),
        )? {
            Ok(()) => {
                return Ok(());
            },
            Err(_) => {},
        }
        j = j + 1;
    }
    // For restructured files, we can't reliably reconstruct authorship
    // This is ok - the commit just won't have AI authorship attribution
    Ok(())
}

/// Handle split rebase where commits are split or new commits are added
///
/// For split rebases, we attempt reconstruction but handle cases where files
/// have been restructured or renamed gracefully.
pub fn handle_split_rebase(
    repo: &Repository,
    original_commits: &Vec<String>,
    new_commits: &Vec<String>,
    human_author: &str,
    session: &mut Session,
) -> (r: Result<(), Stop>)
    ensures
        (seen(r), final(session)@) == (if original_commits@.len() == 0 {
            failed(GitAiErrorView::Generic("No original commits found"@), old(session)@)
        } else {
            split_run(
                repo.deep_view(),
                original_commits.deep_view().last(),
                original_commits.deep_view(),
                new_commits.deep_view(),
                0,
                old(session)@,
            )
        }),
{
    // For splitting, we use the last (most recent) original commit as the source
    // since it contains all the accumulated changes from previous commits
    let n: usize = original_commits.len();
    if n == 0 {
        return Err(Stop::Fail(generic("No original commits found")));
    }
    let head_of_originals: &String = &original_commits[n - 1];
    let ghost originals = original_commits.deep_view();
    let ghost head = originals.last();
    let ghost news = new_commits.deep_view();
    let ghost whole = split_run(repo.deep_view(), head, originals, news, 0, session@);
    assert(head == head_of_originals@);
    let mut i: usize = 0;
    // Process each new commit
    // When commits are split with file restructuring, we try multiple approaches
    while i < new_commits.len()
        invariant
            i <= new_commits@.len(),
            original_commits@.len() > 0,
            originals == original_commits.deep_view(),
            news == new_commits.deep_view(),
            head == head_of_originals@,
            head == original_commits.deep_view().last(),
            split_run(repo.deep_view(), head, originals, news, i as int, session@) == whole,
            whole == split_run(repo.deep_view(), head, originals, news, 0, old(session)@),
        decreases new_commits@.len() - i,
    {
        assert(news[i as int] == new_commits@[i as int]@);
        // First try: use squash logic (works if files have same names)
        match catch(
            rewrite_authorship_after_squash_or_rebase(
                repo,
                "",  // branch name not used in the logic
                head_of_originals.as_str(),
                new_commits[i].as_str(),
                false,  // not a dry run
                session,
            ),
        )? {
            Ok(_) => {},
            Err(_) => {
                // If squash logic fails (e.g., files don't exist), try each original commit to
                // see if any works
                try_originals(
                    repo,
                    original_commits,
                    new_commits[i].as_str(),
                    human_author,
                    session,
                )?;
            },
        }
        i = i + 1;
    }
    Ok(())
}

/// Rewrite authorship logs after a rebase operation
///
/// This function processes each commit mapping from a rebase and either copies
/// or reconstructs the authorship log depending on whether the tree changed.
///
/// Handles different scenarios:
/// - 1:1 mapping (normal rebase): Direct commit-to-commit authorship copy/reconstruction
/// - N:M mapping where N > M (squashing/dropping): Reconstructs authorship from all original commits
///
/// # Arguments
/// * `repo` - Git repository
/// * `original_commits` - Vector of original commit SHAs (before rebase), oldest first
/// * `new_commits` - Vector of new commit SHAs (after rebase), oldest first
/// * `human_author` - The human author identifier
///
/// # Returns
/// Ok if all commits were processed successfully
pub fn rewrite_authorship_after_rebase(
    repo: &Repository,
    original_commits: &Vec<String>,
    new_commits: &Vec<String>,
    human_author: &str,
    session: &mut Session,
) -> (r: Result<(), Stop>)
    ensures
        (seen(r), final(session)@) == rebase_run(
            repo.deep_view(),
            original_commits.deep_view(),
            new_commits.deep_view(),
            old(session)@,
        ),
{
    let ghost originals = original_commits.deep_view();
    let ghost news = new_commits.deep_view();
    assert(originals.len() == original_commits@.len() && news.len() == new_commits@.len());
    // Detect the mapping type
    if original_commits.len() > new_commits.len() {
        // Many-to-few mapping (squashing or dropping commits)
        // Handle squashing: reconstruct authorship for each new commit from the
        // corresponding range of original commits
        handle_squashed_rebase(repo, original_commits, new_commits, human_author, session)
    } else if original_commits.len() < new_commits.len() {
        // Few-to-many mapping (commit splitting or adding commits)
        // Handle splitting: use the head of originals as source for all new commits
        // This preserves attribution when commits are split or new commits are added
        handle_split_rebase(repo, original_commits, new_commits, human_author, session)
    } else {
        // 1:1 mapping (normal rebase)
        let ghost whole = pairs_run(repo.deep_view(), originals, news, 0, session@);
        let mut i: usize = 0;
        // Process each old -> new commit mapping
        while i < new_commits.len()
            invariant
                i <= new_commits@.len(),
                original_commits@.len() == new_commits@.len(),
                originals == original_commits.deep_view(),
                news == new_commits.deep_view(),
                pairs_run(repo.deep_view(), originals, news, i as int, session@) == whole,
                whole == pairs_run(repo.deep_view(), originals, news, 0, old(session)@),
            decreases new_commits@.len() - i,
        {
            assert(news[i as int] == new_commits@[i as int]@);
            assert(originals[i as int] == original_commits@[i as int]@);
            rewrite_single_commit_authorship(
                repo,
                original_commits[i].as_str(),
                new_commits[i].as_str(),
                human_author,
                session,
            )?;
            i = i + 1;
        }
        Ok(())
    }
}

/// Rewrite authorship logs after cherry-pick
///
/// Cherry-pick is simpler than rebase: it creates new commits by applying patches from source commits.
/// The mapping is typically 1:1, or 1:0 if a commit becomes empty (already applied).
///
/// # Arguments
/// * `repo` - Git repository
/// * `source_commits` - Vector of source commit SHAs (commits being cherry-picked), oldest first
/// * `new_commits` - Vector of new commit SHAs (after cherry-pick), oldest first
/// * `human_author` - The human author identifier
///
/// # Returns
/// Ok if all commits were processed successfully
pub fn rewrite_authorship_after_cherry_pick(
    repo: &Repository,
    source_commits: &Vec<String>,
    new_commits: &Vec<String>,
    human_author: &str,
    session: &mut Session,
) -> (r: Result<(), Stop>)
    ensures
        (seen(r), final(session)@) == cherry_pick_run(
            repo.deep_view(),
            source_commits.deep_view(),
            new_commits.deep_view(),
            0,
            old(session)@,
        ),
{
    let ghost sources = source_commits.deep_view();
    let ghost news = new_commits.deep_view();
    let ghost whole = cherry_pick_run(repo.deep_view(), sources, news, 0, session@);
    let mut i: usize = 0;
    // Cherry-pick can result in fewer commits if some become empty
    // Match up commits by position (they're applied in order)
    while i < source_commits.len() && i < new_commits.len()
        invariant
            i <= new_commits@.len(),
            sources == source_commits.deep_view(),
            news == new_commits.deep_view(),
            cherry_pick_run(repo.deep_view(), sources, news, i as int, session@) == whole,
            whole == cherry_pick_run(repo.deep_view(), sources, news, 0, old(session)@),
        decreases new_commits@.len() - i,
    {
        assert(news[i as int] == new_commits@[i as int]@);
        assert(sources[i as int] == source_commits@[i as int]@);
        // Use the same logic as rebase for single commit rewriting
        // Continue with other commits even if one fails
        match catch(
            rewrite_single_commit_authorship(
                repo,
                source_commits[i].as_str(),
                new_commits[i].as_str(),
                human_author,
                session,
            ),
        )? {
            Ok(()) => {},
            Err(_) => {},
        }
        i = i + 1;
    }
    assert(sources.len() == source_commits@.len() && news.len() == new_commits@.len());
    Ok(())
}

// ---------------------------------------------------------------------------------------------
// Amended commits
// ---------------------------------------------------------------------------------------------
/// A log after the checkpoints of a working log.
pub open spec fn applied_run(
    log: AuthorshipLogView,
    checkpoints: Seq<CheckpointView>,
    author: Seq<char>,
    s: Tape,
) -> Run<AuthorshipLogView> {
    or_fail(asked_log(s, RequestView::ApplyCheckpoints { log, checkpoints, author }))
}

fn apply_checkpoints(
    log: AuthorshipLog,
    checkpoints: Vec<Checkpoint>,
    author: &str,
    session: &mut Session,
) -> (r: Result<AuthorshipLog, Stop>)
    ensures
        (seen(r), final(session)@) == applied_run(
            log.deep_view(),
            checkpoints.deep_view(),
            author@,
            old(session)@,
        ),
{
    match session.ask_log(
        Request::ApplyCheckpoints { log, checkpoints, author: author.to_string() },
    )? {
        Ok(applied) => Ok(applied),
        Err(e) => Err(Stop::Fail(e)),
    }
}

/// The log of an amended commit from the log that there was and the working log: both together,
/// and saved, where there is a working log, which is then removed.
pub open spec fn amend_with_run(
    log: AuthorshipLogView,
    original: Seq<char>,
    amended: Seq<char>,
    author: Seq<char>,
    s: Tape,
) -> Run<AuthorshipLogView> {
    match asked_checkpoints(s, RequestView::ReadCheckpoints { base: original }) {
        (Ok(Ok(checkpoints)), s1) => match applied_run(log, checkpoints, author, s1) {
            (Ok(applied), s2) => match save_run(amended, applied.for_commit(amended), s2) {
                (Ok(_), s3) => match must(s3, RequestView::DeleteWorkingLog { base: original }) {
                    (Ok(_), s4) => (Ok(applied.for_commit(amended)), s4),
                    (Err(stop), s4) => (Err(stop), s4),
                },
                (Err(stop), s3) => (Err(stop), s3),
            },
            (Err(stop), s2) => (Err(stop), s2),
        },
        (Ok(Err(_)), s1) => (Ok(log.for_commit(amended)), s1),
        (Err(stop), s1) => (Err(stop), s1),
    }
}

/// The log of an amended commit.
pub open spec fn amend_run(
    original: Seq<char>,
    amended: Seq<char>,
    author: Seq<char>,
    s: Tape,
) -> Run<AuthorshipLogView> {
    match asked_log(s, RequestView::ReadLog { commit: original }) {
        (Ok(Ok(log)), s1) => amend_with_run(log, original, amended, author, s1),
        (Ok(Err(_)), s1) => amend_with_run(
            AuthorshipLogView::empty().for_commit(original),
            original,
            amended,
            author,
            s1,
        ),
        (Err(stop), s1) => (Err(stop), s1),
    }
}

/// An amended commit's log is one for that commit.
pub proof fn law_amended_log_is_for_the_amended_commit(
    original: Seq<char>,
    amended: Seq<char>,
    author: Seq<char>,
    s: Tape,
)
    ensures
        amend_run(original, amended, author, s).0 matches Ok(log) ==> log.metadata.base_commit_sha
            == amended,
{
}

pub fn rewrite_authorship_after_commit_amend(
    _repo: &Repository,
    original_commit: &str,
    amended_commit: &str,
    human_author: String,
    session: &mut Session,
) -> (r: Result<AuthorshipLog, Stop>)
    ensures
        (seen(r), final(session)@) == amend_run(
            original_commit@,
            amended_commit@,
            human_author@,
            old(session)@,
        ),
{
    // Step 1: Load the existing authorship log for the original commit (or create empty if none)
    let mut authorship_log = match session.ask_log(
        Request::ReadLog { commit: original_commit.to_string() },
    )? {
        // Found existing log - use it as the base
        Ok(log) => log,
        Err(_) => {
            // No existing authorship log - create a new empty one
            let mut log = AuthorshipLog::new();
            // Set base_commit_sha to the original commit
            log.set_commit(original_commit);
            log
        },
    };
    // Step 2: Load the working log for the original commit (if exists)
    let checkpoints = match session.ask_checkpoints(
        Request::ReadCheckpoints { base: original_commit.to_string() },
    )? {
        Ok(checkpoints) => checkpoints,
        Err(_) => {
            // No working log found - just return the existing authorship log with updated commit SHA
            authorship_log.set_commit(amended_commit);
            return Ok(authorship_log);
        },
    };
    // Step 3: Apply all checkpoints from the working log to the authorship log
    let mut applied = apply_checkpoints(
        authorship_log,
        checkpoints,
        human_author.as_str(),
        session,
    )?;
    // Update the base_commit_sha to the amended commit
    applied.set_commit(amended_commit);
    // Step 4: Save the authorship log with the amended commit SHA
    save_log(amended_commit, &applied, session)?;
    // Step 5: Delete the working log for the original commit
    session.must(Request::DeleteWorkingLog { base: original_commit.to_string() })?;
    Ok(applied)
}

// ---------------------------------------------------------------------------------------------
// Working logs
// ---------------------------------------------------------------------------------------------
/// The version of a file in a commit, or the staged one where no commit is named.
pub open spec fn version_run(
    repo: RepositoryView,
    file: Seq<char>,
    from: Seq<char>,
    complaint: Seq<char>,
    s: Tape,
) -> Run<Seq<char>> {
    match git_bytes(s, repo.args().push("show"@).push(from + ":"@ + file)) {
        (Ok(bytes), s1) => match utf8_text(bytes) {
            Some(text) => (Ok(text), s1),
            None => failed(GitAiErrorView::Generic(complaint + file), s1),
        },
        (Err(stop), s1) => (Err(stop), s1),
    }
}

fn read_version(
    repo: &Repository,
    file: &str,
    from: &str,
    complaint: &str,
    session: &mut Session,
) -> (r: Result<String, Stop>)
    ensures
        (seen(r), final(session)@) == version_run(
            repo.deep_view(),
            file@,
            from@,
            complaint@,
            old(session)@,
        ),
{
    let mut args = repo.global_args_for_exec();
    word(&mut args, "show");
    word(&mut args, join3(from, ":", file).as_str());
    let bytes = git_output(session, args)?;
    match from_utf8(bytes) {
        Some(text) => Ok(text),
        None => Err(Stop::Fail(GitAiError::Generic(join2(complaint, file)))),
    }
}

/// The versions of the files of a log, from place `i` on.
pub open spec fn contents_run(
    repo: RepositoryView,
    attestations: Seq<FileAttestationView>,
    from: Seq<char>,
    complaint: Seq<char>,
    i: int,
    done: Seq<(Seq<char>, Seq<char>)>,
    s: Tape,
) -> Run<Seq<(Seq<char>, Seq<char>)>>
    decreases attestations.len() - i,
{
    if i < 0 || i >= attestations.len() {
        (Ok(done), s)
    } else {
        match version_run(repo, attestations[i].file_path, from, complaint, s) {
            (Ok(content), s1) => contents_run(
                repo,
                attestations,
                from,
                complaint,
                i + 1,
                with_value(done, attestations[i].file_path, content),
                s1,
            ),
            (Err(stop), s1) => (Err(stop), s1),
        }
    }
}

fn read_contents(
    repo: &Repository,
    log: &AuthorshipLog,
    from: &str,
    complaint: &str,
    session: &mut Session,
) -> (r: Result<Vec<(String, String)>, Stop>)
    ensures
        (seen(r), final(session)@) == contents_run(
            repo.deep_view(),
            log.deep_view().attestations,
            from@,
            complaint@,
            0,
            Seq::empty(),
            old(session)@,
        ),
{
    let ghost all = log.deep_view().attestations;
    let mut contents: Vec<(String, String)> = Vec::new();
    assert(contents.deep_view() =~= Seq::empty());
    let ghost whole = contents_run(
        repo.deep_view(),
        all,
        from@,
        complaint@,
        0,
        Seq::empty(),
        session@,
    );
    let mut i: usize = 0;
    while i < log.attestations.len()
        invariant
            i <= log.attestations@.len(),
            all == log.deep_view().attestations,
            contents_run(
                repo.deep_view(),
                all,
                from@,
                complaint@,
                i as int,
                contents.deep_view(),
                session@,
            ) == whole,
            whole == contents_run(
                repo.deep_view(),
                all,
                from@,
                complaint@,
                0,
                Seq::empty(),
                old(session)@,
            ),
        decreases log.attestations@.len() - i,
    {
        let path: &String = &log.attestations[i].file_path;
        assert(all[i as int] == log.attestations@[i as int].deep_view());
        let content = read_version(repo, path.as_str(), from, complaint, session)?;
        put(&mut contents, path.clone(), content);
        i = i + 1;
    }
    Ok(contents)
}

/// The checkpoints that are not human edits.
pub open spec fn ai_checkpoints(checkpoints: Seq<CheckpointView>) -> Seq<CheckpointView>
    decreases checkpoints.len(),
{
    if checkpoints.len() == 0 {
        checkpoints
    } else {
        let before = ai_checkpoints(checkpoints.drop_last());
        if checkpoints.last().kind == CheckpointKind::Human {
            before
        } else {
            before.push(checkpoints.last())
        }
    }
}

/// What is kept of the checkpoints is just those that are not human edits.
pub proof fn law_ai_checkpoints(checkpoints: Seq<CheckpointView>)
    ensures
        forall|c: CheckpointView| #[trigger]
            ai_checkpoints(checkpoints).contains(c) <==> (checkpoints.contains(c) && c.kind
                != CheckpointKind::Human),
    decreases checkpoints.len(),
{
    if checkpoints.len() > 0 {
        let d = checkpoints.drop_last();
        law_ai_checkpoints(d);
        let before = ai_checkpoints(d);
        let after = ai_checkpoints(checkpoints);
        assert forall|c: CheckpointView| #[trigger]
            after.contains(c) <==> (checkpoints.contains(c) && c.kind
                != CheckpointKind::Human) by {
            assert(before.contains(c) <==> (d.contains(c) && c.kind != CheckpointKind::Human));
            if checkpoints.contains(c) {
                let k = choose|k: int| 0 <= k < checkpoints.len() && checkpoints[k] == c;
                if k < d.len() {
                    assert(d[k] == c);
                }
            }
            if d.contains(c) {
                let k = choose|k: int| 0 <= k < d.len() && d[k] == c;
                assert(checkpoints[k] == c);
            }
            if before.contains(c) {
                let k = choose|k: int| 0 <= k < before.len() && before[k] == c;
                assert(after[k] == c);
            }
            if after.contains(c) && !before.contains(c) {
                let k = choose|k: int| 0 <= k < after.len() && after[k] == c;
                if k < before.len() {
                    assert(before[k] == c);
                }
                assert(c == checkpoints[checkpoints.len() - 1]);
            }
            if c == checkpoints.last() && c.kind != CheckpointKind::Human {
                assert(after[before.len() as int] == c);
            }
        }
    }
}

fn keep_ai_checkpoints(checkpoints: Vec<Checkpoint>) -> (r: Vec<Checkpoint>)
    ensures
        r.deep_view() == ai_checkpoints(checkpoints.deep_view()),
{
    let ghost all = checkpoints.deep_view();
    let mut r: Vec<Checkpoint> = Vec::new();
    let mut i: usize = 0;
    assert(r.deep_view() =~= all.take(0));
    while i < checkpoints.len()
        invariant
            i <= checkpoints@.len(),
            all == checkpoints.deep_view(),
            r.deep_view() == ai_checkpoints(all.take(i as int)),
        decreases checkpoints@.len() - i,
    {
        let ghost before = r.deep_view();
        assert(all.take(i + 1).drop_last() =~= all.take(i as int));
        assert(all.take(i + 1).last() == checkpoints@[i as int].deep_view());
        if checkpoints[i].kind != CheckpointKind::Human {
            let copy = checkpoints[i].clone();
            r.push(copy);
            assert(r.deep_view() =~= before.push(checkpoints@[i as int].deep_view()));
        }
        i = i + 1;
    }
    assert(all.take(i as int) =~= all);
    r
}

/// The AI checkpoints that a log amounts to.
pub open spec fn converted_run(
    repo: RepositoryView,
    log: AuthorshipLogView,
    from: Seq<char>,
    complaint: Seq<char>,
    s: Tape,
) -> Run<Seq<CheckpointView>> {
    match contents_run(repo, log.attestations, from, complaint, 0, Seq::empty(), s) {
        (Ok(contents), s1) => match asked_checkpoints(
            s1,
            RequestView::CheckpointsForSquash { log, contents },
        ) {
            (Ok(Ok(checkpoints)), s2) => (Ok(ai_checkpoints(checkpoints)), s2),
            (Ok(Err(e)), s2) => failed(
                GitAiErrorView::Caused(
                    "Failed to convert authorship log to checkpoints: "@,
                    Box::new(e),
                ),
                s2,
            ),
            (Err(stop), s2) => (Err(stop), s2),
        },
        (Err(stop), s1) => (Err(stop), s1),
    }
}

fn convert_to_checkpoints(
    repo: &Repository,
    log: AuthorshipLog,
    from: &str,
    complaint: &str,
    session: &mut Session,
) -> (r: Result<Vec<Checkpoint>, Stop>)
    ensures
        (seen(r), final(session)@) == converted_run(
            repo.deep_view(),
            log.deep_view(),
            from@,
            complaint@,
            old(session)@,
        ),
{
    let contents = read_contents(repo, &log, from, complaint, session)?;
    match session.ask_checkpoints(Request::CheckpointsForSquash { log, contents })? {
        // Filter to keep only AI checkpoints - we don't track human-only changes in working logs
        Ok(checkpoints) => Ok(keep_ai_checkpoints(checkpoints)),
        Err(e) => Err(
            Stop::Fail(
                GitAiError::Caused(
                    "Failed to convert authorship log to checkpoints: ".to_string(),
                    Box::new(e),
                ),
            ),
        ),
    }
}

/// The entries of a checkpoint from place `i` on, with the versions of their files kept.
pub open spec fn persist_entries_run(
    repo: RepositoryView,
    base: Seq<char>,
    from: Seq<char>,
    complaint: Seq<char>,
    entries: Seq<WorkingLogEntryView>,
    i: int,
    done: Seq<WorkingLogEntryView>,
    s: Tape,
) -> Run<Seq<WorkingLogEntryView>>
    decreases entries.len() - i,
{
    if i < 0 || i >= entries.len() {
        (Ok(done), s)
    } else {
        match version_run(repo, entries[i].file, from, complaint, s) {
            (Ok(content), s1) => match or_fail(
                asked_text(s1, RequestView::PersistFile { base, content }),
            ) {
                (Ok(blob_sha), s2) => persist_entries_run(
                    repo,
                    base,
                    from,
                    complaint,
                    entries,
                    i + 1,
                    done.push(WorkingLogEntryView { blob_sha, ..entries[i] }),
                    s2,
                ),
                (Err(stop), s2) => (Err(stop), s2),
            },
            (Err(stop), s1) => (Err(stop), s1),
        }
    }
}

/// The files of entries with the names under which they are kept.
pub open spec fn file_hashes(entries: Seq<WorkingLogEntryView>) -> Seq<(Seq<char>, Seq<char>)> {
    Seq::new(entries.len(), |i: int| (entries[i].file, entries[i].blob_sha))
}

/// The bytes of all pairs, one after the other.
pub open spec fn joined_bytes(pairs: Seq<(Seq<char>, Seq<char>)>) -> Seq<u8>
    decreases pairs.len(),
{
    if pairs.len() == 0 {
        Seq::empty()
    } else {
        joined_bytes(pairs.drop_last()) + encode_utf8(pairs.last().0) + encode_utf8(pairs.last().1)
    }
}

/// The hash over the files of a checkpoint, by their paths.
pub open spec fn combined_hash(entries: Seq<WorkingLogEntryView>) -> Seq<char> {
    sha256_hex(joined_bytes(by_key(file_hashes(entries))))
}

/// A checkpoint with the versions of its files kept, and the hash over them.
pub open spec fn persist_run(
    repo: RepositoryView,
    checkpoint: CheckpointView,
    base: Seq<char>,
    from: Seq<char>,
    complaint: Seq<char>,
    s: Tape,
) -> Run<CheckpointView> {
    match persist_entries_run(repo, base, from, complaint, checkpoint.entries, 0, Seq::empty(), s) {
        (Ok(entries), s1) => (
            Ok(CheckpointView { entries, diff: combined_hash(entries), ..checkpoint }),
            s1,
        ),
        (Err(stop), s1) => (Err(stop), s1),
    }
}

proof fn lemma_persist_entries_keep(
    repo: RepositoryView,
    base: Seq<char>,
    from: Seq<char>,
    complaint: Seq<char>,
    entries: Seq<WorkingLogEntryView>,
    i: int,
    done: Seq<WorkingLogEntryView>,
    s: Tape,
)
    requires
        0 <= i <= entries.len(),
        done.len() == i,
        forall|k: int|
            0 <= k < i ==> (WorkingLogEntryView {
                blob_sha: entries[k].blob_sha,
                ..#[trigger] done[k]
            }) == entries[k],
    ensures
        persist_entries_run(repo, base, from, complaint, entries, i, done, s).0 matches Ok(kept)
            ==> kept.len() == entries.len() && forall|k: int|
            0 <= k < entries.len() ==> (WorkingLogEntryView {
                blob_sha: entries[k].blob_sha,
                ..#[trigger] kept[k]
            }) == entries[k],
    decreases entries.len() - i,
{
    if i < entries.len() {
        if let (Ok(content), s1) = version_run(repo, entries[i].file, from, complaint, s) {
            let request = RequestView::PersistFile { base, content };
            if let (Ok(blob_sha), s2) = or_fail(asked_text(s1, request)) {
                let more = done.push(WorkingLogEntryView { blob_sha, ..entries[i] });
                lemma_persist_entries_keep(repo, base, from, complaint, entries, i + 1, more, s2);
            }
        }
    }
}

/// Keeping the files of a checkpoint changes the names under which they are kept and the hash over
/// them, and nothing else of what is recorded.
pub proof fn law_persisting_keeps_the_rest(
    repo: RepositoryView,
    checkpoint: CheckpointView,
    base: Seq<char>,
    from: Seq<char>,
    complaint: Seq<char>,
    s: Tape,
)
    ensures
        persist_run(repo, checkpoint, base, from, complaint, s).0 matches Ok(kept) ==> {
            &&& (CheckpointView { entries: kept.entries, diff: kept.diff, ..checkpoint }) == kept
            &&& kept.entries.len() == checkpoint.entries.len()
            &&& forall|k: int|
                0 <= k < kept.entries.len() ==> (WorkingLogEntryView {
                    blob_sha: checkpoint.entries[k].blob_sha,
                    ..#[trigger] kept.entries[k]
                }) == checkpoint.entries[k]
        },
{
    lemma_persist_entries_keep(repo, base, from, complaint, checkpoint.entries, 0, Seq::empty(), s);
}

/// The hash over the files of a checkpoint does not depend on the order of its entries, where no
/// file stands twice.
pub proof fn law_combined_hash_ignores_order(
    one: Seq<WorkingLogEntryView>,
    other: Seq<WorkingLogEntryView>,
)
    requires
        file_hashes(one).to_multiset() == file_hashes(other).to_multiset(),
        keys_unique(file_hashes(one)),
    ensures
        combined_hash(one) == combined_hash(other),
{
    law_order_is_unique(file_hashes(one), file_hashes(other));
}

/// The bytes of all pairs, one after the other.
pub fn join_bytes(pairs: &Vec<(String, String)>) -> (r: Vec<u8>)
    ensures
        r@ == joined_bytes(pairs.deep_view()),
{
    let ghost all = pairs.deep_view();
    let mut r: Vec<u8> = Vec::new();
    let mut i: usize = 0;
    assert(all.take(0) =~= Seq::empty());
    while i < pairs.len()
        invariant
            i <= pairs@.len(),
            all == pairs.deep_view(),
            r@ == joined_bytes(all.take(i as int)),
        decreases pairs@.len() - i,
    {
        assert(all.take(i + 1).drop_last() =~= all.take(i as int));
        assert(all.take(i + 1).last() == pairs@[i as int].deep_view());
        let mut path = pairs[i].0.as_str().as_bytes_vec();
        let mut hash = pairs[i].1.as_str().as_bytes_vec();
        r.append(&mut path);
        r.append(&mut hash);
        i = i + 1;
    }
    assert(all.take(i as int) =~= all);
    r
}

/// The hash over the files of a checkpoint.
pub fn compute_combined_hash(entries: &Vec<WorkingLogEntry>) -> (r: String)
    ensures
        r@ == combined_hash(entries.deep_view()),
{
    let ghost all = file_hashes(entries.deep_view());
    let mut pairs: Vec<(String, String)> = Vec::new();
    let mut i: usize = 0;
    assert(pairs.deep_view() =~= all.take(0));
    while i < entries.len()
        invariant
            i <= entries@.len(),
            all == file_hashes(entries.deep_view()),
            pairs.deep_view() == all.take(i as int),
        decreases entries@.len() - i,
    {
        let ghost before = pairs.deep_view();
        pairs.push((entries[i].file.clone(), entries[i].blob_sha.clone()));
        assert(pairs.deep_view() =~= before.push(all[i as int]));
        assert(all.take(i + 1) =~= all.take(i as int).push(all[i as int]));
        i = i + 1;
    }
    assert(all.take(i as int) =~= all);
    let ordered = sort_by_key(pairs);
    sha256(&join_bytes(&ordered))
}

fn persist_blobs(
    repo: &Repository,
    checkpoint: Checkpoint,
    base_commit_sha: &str,
    from: &str,
    complaint: &str,
    session: &mut Session,
) -> (r: Result<Checkpoint, Stop>)
    ensures
        (seen(r), final(session)@) == persist_run(
            repo.deep_view(),
            checkpoint.deep_view(),
            base_commit_sha@,
            from@,
            complaint@,
            old(session)@,
        ),
{
    let ghost all = checkpoint.deep_view().entries;
    let mut entries: Vec<WorkingLogEntry> = Vec::new();
    assert(entries.deep_view() =~= Seq::empty());
    let ghost whole = persist_entries_run(
        repo.deep_view(),
        base_commit_sha@,
        from@,
        complaint@,
        all,
        0,
        Seq::empty(),
        session@,
    );
    let mut i: usize = 0;
    while i < checkpoint.entries.len()
        invariant
            i <= checkpoint.entries@.len(),
            all == checkpoint.deep_view().entries,
            persist_entries_run(
                repo.deep_view(),
                base_commit_sha@,
                from@,
                complaint@,
                all,
                i as int,
                entries.deep_view(),
                session@,
            ) == whole,
            whole == persist_entries_run(
                repo.deep_view(),
                base_commit_sha@,
                from@,
                complaint@,
                all,
                0,
                Seq::empty(),
                old(session)@,
            ),
        decreases checkpoint.entries@.len() - i,
    {
        let ghost before = entries.deep_view();
        let file: &String = &checkpoint.entries[i].file;
        assert(all[i as int] == checkpoint.entries@[i as int].deep_view());
        let content = read_version(repo, file.as_str(), from, complaint, session)?;
        // Persist the blob and get its SHA
        let blob_sha = match session.ask_text(
            Request::PersistFile { base: base_commit_sha.to_string(), content },
        )? {
            Ok(blob_sha) => blob_sha,
            Err(e) => {
                return Err(Stop::Fail(e));
            },
        };
        let entry = WorkingLogEntry {
            file: file.clone(),
            blob_sha,
            rest: checkpoint.entries[i].rest.clone(),
        };
        entries.push(entry);
        assert(entries.deep_view() =~= before.push(entry.deep_view()));
        i = i + 1;
    }
    // Compute combined hash for the checkpoint (same as normal checkpoint logic)
    let diff = compute_combined_hash(&entries);
    Ok(
        Checkpoint {
            kind: checkpoint.kind,
            author: checkpoint.author,
            agent_id: checkpoint.agent_id,
            transcript: checkpoint.transcript,
            entries,
            diff,
            rest: checkpoint.rest,
        },
    )
}

/// Helper: Persist file blobs for a checkpoint (reuse from prepare_working_log_after_squash)
///
/// The files are read from the commit that stands for the working directory, as the lines of the
/// checkpoint are theirs.
pub fn persist_checkpoint_blobs(
    repo: &Repository,
    checkpoint: Checkpoint,
    base_commit_sha: &str,
    working_commit_sha: &str,
    session: &mut Session,
) -> (r: Result<Checkpoint, Stop>)
    ensures
        (seen(r), final(session)@) == persist_run(
            repo.deep_view(),
            checkpoint.deep_view(),
            base_commit_sha@,
            working_commit_sha@,
            "Failed to read file: "@,
            old(session)@,
        ),
{
    persist_blobs(
        repo,
        checkpoint,
        base_commit_sha,
        working_commit_sha,
        "Failed to read file: ",
        session,
    )
}

/// The index as a tree.
pub open spec fn write_tree_run(repo: RepositoryView, s: Tape) -> Run<Seq<char>> {
    git_line(s, repo.args().push("write-tree"@))
}

fn write_index_tree(repo: &Repository, session: &mut Session) -> (r: Result<String, Stop>)
    ensures
        (seen(r), final(session)@) == write_tree_run(repo.deep_view(), old(session)@),
{
    let mut args = repo.global_args_for_exec();
    word(&mut args, "write-tree");
    git_output_line(session, args)
}

/// The tracked files as they are in the working directory, staged or not, as a tree: that of the
/// commit which `git stash create` makes and which no branch holds. Where it makes none, nothing
/// differs from HEAD, and the index is that tree.
pub open spec fn captured_run(repo: RepositoryView, s: Tape) -> Run<Seq<char>> {
    match git_line(s, repo.args().push("stash"@).push("create"@)) {
        (Ok(commit), s1) => if commit.len() == 0 {
            write_tree_run(repo, s1)
        } else {
            rev_parse_run(repo, commit + "^{tree}"@, s1)
        },
        (Err(stop), s1) => (Err(stop), s1),
    }
}

/// Helper: Capture current working directory + index as a tree
pub fn capture_working_directory_as_tree(repo: &Repository, session: &mut Session) -> (r: Result<
    String,
    Stop,
>)
    ensures
        (seen(r), final(session)@) == captured_run(repo.deep_view(), old(session)@),
{
    let mut args = repo.global_args_for_exec();
    word(&mut args, "stash");
    word(&mut args, "create");
    let stash_commit = git_output_line(session, args)?;
    proof {
        reveal_strlit("");
        if stash_commit@.len() == 0 {
            assert(stash_commit@ =~= ""@);
        }
    }
    if same(stash_commit.as_str(), "") {
        return write_index_tree(repo, session);
    }
    let revision = join2(stash_commit.as_str(), "^{tree}");
    repo.rev_parse(revision.as_str(), session)
}

/// A tree as a commit on top of `parent`, with the author and the committer of `like`.
pub open spec fn index_commit_run(
    repo: RepositoryView,
    like: Seq<char>,
    message: Seq<char>,
    tree: Seq<char>,
    parent: Seq<char>,
    s: Tape,
) -> Run<Seq<char>> {
    match find_run(repo, "commit"@, parent, s) {
        (Ok(_), s1) => commit_as_run(repo, like, message, tree, parent, s1),
        (Err(stop), s1) => (Err(stop), s1),
    }
}

/// The log of what the index has more than `base`, by blame as seen from the hanging commit; the
/// commits that were made for it are let go.
pub open spec fn index_log_run(
    repo: RepositoryView,
    target: Seq<char>,
    base: Seq<char>,
    hanging: Seq<char>,
    tree: Seq<char>,
    s: Tape,
) -> Run<AuthorshipLogView> {
    match index_commit_run(
        repo,
        target,
        "Temporary commit for squash authorship reconstruction"@,
        tree,
        base,
        s,
    ) {
        (Ok(temp), s1) => match find_run(repo, "commit"@, temp, s1) {
            (Ok(temp_commit), s2) => match reconstruct_run(
                repo,
                temp_commit,
                ObjectView { repo, oid: base },
                hanging,
                s2,
            ) {
                (Ok(log), s3) => match delete_run(repo, hanging, s3) {
                    (Ok(_), s4) => match delete_run(repo, temp, s4) {
                        (Ok(_), s5) => (Ok(log), s5),
                        (Err(stop), s5) => (Err(stop), s5),
                    },
                    (Err(stop), s4) => (Err(stop), s4),
                },
                (Err(stop), s3) => (Err(stop), s3),
            },
            (Err(stop), s2) => (Err(stop), s2),
        },
        (Err(stop), s1) => (Err(stop), s1),
    }
}

/// The log of what a squash has put into the index.
pub open spec fn squash_index_log_run(
    repo: RepositoryView,
    source: Seq<char>,
    target: Seq<char>,
    s: Tape,
) -> Run<AuthorshipLogView> {
    match origin_base_run(repo, source, target, s) {
        (Ok(base), s1) => match path_to_base_run(repo, source, base, s1) {
            (Ok(_), s2) => match find_run(repo, "commit"@, target, s2) {
                (Ok(_), s3) => match apply_merge_run(repo, base, target, source, s3) {
                    (Ok(hanging), s4) => match write_tree_run(repo, s4) {
                        (Ok(oid), s5) => match find_run(repo, "tree"@, oid, s5) {
                            (Ok(_), s6) => index_log_run(repo, target, base, hanging, oid, s6),
                            (Err(stop), s6) => (Err(stop), s6),
                        },
                        (Err(stop), s5) => (Err(stop), s5),
                    },
                    (Err(stop), s4) => (Err(stop), s4),
                },
                (Err(stop), s3) => (Err(stop), s3),
            },
            (Err(stop), s2) => (Err(stop), s2),
        },
        (Err(stop), s1) => (Err(stop), s1),
    }
}

/// Checkpoints from place `i` on, with the staged versions of their files kept.
pub open spec fn persist_all_run(
    repo: RepositoryView,
    checkpoints: Seq<CheckpointView>,
    base: Seq<char>,
    i: int,
    done: Seq<CheckpointView>,
    s: Tape,
) -> Run<Seq<CheckpointView>>
    decreases checkpoints.len() - i,
{
    if i < 0 || i >= checkpoints.len() {
        (Ok(done), s)
    } else {
        match persist_run(repo, checkpoints[i], base, ""@, "Failed to read staged file: "@, s) {
            (Ok(kept), s1) => persist_all_run(
                repo,
                checkpoints,
                base,
                i + 1,
                done.push(kept),
                s1,
            ),
            (Err(stop), s1) => (Err(stop), s1),
        }
    }
}

/// The checkpoints for the working log on top of `target` after a squash of `source` into the
/// index.
pub open spec fn prepare_run(
    repo: RepositoryView,
    source: Seq<char>,
    target: Seq<char>,
    s: Tape,
) -> Run<Seq<CheckpointView>> {
    match squash_index_log_run(repo, source, target, s) {
        (Ok(log), s1) => match converted_run(repo, log, ""@, "Failed to read staged file: "@, s1) {
            (Ok(checkpoints), s2) => persist_all_run(
                repo,
                checkpoints,
                target,
                0,
                Seq::empty(),
                s2,
            ),
            (Err(stop), s2) => (Err(stop), s2),
        },
        (Err(stop), s1) => (Err(stop), s1),
    }
}

fn reconstruct_index(
    repo: &Repository,
    target_commit: &Commit<'_>,
    origin_base: &str,
    hanging_commit_sha: &str,
    working_tree: &Tree<'_>,
    session: &mut Session,
) -> (r: Result<AuthorshipLog, Stop>)
    requires
        target_commit.deep_view().repo == repo.deep_view(),
    ensures
        (seen(r), final(session)@) == index_log_run(
            repo.deep_view(),
            target_commit.deep_view().oid,
            origin_base@,
            hanging_commit_sha@,
            working_tree.deep_view().oid,
            old(session)@,
        ),
{
    // Step 6: Create a temporary commit for the working directory state
    // Use origin_base as parent so the diff shows ALL changes from the feature branch
    let origin_base_commit = repo.find_commit(origin_base.to_string(), session)?;
    let temp_commit = commit_as(
        repo,
        target_commit,
        "Temporary commit for squash authorship reconstruction",
        working_tree,
        &origin_base_commit,  // Parent is the common base, not target!
        session,
    )?;
    // Step 7: Reconstruct authorship from the diff between temp_commit and origin_base
    // This shows ALL changes that came from the feature branch
    let temp_commit_obj = repo.find_commit(temp_commit.clone(), session)?;
    let new_authorship_log = reconstruct_authorship_from_diff(
        repo,
        &temp_commit_obj,
        &origin_base_commit,
        hanging_commit_sha,
        session,
    )?;
    // Step 8: Clean up temporary commits
    delete_hanging_commit(repo, hanging_commit_sha, session)?;
    delete_hanging_commit(repo, temp_commit.as_str(), session)?;
    Ok(new_authorship_log)
}

fn reconstruct_squash_index(
    repo: &Repository,
    source_head_sha: &str,
    target_branch_head_sha: &str,
    session: &mut Session,
) -> (r: Result<AuthorshipLog, Stop>)
    ensures
        (seen(r), final(session)@) == squash_index_log_run(
            repo.deep_view(),
            source_head_sha@,
            target_branch_head_sha@,
            old(session)@,
        ),
{
    // Step 1: Find the common origin base between source and target
    let origin_base = find_common_origin_base_from_head(
        repo,
        source_head_sha,
        target_branch_head_sha,
        session,
    )?;
    // Step 2: Build the old_shas path from source_head_sha to origin_base
    build_commit_path_to_base(repo, source_head_sha, origin_base.as_str(), session)?;
    // Step 3: Get the target branch head commit (this is where the squash is being merged into)
    let target_commit = repo.find_commit(target_branch_head_sha.to_string(), session)?;
    // Step 4: Apply the diff from origin_base to target_commit onto source_head
    // This creates a hanging commit that represents "what would the source branch look like
    // if we applied the changes from origin_base to target on top of it"
    let hanging_commit_sha = apply_diff_as_merge_commit(
        repo,
        origin_base.as_str(),
        target_commit.id().as_str(),
        source_head_sha,  // HEAD of old shas history
        session,
    )?;
    // Step 5: Get the working directory tree (staged changes from squash)
    // Use `git write-tree` to write the current index to a tree
    let working_tree_oid = write_index_tree(repo, session)?;
    let working_tree = repo.find_tree(working_tree_oid, session)?;
    reconstruct_index(
        repo,
        &target_commit,
        origin_base.as_str(),
        hanging_commit_sha.as_str(),
        &working_tree,
        session,
    )
}

/// Prepare working log checkpoints after a merge --squash (before commit)
///
/// This handles the case where `git merge --squash` has staged changes but hasn't committed yet.
/// It works similarly to `rewrite_authorship_after_squash_or_rebase`, but:
/// 1. Compares against the working directory instead of a new commit
/// 2. Returns checkpoints that can be appended to the current working log
/// 3. Doesn't save anything - just prepares the checkpoints
///
/// # Arguments
/// * `repo` - Git repository
/// * `source_head_sha` - SHA of the HEAD commit of the branch that was squashed
/// * `target_branch_head_sha` - SHA of the current HEAD (target branch)
/// * `human_author` - The human author identifier to use for human-authored lines
///
/// # Returns
/// Vector of checkpoints ready to be appended to the working log
pub fn prepare_working_log_after_squash(
    repo: &Repository,
    source_head_sha: &str,
    target_branch_head_sha: &str,
    _human_author: &str,
    session: &mut Session,
) -> (r: Result<Vec<Checkpoint>, Stop>)
    ensures
        (seen(r), final(session)@) == prepare_run(
            repo.deep_view(),
            source_head_sha@,
            target_branch_head_sha@,
            old(session)@,
        ),
{
    let new_authorship_log = reconstruct_squash_index(
        repo,
        source_head_sha,
        target_branch_head_sha,
        session,
    )?;
    // Step 9 and 10: Convert authorship log to checkpoints, given the staged files
    let checkpoints = convert_to_checkpoints(
        repo,
        new_authorship_log,
        "",
        "Failed to read staged file: ",
        session,
    )?;
    // Step 11: For each checkpoint, read the staged file content and save blobs
    let ghost all = checkpoints.deep_view();
    let mut kept: Vec<Checkpoint> = Vec::new();
    assert(kept.deep_view() =~= Seq::empty());
    let ghost whole = persist_all_run(
        repo.deep_view(),
        all,
        target_branch_head_sha@,
        0,
        Seq::empty(),
        session@,
    );
    let ghost run = prepare_run(
        repo.deep_view(),
        source_head_sha@,
        target_branch_head_sha@,
        old(session)@,
    );
    let mut i: usize = 0;
    while i < checkpoints.len()
        invariant
            i <= checkpoints@.len(),
            all == checkpoints.deep_view(),
            persist_all_run(
                repo.deep_view(),
                all,
                target_branch_head_sha@,
                i as int,
                kept.deep_view(),
                session@,
            ) == whole,
            whole == run,
            run == prepare_run(
                repo.deep_view(),
                source_head_sha@,
                target_branch_head_sha@,
                old(session)@,
            ),
        decreases checkpoints@.len() - i,
    {
        let ghost before = kept.deep_view();
        assert(all[i as int] == checkpoints@[i as int].deep_view());
        let checkpoint = persist_blobs(
            repo,
            checkpoints[i].clone(),
            target_branch_head_sha,
            "",
            "Failed to read staged file: ",
            session,
        )?;
        kept.push(checkpoint);
        assert(kept.deep_view() =~= before.push(checkpoint.deep_view()));
        i = i + 1;
    }
    Ok(kept)
}

/// The log that a hanging commit gets: that of the old HEAD with its working log.
pub open spec fn hanging_log_run(
    old_head: Seq<char>,
    hanging: Seq<char>,
    author: Seq<char>,
    s: Tape,
) -> Run<()> {
    match asked_log(s, RequestView::ReadLog { commit: old_head }) {
        (Ok(found), s1) => {
            let log = match found {
                Ok(log) => log,
                Err(_) => AuthorshipLogView::empty(),
            };
            match asked_checkpoints(s1, RequestView::ReadCheckpoints { base: old_head }) {
                (Ok(Ok(checkpoints)), s2) => if checkpoints.len() == 0 {
                    save_run(hanging, log.for_commit(hanging), s2)
                } else {
                    match applied_run(log, checkpoints, author, s2) {
                        (Ok(applied), s3) => save_run(hanging, applied.for_commit(hanging), s3),
                        (Err(stop), s3) => (Err(stop), s3),
                    }
                },
                (Ok(Err(_)), s2) => save_run(hanging, log.for_commit(hanging), s2),
                (Err(stop), s2) => (Err(stop), s2),
            }
        },
        (Err(stop), s1) => (Err(stop), s1),
    }
}

/// Create an authorship log for the hanging commit by combining the existing
/// authorship log and working log from the old HEAD commit
pub fn create_authorship_log_for_hanging_commit(
    old_head_sha: &str,
    hanging_commit_sha: &str,
    human_author: &str,
    session: &mut Session,
) -> (r: Result<(), Stop>)
    ensures
        (seen(r), final(session)@) == hanging_log_run(
            old_head_sha@,
            hanging_commit_sha@,
            human_author@,
            old(session)@,
        ),
{
    // Step 1: Try to get existing authorship log from old HEAD
    let mut authorship_log = match session.ask_log(
        Request::ReadLog { commit: old_head_sha.to_string() },
    )? {
        Ok(log) => log,
        Err(_) => AuthorshipLog::new(),
    };
    // Step 2: Get working log for old HEAD (if exists)
    let checkpoints = match session.ask_checkpoints(
        Request::ReadCheckpoints { base: old_head_sha.to_string() },
    )? {
        Ok(checkpoints) => checkpoints,
        Err(_) => Vec::new(),
    };
    // Step 3: Apply checkpoints to authorship log (like post_commit does)
    if checkpoints.len() > 0 {
        authorship_log = apply_checkpoints(authorship_log, checkpoints, human_author, session)?;
    }
    // Step 4: Set the base_commit_sha to the hanging commit

    authorship_log.set_commit(hanging_commit_sha);
    // Step 5: Save the authorship log to the hanging commit
    save_log(hanging_commit_sha, &authorship_log, session)
}

/// Checkpoints from place `i` on go into the working log on top of `base`.
pub open spec fn append_all_run(
    repo: RepositoryView,
    checkpoints: Seq<CheckpointView>,
    base: Seq<char>,
    temp: Seq<char>,
    i: int,
    s: Tape,
) -> Run<()>
    decreases checkpoints.len() - i,
{
    if i < 0 || i >= checkpoints.len() {
        (Ok(()), s)
    } else {
        match persist_run(repo, checkpoints[i], base, temp, "Failed to read file: "@, s) {
            (Ok(checkpoint), s1) => match must(
                s1,
                RequestView::AppendCheckpoint { base, checkpoint },
            ) {
                (Ok(_), s2) => append_all_run(repo, checkpoints, base, temp, i + 1, s2),
                (Err(stop), s2) => (Err(stop), s2),
            },
            (Err(stop), s1) => (Err(stop), s1),
        }
    }
}

/// The message of the hanging commit that stands for the working directory after a reset.
pub open spec fn reset_message(old_head: Seq<char>) -> Seq<char> {
    "Hanging commit for reset: working dir with parent "@ + old_head
}

/// The log of what the working directory has more than `target`, by blame as seen from a commit
/// on top of the old HEAD; it is shown.
pub open spec fn reset_log_run(
    repo: RepositoryView,
    target: Seq<char>,
    old_head: Seq<char>,
    author: Seq<char>,
    temp: Seq<char>,
    hanging: Seq<char>,
    s: Tape,
) -> Run<AuthorshipLogView> {
    match hanging_log_run(old_head, hanging, author, s) {
        (Ok(_), s1) => match find_run(repo, "commit"@, temp, s1) {
            (Ok(temp_commit), s2) => match find_run(repo, "commit"@, target, s2) {
                (Ok(target_commit), s3) => match reconstruct_run(
                    repo,
                    temp_commit,
                    target_commit,
                    hanging,
                    s3,
                ) {
                    (Ok(log), s4) => match must(s4, RequestView::ShowLog { log }) {
                        (Ok(_), s5) => (Ok(log), s5),
                        (Err(stop), s5) => (Err(stop), s5),
                    },
                    (Err(stop), s4) => (Err(stop), s4),
                },
                (Err(stop), s3) => (Err(stop), s3),
            },
            (Err(stop), s2) => (Err(stop), s2),
        },
        (Err(stop), s1) => (Err(stop), s1),
    }
}

/// A log becomes the working log on top of `target`, and the commits that were made for it, and
/// the working log on top of the old HEAD, are let go.
pub open spec fn reset_finish_run(
    repo: RepositoryView,
    log: AuthorshipLogView,
    target: Seq<char>,
    old_head: Seq<char>,
    temp: Seq<char>,
    hanging: Seq<char>,
    s: Tape,
) -> Run<()> {
    match converted_run(repo, log, temp, "Failed to read file: "@, s) {
        (Ok(checkpoints), s1) => match must(s1, RequestView::ResetWorkingLog { base: target }) {
            (Ok(_), s2) => match append_all_run(repo, checkpoints, target, temp, 0, s2) {
                (Ok(_), s3) => match delete_run(repo, hanging, s3) {
                    (Ok(_), s4) => match delete_run(repo, temp, s4) {
                        (Ok(_), s5) => must(s5, RequestView::DeleteWorkingLog { base: old_head }),
                        (Err(stop), s5) => (Err(stop), s5),
                    },
                    (Err(stop), s4) => (Err(stop), s4),
                },
                (Err(stop), s3) => (Err(stop), s3),
            },
            (Err(stop), s2) => (Err(stop), s2),
        },
        (Err(stop), s1) => (Err(stop), s1),
    }
}

/// The two commits that stand for the working directory: one on top of `target`, one on top of
/// the old HEAD.
pub open spec fn reset_commits_run(
    repo: RepositoryView,
    target: Seq<char>,
    old_head: Seq<char>,
    s: Tape,
) -> Run<(Seq<char>, Seq<char>)> {
    match captured_run(repo, s) {
        (Ok(tree), s1) => match find_run(repo, "tree"@, tree, s1) {
            (Ok(_), s2) => match index_commit_run(
                repo,
                target,
                "Temporary commit representing working directory after reset"@,
                tree,
                target,
                s2,
            ) {
                (Ok(temp), s3) => match index_commit_run(
                    repo,
                    old_head,
                    reset_message(old_head),
                    tree,
                    old_head,
                    s3,
                ) {
                    (Ok(hanging), s4) => (Ok((temp, hanging)), s4),
                    (Err(stop), s4) => (Err(stop), s4),
                },
                (Err(stop), s3) => (Err(stop), s3),
            },
            (Err(stop), s2) => (Err(stop), s2),
        },
        (Err(stop), s1) => (Err(stop), s1),
    }
}

/// The working log on top of `target` after HEAD was moved there from `old_head`.
pub open spec fn reset_run(
    repo: RepositoryView,
    target: Seq<char>,
    old_head: Seq<char>,
    author: Seq<char>,
    s: Tape,
) -> Run<()> {
    match reset_commits_run(repo, target, old_head, s) {
        (Ok((temp, hanging)), s1) => match reset_log_run(
            repo,
            target,
            old_head,
            author,
            temp,
            hanging,
            s1,
        ) {
            (Ok(log), s2) => reset_finish_run(repo, log, target, old_head, temp, hanging, s2),
            (Err(stop), s2) => (Err(stop), s2),
        },
        (Err(stop), s1) => (Err(stop), s1),
    }
}

fn append_checkpoints(
    repo: &Repository,
    checkpoints: &Vec<Checkpoint>,
    base: &str,
    temp: &str,
    session: &mut Session,
) -> (r: Result<(), Stop>)
    ensures
        (seen(r), final(session)@) == append_all_run(
            repo.deep_view(),
            checkpoints.deep_view(),
            base@,
            temp@,
            0,
            old(session)@,
        ),
{
    let ghost all = checkpoints.deep_view();
    let ghost whole = append_all_run(repo.deep_view(), all, base@, temp@, 0, session@);
    let mut i: usize = 0;
    while i < checkpoints.len()
        invariant
            i <= checkpoints@.len(),
            all == checkpoints.deep_view(),
            append_all_run(repo.deep_view(), all, base@, temp@, i as int, session@) == whole,
            whole == append_all_run(repo.deep_view(), all, base@, temp@, 0, old(session)@),
        decreases checkpoints@.len() - i,
    {
        assert(all[i as int] == checkpoints@[i as int].deep_view());
        let checkpoint = persist_checkpoint_blobs(
            repo,
            checkpoints[i].clone(),
            base,
            temp,
            session,
        )?;
        session.must(Request::AppendCheckpoint { base: base.to_string(), checkpoint })?;
        i = i + 1;
    }
    Ok(())
}

fn finish_reset(
    repo: &Repository,
    log: AuthorshipLog,
    target_commit_sha: &str,
    old_head_sha: &str,
    temp_working_commit: &str,
    hanging_commit_sha: &str,
    session: &mut Session,
) -> (r: Result<(), Stop>)
    ensures
        (seen(r), final(session)@) == reset_finish_run(
            repo.deep_view(),
            log.deep_view(),
            target_commit_sha@,
            old_head_sha@,
            temp_working_commit@,
            hanging_commit_sha@,
            old(session)@,
        ),
{
    // Step 4 and 5: Convert to checkpoints, given the files in the working directory, which the
    // lines of the log are of
    let checkpoints = convert_to_checkpoints(
        repo,
        log,
        temp_working_commit,
        "Failed to read file: ",
        session,
    )?;
    // Step 6: Persist blobs and write working log
    // reset first (can have stuff in it from before if you're operating on HEAD)
    session.must(Request::ResetWorkingLog { base: target_commit_sha.to_string() })?;
    append_checkpoints(repo, &checkpoints, target_commit_sha, temp_working_commit, session)?;
    // Step 7: Cleanup hanging commits
    delete_hanging_commit(repo, hanging_commit_sha, session)?;
    delete_hanging_commit(repo, temp_working_commit, session)?;
    // Delete old working log
    session.must(Request::DeleteWorkingLog { base: old_head_sha.to_string() })
}

fn make_reset_commits(
    repo: &Repository,
    target_commit_sha: &str,
    old_head_sha: &str,
    session: &mut Session,
) -> (r: Result<(String, String), Stop>)
    ensures
        (seen(r), final(session)@) == reset_commits_run(
            repo.deep_view(),
            target_commit_sha@,
            old_head_sha@,
            old(session)@,
        ),
{
    // Step 1: Create a temporary commit representing the working directory (staged + unstaged)
    // This has the target commit as parent
    let working_tree_oid = capture_working_directory_as_tree(repo, session)?;
    let working_tree = repo.find_tree(working_tree_oid, session)?;
    let target_commit = repo.find_commit(target_commit_sha.to_string(), session)?;
    let temp_working_commit = commit_as(
        repo,
        &target_commit,
        "Temporary commit representing working directory after reset",
        &working_tree,
        &target_commit,
        session,
    )?;
    // Step 2: Create hanging commit with the working directory tree but old_head as parent
    // This preserves AI authorship from old_head while having working directory content
    let old_head_commit = repo.find_commit(old_head_sha.to_string(), session)?;
    let message = join2("Hanging commit for reset: working dir with parent ", old_head_sha);
    let hanging_commit_sha = commit_as(
        repo,
        &old_head_commit,
        message.as_str(),
        &working_tree,  // Same tree as working directory
        &old_head_commit,  // But parent is old_head (preserves AI context)
        session,
    )?;
    Ok((temp_working_commit, hanging_commit_sha))
}

/// Reconstruct working log after a reset that preserves working directory
///
/// This handles --soft, --mixed, and --merge resets where we move HEAD backward
/// but keep the working directory state. We need to create a working log that
/// captures AI authorship from the "unwound" commits plus any existing uncommitted changes.
pub fn reconstruct_working_log_after_reset(
    repo: &Repository,
    target_commit_sha: &str,  // Where we reset TO
    old_head_sha: &str,  // Where HEAD was BEFORE reset
    human_author: &str,
    session: &mut Session,
) -> (r: Result<(), Stop>)
    ensures
        (seen(r), final(session)@) == reset_run(
            repo.deep_view(),
            target_commit_sha@,
            old_head_sha@,
            human_author@,
            old(session)@,
        ),
{
    let (temp_working_commit, hanging_commit_sha) = make_reset_commits(
        repo,
        target_commit_sha,
        old_head_sha,
        session,
    )?;
    // Step 3: Attach authorship log from old HEAD to hanging commit
    // This is essential so that blame can find the AI authorship
    create_authorship_log_for_hanging_commit(
        old_head_sha,
        hanging_commit_sha.as_str(),
        human_author,
        session,
    )?;
    // Step 4: Reconstruct authorship via blame
    // Compare: working directory (temp) vs target
    // Context: hanging commit (which has old_head's AI authorship)
    let temp_commit_obj = repo.find_commit(temp_working_commit.clone(), session)?;
    let target_commit_obj = repo.find_commit(target_commit_sha.to_string(), session)?;
    let new_authorship_log = reconstruct_authorship_from_diff(
        repo,
        &temp_commit_obj,
        &target_commit_obj,
        hanging_commit_sha.as_str(),
        session,
    )?;
    session.must(Request::ShowLog { log: new_authorship_log.clone() })?;
    finish_reset(
        repo,
        new_authorship_log,
        target_commit_sha,
        old_head_sha,
        temp_working_commit.as_str(),
        hanging_commit_sha.as_str(),
        session,
    )
}

// ---------------------------------------------------------------------------------------------
// Events
// ---------------------------------------------------------------------------------------------
/// Checkpoints from place `i` on are added to the working log on top of `base`.
pub open spec fn add_checkpoints_run(
    checkpoints: Seq<CheckpointView>,
    base: Seq<char>,
    i: int,
    s: Tape,
) -> Run<()>
    decreases checkpoints.len() - i,
{
    if i < 0 || i >= checkpoints.len() {
        (Ok(()), s)
    } else {
        match must(s, RequestView::AppendCheckpoint { base, checkpoint: checkpoints[i] }) {
            (Ok(_), s1) => add_checkpoints_run(checkpoints, base, i + 1, s1),
            (Err(stop), s1) => (Err(stop), s1),
        }
    }
}

/// After a squash into the index, the working log on top of the base is made anew.
pub open spec fn merge_squash_run(
    repo: RepositoryView,
    source_head: Seq<char>,
    base_head: Seq<char>,
    s: Tape,
) -> Run<()> {
    match must(s, RequestView::DeleteWorkingLog { base: base_head }) {
        (Ok(_), s1) => match prepare_run(repo, source_head, base_head, s1) {
            (Ok(checkpoints), s2) => add_checkpoints_run(checkpoints, base_head, 0, s2),
            (Err(stop), s2) => (Err(stop), s2),
        },
        (Err(stop), s1) => (Err(stop), s1),
    }
}

/// What an event that rewrote history asks for.
pub open spec fn event_run(
    repo: RepositoryView,
    event: RewriteLogEventView,
    author: Seq<char>,
    quiet: bool,
    s: Tape,
) -> Run<()> {
    match event {
        RewriteLogEventView::Commit { base_commit, commit_sha } => must(
            s,
            RequestView::PostCommit { parent: base_commit, commit: commit_sha, author, quiet },
        ),
        RewriteLogEventView::CommitAmend {
            original_commit,
            amended_commit_sha,
        } => match amend_run(original_commit, amended_commit_sha, author, s) {
            (Ok(_), s1) => (Ok(()), s1),
            (Err(stop), s1) => (Err(stop), s1),
        },
        RewriteLogEventView::MergeSquash { source_head, base_head, .. } => merge_squash_run(
            repo,
            source_head,
            base_head,
            s,
        ),
        RewriteLogEventView::RebaseComplete { original_commits, new_commits } => rebase_run(
            repo,
            original_commits,
            new_commits,
            s,
        ),
        RewriteLogEventView::CherryPickComplete { source_commits, new_commits } => cherry_pick_run(
            repo,
            source_commits,
            new_commits,
            0,
            s,
        ),
        RewriteLogEventView::Other(_) => (Ok(()), s),
    }
}

fn prepare_and_append(
    repo: &Repository,
    source_head: &str,
    base_head: &str,
    commit_author: &str,
    session: &mut Session,
) -> (r: Result<(), Stop>)
    ensures
        (seen(r), final(session)@) == merge_squash_run(
            repo.deep_view(),
            source_head@,
            base_head@,
            old(session)@,
        ),
{
    // --squash always fails if repo is not clean
    // this clears old working logs in the event you reset, make manual changes, reset, try again
    session.must(Request::DeleteWorkingLog { base: base_head.to_string() })?;
    // Prepare checkpoints from the squashed changes
    let checkpoints = prepare_working_log_after_squash(
        repo,
        source_head,
        base_head,
        commit_author,
        session,
    )?;
    // Append checkpoints to the working log for the base commit
    let ghost all = checkpoints.deep_view();
    let ghost whole = merge_squash_run(
        repo.deep_view(),
        source_head@,
        base_head@,
        old(session)@,
    );
    let mut i: usize = 0;
    while i < checkpoints.len()
        invariant
            i <= checkpoints@.len(),
            all == checkpoints.deep_view(),
            add_checkpoints_run(all, base_head@, i as int, session@) == whole,
            whole == merge_squash_run(
                repo.deep_view(),
                source_head@,
                base_head@,
                old(session)@,
            ),
        decreases checkpoints@.len() - i,
    {
        assert(all[i as int] == checkpoints@[i as int].deep_view());
        session.must(
            Request::AppendCheckpoint {
                base: base_head.to_string(),
                checkpoint: checkpoints[i].clone(),
            },
        )?;
        i = i + 1;
    }
    Ok(())
}

// Process events in the rewrite log and call the correct rewrite functions in this file
pub fn rewrite_authorship_if_needed(
    repo: &Repository,
    last_event: &RewriteLogEvent,
    commit_author: String,
    supress_output: bool,
    session: &mut Session,
) -> (r: Result<(), Stop>)
    ensures
        (seen(r), final(session)@) == event_run(
            repo.deep_view(),
            last_event.deep_view(),
            commit_author@,
            supress_output,
            old(session)@,
        ),
{
    match last_event {
        RewriteLogEvent::Commit { base_commit, commit_sha } => {
            // This is going to become the regualar post-commit
            session.must(
                Request::PostCommit {
                    parent: base_commit.clone(),
                    commit: commit_sha.clone(),
                    author: commit_author,
                    quiet: supress_output,
                },
            )
        },
        RewriteLogEvent::CommitAmend { original_commit, amended_commit_sha } => {
            rewrite_authorship_after_commit_amend(
                repo,
                original_commit.as_str(),
                amended_commit_sha.as_str(),
                commit_author,
                session,
            )?;
            Ok(())
        },
        RewriteLogEvent::MergeSquash { source_head, base_head, .. } => prepare_and_append(
            repo,
            source_head.as_str(),
            base_head.as_str(),
            commit_author.as_str(),
            session,
        ),
        RewriteLogEvent::RebaseComplete {
            original_commits,
            new_commits,
        } => rewrite_authorship_after_rebase(
            repo,
            original_commits,
            new_commits,
            commit_author.as_str(),
            session,
        ),
        RewriteLogEvent::CherryPickComplete {
            source_commits,
            new_commits,
        } => rewrite_authorship_after_cherry_pick(
            repo,
            source_commits,
            new_commits,
            commit_author.as_str(),
            session,
        ),
        RewriteLogEvent::Other(_) => Ok(()),
    }
}

} // verus!
