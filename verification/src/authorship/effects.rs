//! What the functions of this library change, and what they leave alone.
//!
//! A function asks for something just where there are answers after which it ends with
//! [`StopView::Pending`] and that request. So what is said here of the request with which a run
//! ends, whatever the answers, is said of all that the function ever asks for.
use crate::assoc::with_value;
use crate::authorship::authorship_log::{
    AuthorshipLog, AuthorshipLogView, AuthorshipMetadataView, FileAttestationView,
};
use crate::authorship::rebase_authorship::{
    add_checkpoints_run, amend_run, any_original_run, append_all_run, apply_merge_run,
    blame_lines_run, blame_run, cherry_pick_run, content_run, contents_run, converted_run, copy_run,
    delete_run, delta_path, event_run, file_run, files_run, hanging_log_run, index_log_run,
    lemma_parent_advances, merge_squash_run, pairs_run, path_run, path_to_base_run, persist_all_run,
    persist_entries_run, persist_run, prepare_run, rebase_run, reconstruct_commit_run,
    reconstruct_run, reset_commits_run, reset_finish_run, reset_log_run, reset_run, single_run,
    split_run, squash_index_log_run, squash_log_run, squash_run, squashed_run, version_run,
};
use crate::authorship::reconstruction::BlamedLineView;
use crate::authorship::working_log::{CheckpointView, WorkingLogEntryView};
use crate::git::records::Delta;
use crate::git::repository::{find_run, parent_run, ObjectView, RepositoryView};
use crate::git::rewrite_log::RewriteLogEventView;
use crate::session::{asked_text, caught, must, or_fail, Reply, RequestView, Run, StopView, Tape};
use vstd::prelude::*;

verus! {

/// The request changes notes, working logs, the files kept with them, or the rewrite log.
pub open spec fn changes_logs(request: RequestView) -> bool {
    ||| request is AddNote
    ||| request is PushNotes
    ||| request is PersistFile
    ||| request is AppendCheckpoint
    ||| request is DeleteWorkingLog
    ||| request is ResetWorkingLog
    ||| request is AppendRewriteEvent
    ||| request is PostCommit
    ||| request is RunCheckpoint
    ||| request is RunStatsDelta
    ||| request is SquashAuthorship
}

/// The run does not end waiting for any such change, nor for the log of a commit.
pub open spec fn leaves_logs<T>(run: Run<T>) -> bool {
    run.0 matches Err(StopView::Pending(request)) ==> !changes_logs(request) && !(request
        is ReadLog)
}

/// The run does not end waiting for the log of a commit that is none of these.
pub open spec fn reads_logs_of<T>(run: Run<T>, commits: Seq<Seq<char>>) -> bool {
    run.0 matches Err(StopView::Pending(RequestView::ReadLog { commit })) ==> commits.contains(
        commit,
    )
}

/// The run does not end waiting for any such change but a note for one of these commits.
pub open spec fn notes_only<T>(run: Run<T>, commits: Seq<Seq<char>>) -> bool {
    run.0 matches Err(StopView::Pending(request)) ==> !changes_logs(request) || (request
        matches RequestView::AddNote { commit, .. } && commits.contains(commit))
}

/// The run does not end waiting for any such change but a file kept with this working log.
pub open spec fn keeps_files_only<T>(run: Run<T>, base: Seq<char>) -> bool {
    run.0 matches Err(StopView::Pending(request)) ==> !changes_logs(request) || (request
        matches RequestView::PersistFile { base: kept_with, .. } && kept_with == base)
}

proof fn lemma_blame(repo: RepositoryView, file: Seq<char>, line: u32, hanging: Seq<char>, s: Tape)
    ensures
        leaves_logs(blame_run(repo, file, line, hanging, s)),
{
}

proof fn lemma_blame_lines(
    repo: RepositoryView,
    file: Seq<char>,
    hanging: Seq<char>,
    numbers: Seq<u32>,
    i: int,
    done: Seq<BlamedLineView>,
    s: Tape,
)
    ensures
        leaves_logs(blame_lines_run(repo, file, hanging, numbers, i, done, s)),
    decreases numbers.len() - i,
{
    if 0 <= i < numbers.len() {
        lemma_blame(repo, file, numbers[i], hanging, s);
        match caught(blame_run(repo, file, numbers[i], hanging, s)) {
            (Ok(Ok(Some((_, prompt)))), s1) => {
                let prompt = match prompt {
                    Some((p, _)) => Some(p),
                    None => None,
                };
                let more = done.push(BlamedLineView { file, line: numbers[i], prompt });
                lemma_blame_lines(repo, file, hanging, numbers, i + 1, more, s1);
            },
            (Ok(_), s1) => {
                lemma_blame_lines(repo, file, hanging, numbers, i + 1, done, s1);
            },
            _ => {},
        }
    }
}

proof fn lemma_content(repo: RepositoryView, tree: ObjectView, path: Seq<char>, s: Tape)
    ensures
        leaves_logs(content_run(repo, tree, path, s)),
{
}

proof fn lemma_file(
    repo: RepositoryView,
    parent_tree: ObjectView,
    new_tree: ObjectView,
    hanging: Seq<char>,
    path: Seq<char>,
    done: Seq<BlamedLineView>,
    s: Tape,
)
    ensures
        leaves_logs(file_run(repo, parent_tree, new_tree, hanging, path, done, s)),
{
    assert forall|t: ObjectView, s1: Tape| leaves_logs(#[trigger] content_run(repo, t, path, s1)) by {
        lemma_content(repo, t, path, s1);
    }
    assert forall|numbers: Seq<u32>, s1: Tape|
        leaves_logs(#[trigger] blame_lines_run(repo, path, hanging, numbers, 0, done, s1)) by {
        lemma_blame_lines(repo, path, hanging, numbers, 0, done, s1);
    }
}

proof fn lemma_files(
    repo: RepositoryView,
    parent_tree: ObjectView,
    new_tree: ObjectView,
    hanging: Seq<char>,
    deltas: Seq<Delta>,
    i: int,
    done: Seq<BlamedLineView>,
    s: Tape,
)
    ensures
        leaves_logs(files_run(repo, parent_tree, new_tree, hanging, deltas, i, done, s)),
    decreases deltas.len() - i,
{
    if 0 <= i < deltas.len() {
        if let Some(path) = delta_path(deltas[i]) {
            lemma_file(repo, parent_tree, new_tree, hanging, path, done, s);
            if let (Ok(more), s1) = file_run(
                repo,
                parent_tree,
                new_tree,
                hanging,
                path,
                done,
                s,
            ) {
                lemma_files(repo, parent_tree, new_tree, hanging, deltas, i + 1, more, s1);
            }
        }
    }
}

proof fn lemma_reconstruct(
    repo: RepositoryView,
    new_commit: ObjectView,
    parent: ObjectView,
    hanging: Seq<char>,
    s: Tape,
)
    ensures
        leaves_logs(reconstruct_run(repo, new_commit, parent, hanging, s)),
{
    assert forall|p: ObjectView, n: ObjectView, deltas: Seq<Delta>, s1: Tape|
        leaves_logs(
            #[trigger] files_run(repo, p, n, hanging, deltas, 0, Seq::empty(), s1),
        ) by {
        lemma_files(repo, p, n, hanging, deltas, 0, Seq::empty(), s1);
    }
}

proof fn lemma_apply_merge(
    repo: RepositoryView,
    base: Seq<char>,
    parent: Seq<char>,
    head: Seq<char>,
    s: Tape,
)
    ensures
        leaves_logs(apply_merge_run(repo, base, parent, head, s)),
{
}

proof fn lemma_delete(repo: RepositoryView, commit: Seq<char>, s: Tape)
    ensures
        leaves_logs(delete_run(repo, commit, s)),
{
}

proof fn lemma_path(
    repo: RepositoryView,
    head: Seq<char>,
    base: Seq<char>,
    current: Seq<char>,
    walked: Seq<Seq<char>>,
    s: Tape,
)
    ensures
        leaves_logs(path_run(repo, head, base, current, walked, s)),
    decreases s.replies.len() - s.next,
{
    lemma_parent_advances(repo, current, 0, s);
    if current != base && parent_run(repo, current, 0, s).0 is Ok {
        let (found, s1) = parent_run(repo, current, 0, s);
        lemma_path(repo, head, base, found->Ok_0.oid, walked.push(current), s1);
    }
}

proof fn lemma_contents(
    repo: RepositoryView,
    attestations: Seq<FileAttestationView>,
    from: Seq<char>,
    complaint: Seq<char>,
    i: int,
    done: Seq<(Seq<char>, Seq<char>)>,
    s: Tape,
)
    ensures
        leaves_logs(contents_run(repo, attestations, from, complaint, i, done, s)),
    decreases attestations.len() - i,
{
    if 0 <= i < attestations.len() {
        let path = attestations[i].file_path;
        if let (Ok(content), s1) = version_run(repo, path, from, complaint, s) {
            let more = with_value(done, attestations[i].file_path, content);
            lemma_contents(repo, attestations, from, complaint, i + 1, more, s1);
        }
    }
}

proof fn lemma_converted(
    repo: RepositoryView,
    log: AuthorshipLogView,
    from: Seq<char>,
    complaint: Seq<char>,
    s: Tape,
)
    ensures
        leaves_logs(converted_run(repo, log, from, complaint, s)),
{
    lemma_contents(repo, log.attestations, from, complaint, 0, Seq::empty(), s);
}

proof fn lemma_persist_entries(
    repo: RepositoryView,
    base: Seq<char>,
    from: Seq<char>,
    complaint: Seq<char>,
    entries: Seq<WorkingLogEntryView>,
    i: int,
    done: Seq<WorkingLogEntryView>,
    s: Tape,
)
    ensures
        keeps_files_only(
            persist_entries_run(repo, base, from, complaint, entries, i, done, s),
            base,
        ),
    decreases entries.len() - i,
{
    if 0 <= i < entries.len() {
        if let (Ok(content), s1) = version_run(repo, entries[i].file, from, complaint, s) {
            let request = RequestView::PersistFile { base, content };
            if let (Ok(blob_sha), s2) = or_fail(asked_text(s1, request)) {
                let more = done.push(WorkingLogEntryView { blob_sha, ..entries[i] });
                lemma_persist_entries(repo, base, from, complaint, entries, i + 1, more, s2);
            }
        }
    }
}

proof fn lemma_persist(
    repo: RepositoryView,
    checkpoint: CheckpointView,
    base: Seq<char>,
    from: Seq<char>,
    complaint: Seq<char>,
    s: Tape,
)
    ensures
        keeps_files_only(persist_run(repo, checkpoint, base, from, complaint, s), base),
{
    lemma_persist_entries(repo, base, from, complaint, checkpoint.entries, 0, Seq::empty(), s);
}

proof fn lemma_persist_all(
    repo: RepositoryView,
    checkpoints: Seq<CheckpointView>,
    base: Seq<char>,
    i: int,
    done: Seq<CheckpointView>,
    s: Tape,
)
    ensures
        keeps_files_only(persist_all_run(repo, checkpoints, base, i, done, s), base),
    decreases checkpoints.len() - i,
{
    if 0 <= i < checkpoints.len() {
        lemma_persist(repo, checkpoints[i], base, ""@, "Failed to read staged file: "@, s);
        if let (Ok(kept), s1) = persist_run(
            repo,
            checkpoints[i],
            base,
            ""@,
            "Failed to read staged file: "@,
            s,
        ) {
            lemma_persist_all(repo, checkpoints, base, i + 1, done.push(kept), s1);
        }
    }
}

proof fn lemma_squash_index_log(
    repo: RepositoryView,
    source: Seq<char>,
    target: Seq<char>,
    s: Tape,
)
    ensures
        leaves_logs(squash_index_log_run(repo, source, target, s)),
{
    assert forall|base: Seq<char>, s1: Tape|
        leaves_logs(#[trigger] path_to_base_run(repo, source, base, s1)) by {
        lemma_path_to_base(repo, source, base, s1);
    }
    assert forall|base: Seq<char>, s1: Tape|
        leaves_logs(#[trigger] apply_merge_run(repo, base, target, source, s1)) by {
        lemma_apply_merge(repo, base, target, source, s1);
    }
    assert forall|base: Seq<char>, hanging: Seq<char>, tree: Seq<char>, s1: Tape|
        leaves_logs(#[trigger] index_log_run(repo, target, base, hanging, tree, s1)) by {
        lemma_index_log(repo, target, base, hanging, tree, s1);
    }
}

proof fn lemma_path_to_base(repo: RepositoryView, head: Seq<char>, base: Seq<char>, s: Tape)
    ensures
        leaves_logs(path_to_base_run(repo, head, base, s)),
{
    if let (Ok(_), s1) = find_run(repo, "commit"@, head, s) {
        lemma_path(repo, head, base, head, Seq::empty(), s1);
    }
}

proof fn lemma_index_log(
    repo: RepositoryView,
    target: Seq<char>,
    base: Seq<char>,
    hanging: Seq<char>,
    tree: Seq<char>,
    s: Tape,
)
    ensures
        leaves_logs(index_log_run(repo, target, base, hanging, tree, s)),
{
    assert forall|temp: ObjectView, parent: ObjectView, s1: Tape|
        leaves_logs(#[trigger] reconstruct_run(repo, temp, parent, hanging, s1)) by {
        lemma_reconstruct(repo, temp, parent, hanging, s1);
    }
    assert forall|commit: Seq<char>, s1: Tape|
        leaves_logs(#[trigger] delete_run(repo, commit, s1)) by {
        lemma_delete(repo, commit, s1);
    }
}

/// Preparing checkpoints after a squash only prepares them: no note, no working log and no rewrite
/// log is changed. What is kept is the files that the checkpoints name.
pub proof fn law_preparing_changes_no_log(
    repo: RepositoryView,
    source: Seq<char>,
    target: Seq<char>,
    s: Tape,
)
    ensures
        keeps_files_only(prepare_run(repo, source, target, s), target),
{
    lemma_squash_index_log(repo, source, target, s);
    if let (Ok(log), s1) = squash_index_log_run(repo, source, target, s) {
        lemma_converted(repo, log, ""@, "Failed to read staged file: "@, s1);
        if let (Ok(checkpoints), s2) = converted_run(
            repo,
            log,
            ""@,
            "Failed to read staged file: "@,
            s1,
        ) {
            lemma_persist_all(repo, checkpoints, target, 0, Seq::empty(), s2);
        }
    }
}

proof fn lemma_squash_log(
    repo: RepositoryView,
    head: Seq<char>,
    new_sha: Seq<char>,
    base: Seq<char>,
    new_commit: ObjectView,
    new_parent: ObjectView,
    s: Tape,
)
    ensures
        leaves_logs(squash_log_run(repo, head, new_sha, base, new_commit, new_parent, s)),
{
    assert forall|parent: Seq<char>, s1: Tape|
        leaves_logs(#[trigger] apply_merge_run(repo, base, parent, head, s1)) by {
        lemma_apply_merge(repo, base, parent, head, s1);
    }
    assert forall|hanging: Seq<char>, s1: Tape|
        leaves_logs(#[trigger] reconstruct_run(repo, new_commit, new_parent, hanging, s1)) by {
        lemma_reconstruct(repo, new_commit, new_parent, hanging, s1);
    }
    assert forall|commit: Seq<char>, s1: Tape|
        leaves_logs(#[trigger] delete_run(repo, commit, s1)) by {
        lemma_delete(repo, commit, s1);
    }
}

/// Making the log of a squash changes no note but that of the new commit, no working log and no
/// rewrite log; a dry run changes nothing at all.
pub proof fn law_squash_writes_one_note(
    repo: RepositoryView,
    head: Seq<char>,
    new_sha: Seq<char>,
    dry_run: bool,
    s: Tape,
)
    ensures
        notes_only(squash_run(repo, head, new_sha, dry_run, s), seq![new_sha]),
        reads_logs_of(squash_run(repo, head, new_sha, dry_run, s), Seq::empty()),
        dry_run ==> leaves_logs(squash_run(repo, head, new_sha, dry_run, s)),
{
    assert(seq![new_sha][0] == new_sha);
    assert forall|base: Seq<char>, s1: Tape|
        leaves_logs(#[trigger] path_to_base_run(repo, head, base, s1)) by {
        lemma_path_to_base(repo, head, base, s1);
    }
    assert forall|base: Seq<char>, new_commit: ObjectView, new_parent: ObjectView, s1: Tape|
        leaves_logs(
            #[trigger] squash_log_run(repo, head, new_sha, base, new_commit, new_parent, s1),
        ) by {
        lemma_squash_log(repo, head, new_sha, base, new_commit, new_parent, s1);
    }
}

proof fn lemma_reconstruct_commit(
    repo: RepositoryView,
    old_sha: Seq<char>,
    new_sha: Seq<char>,
    s: Tape,
)
    ensures
        leaves_logs(reconstruct_commit_run(repo, old_sha, new_sha, s)),
{
    assert forall|base: Seq<char>, parent: Seq<char>, s1: Tape|
        leaves_logs(#[trigger] apply_merge_run(repo, base, parent, old_sha, s1)) by {
        lemma_apply_merge(repo, base, parent, old_sha, s1);
    }
    assert forall|commit: ObjectView, parent: ObjectView, hanging: Seq<char>, s1: Tape|
        leaves_logs(#[trigger] reconstruct_run(repo, commit, parent, hanging, s1)) by {
        lemma_reconstruct(repo, commit, parent, hanging, s1);
    }
    assert forall|commit: Seq<char>, s1: Tape|
        leaves_logs(#[trigger] delete_run(repo, commit, s1)) by {
        lemma_delete(repo, commit, s1);
    }
}

/// Carrying a log over to the commit that takes the place of another changes no note but that of
/// the new commit, no working log and no rewrite log.
pub proof fn law_single_writes_one_note(
    repo: RepositoryView,
    old_sha: Seq<char>,
    new_sha: Seq<char>,
    s: Tape,
)
    ensures
        notes_only(single_run(repo, old_sha, new_sha, s), seq![new_sha]),
        reads_logs_of(single_run(repo, old_sha, new_sha, s), seq![old_sha]),
{
    assert(seq![new_sha][0] == new_sha);
    assert(seq![old_sha][0] == old_sha);
    assert forall|s1: Tape| leaves_logs(
        #[trigger] reconstruct_commit_run(repo, old_sha, new_sha, s1),
    ) by {
        lemma_reconstruct_commit(repo, old_sha, new_sha, s1);
    }
}

proof fn lemma_pairs(
    repo: RepositoryView,
    old_shas: Seq<Seq<char>>,
    new_shas: Seq<Seq<char>>,
    i: int,
    s: Tape,
)
    ensures
        notes_only(pairs_run(repo, old_shas, new_shas, i, s), new_shas),
        notes_only(cherry_pick_run(repo, old_shas, new_shas, i, s), new_shas),
        reads_logs_of(pairs_run(repo, old_shas, new_shas, i, s), old_shas),
        reads_logs_of(cherry_pick_run(repo, old_shas, new_shas, i, s), old_shas),
        !(cherry_pick_run(repo, old_shas, new_shas, i, s).0 matches Err(StopView::Fail(_))),
    decreases new_shas.len() - i,
{
    if 0 <= i < new_shas.len() && i < old_shas.len() {
        law_single_writes_one_note(repo, old_shas[i], new_shas[i], s);
        lemma_pairs(
            repo,
            old_shas,
            new_shas,
            i + 1,
            single_run(repo, old_shas[i], new_shas[i], s).1,
        );
    }
}

proof fn lemma_squashed(
    repo: RepositoryView,
    head: Seq<char>,
    new_shas: Seq<Seq<char>>,
    i: int,
    s: Tape,
)
    ensures
        notes_only(squashed_run(repo, head, new_shas, i, s), new_shas),
        reads_logs_of(squashed_run(repo, head, new_shas, i, s), Seq::empty()),
    decreases new_shas.len() - i,
{
    if 0 <= i < new_shas.len() {
        law_squash_writes_one_note(repo, head, new_shas[i], false, s);
        lemma_squashed(
            repo,
            head,
            new_shas,
            i + 1,
            squash_run(repo, head, new_shas[i], false, s).1,
        );
    }
}

proof fn lemma_any_original(
    repo: RepositoryView,
    old_shas: Seq<Seq<char>>,
    j: int,
    new_sha: Seq<char>,
    s: Tape,
)
    ensures
        notes_only(any_original_run(repo, old_shas, j, new_sha, s), seq![new_sha]),
        reads_logs_of(any_original_run(repo, old_shas, j, new_sha, s), old_shas),
    decreases old_shas.len() - j,
{
    if 0 <= j < old_shas.len() {
        law_single_writes_one_note(repo, old_shas[j], new_sha, s);
        lemma_any_original(
            repo,
            old_shas,
            j + 1,
            new_sha,
            single_run(repo, old_shas[j], new_sha, s).1,
        );
    }
}

proof fn lemma_split(
    repo: RepositoryView,
    head: Seq<char>,
    old_shas: Seq<Seq<char>>,
    new_shas: Seq<Seq<char>>,
    i: int,
    s: Tape,
)
    ensures
        notes_only(split_run(repo, head, old_shas, new_shas, i, s), new_shas),
        reads_logs_of(split_run(repo, head, old_shas, new_shas, i, s), old_shas),
    decreases new_shas.len() - i,
{
    if 0 <= i < new_shas.len() {
        law_squash_writes_one_note(repo, head, new_shas[i], false, s);
        let s1 = squash_run(repo, head, new_shas[i], false, s).1;
        lemma_split(repo, head, old_shas, new_shas, i + 1, s1);
        lemma_any_original(repo, old_shas, 0, new_shas[i], s1);
        let s2 = any_original_run(repo, old_shas, 0, new_shas[i], s1).1;
        lemma_split(repo, head, old_shas, new_shas, i + 1, s2);
    }
}

/// After a rebase, no note is changed but those of the new commits, and no working log and no
/// rewrite log; and no log is carried over but those of the original commits.
pub proof fn law_rebase_writes_notes_of_new_commits(
    repo: RepositoryView,
    old_shas: Seq<Seq<char>>,
    new_shas: Seq<Seq<char>>,
    s: Tape,
)
    ensures
        notes_only(rebase_run(repo, old_shas, new_shas, s), new_shas),
        reads_logs_of(rebase_run(repo, old_shas, new_shas, s), old_shas),
{
    lemma_pairs(repo, old_shas, new_shas, 0, s);
    lemma_squashed(repo, old_shas.last(), new_shas, 0, s);
    lemma_split(repo, old_shas.last(), old_shas, new_shas, 0, s);
}

/// After a cherry-pick, no note is changed but those of the new commits, and no working log and no
/// rewrite log; no log is carried over but those of the sources; and a commit whose log cannot be
/// carried over makes nothing fail.
pub proof fn law_cherry_pick_writes_notes_of_new_commits(
    repo: RepositoryView,
    sources: Seq<Seq<char>>,
    new_shas: Seq<Seq<char>>,
    s: Tape,
)
    ensures
        notes_only(cherry_pick_run(repo, sources, new_shas, 0, s), new_shas),
        reads_logs_of(cherry_pick_run(repo, sources, new_shas, 0, s), sources),
        !(cherry_pick_run(repo, sources, new_shas, 0, s).0 matches Err(StopView::Fail(_))),
{
    lemma_pairs(repo, sources, new_shas, 0, s);
}

/// Copying a log keeps all of it but the commit that it is for.
pub proof fn law_copy_keeps_the_log(
    from: Seq<char>,
    to: Seq<char>,
    log: AuthorshipLog,
    text: String,
)
    ensures
        ({
            let asked = copy_run(
                from,
                to,
                Tape { replies: seq![Reply::Log(Ok(log))], next: 0 },
            ).0;
            &&& asked matches Err(StopView::Pending(RequestView::SerializeLog { log: copy }))
            &&& copy.attestations == log.deep_view().attestations
            &&& copy.metadata == (AuthorshipMetadataView {
                base_commit_sha: to,
                ..log.deep_view().metadata
            })
        }),
        copy_run(
            from,
            to,
            Tape { replies: seq![Reply::Log(Ok(log)), Reply::Text(Ok(text))], next: 0 },
        ).0 == Err::<(), StopView>(
            StopView::Pending(RequestView::AddNote { commit: to, text: text@ }),
        ),
{
}

/// Amending a commit changes no note but that of the amended commit, and no working log but that
/// on top of the original, which is removed.
pub proof fn law_amend_changes(
    original: Seq<char>,
    amended: Seq<char>,
    author: Seq<char>,
    s: Tape,
)
    ensures
        amend_run(original, amended, author, s).0 matches Err(StopView::Pending(request)) ==> {
            ||| !changes_logs(request)
            ||| request matches RequestView::AddNote { commit, .. } && commit == amended
            ||| request == (RequestView::DeleteWorkingLog { base: original })
        },
{
}

proof fn lemma_append_all(
    repo: RepositoryView,
    checkpoints: Seq<CheckpointView>,
    target: Seq<char>,
    temp: Seq<char>,
    i: int,
    s: Tape,
)
    ensures
        append_all_run(repo, checkpoints, target, temp, i, s).0 matches Err(StopView::Pending(request))
            ==> {
            ||| !changes_logs(request)
            ||| request matches RequestView::PersistFile { base, .. } && base == target
            ||| request matches RequestView::AppendCheckpoint { base, .. } && base == target
        },
    decreases checkpoints.len() - i,
{
    if 0 <= i < checkpoints.len() {
        lemma_persist(repo, checkpoints[i], target, temp, "Failed to read file: "@, s);
        if let (Ok(checkpoint), s1) = persist_run(
            repo,
            checkpoints[i],
            target,
            temp,
            "Failed to read file: "@,
            s,
        ) {
            let request = RequestView::AppendCheckpoint { base: target, checkpoint };
            if let (Ok(_), s2) = must(s1, request) {
                lemma_append_all(repo, checkpoints, target, temp, i + 1, s2);
            }
        }
    }
}

proof fn lemma_reset_finish(
    repo: RepositoryView,
    log: AuthorshipLogView,
    target: Seq<char>,
    old_head: Seq<char>,
    temp: Seq<char>,
    hanging: Seq<char>,
    s: Tape,
)
    ensures
        reset_finish_run(repo, log, target, old_head, temp, hanging, s).0 matches Err(
            StopView::Pending(request),
        ) ==> {
            ||| !changes_logs(request)
            ||| request == (RequestView::ResetWorkingLog { base: target })
            ||| request matches RequestView::PersistFile { base, .. } && base == target
            ||| request matches RequestView::AppendCheckpoint { base, .. } && base == target
            ||| request == (RequestView::DeleteWorkingLog { base: old_head })
        },
{
    lemma_converted(repo, log, temp, "Failed to read file: "@, s);
    assert forall|commit: Seq<char>, s1: Tape|
        leaves_logs(#[trigger] delete_run(repo, commit, s1)) by {
        lemma_delete(repo, commit, s1);
    }
    if let (Ok(checkpoints), s1) = converted_run(repo, log, temp, "Failed to read file: "@, s) {
        if let (Ok(_), s2) = must(s1, RequestView::ResetWorkingLog { base: target }) {
            lemma_append_all(repo, checkpoints, target, temp, 0, s2);
        }
    }
}

proof fn lemma_hanging_log(old_head: Seq<char>, hanging: Seq<char>, author: Seq<char>, s: Tape)
    ensures
        notes_only(hanging_log_run(old_head, hanging, author, s), seq![hanging]),
{
    assert(seq![hanging][0] == hanging);
}

proof fn lemma_reset_log(
    repo: RepositoryView,
    target: Seq<char>,
    old_head: Seq<char>,
    author: Seq<char>,
    temp: Seq<char>,
    hanging: Seq<char>,
    s: Tape,
)
    ensures
        notes_only(
            reset_log_run(repo, target, old_head, author, temp, hanging, s),
            seq![hanging],
        ),
{
    lemma_hanging_log(old_head, hanging, author, s);
    assert forall|one: ObjectView, two: ObjectView, s1: Tape|
        leaves_logs(#[trigger] reconstruct_run(repo, one, two, hanging, s1)) by {
        lemma_reconstruct(repo, one, two, hanging, s1);
    }
}

proof fn lemma_reset_commits(
    repo: RepositoryView,
    target: Seq<char>,
    old_head: Seq<char>,
    s: Tape,
)
    ensures
        leaves_logs(reset_commits_run(repo, target, old_head, s)),
{
}

/// After a reset, no note is changed but that of the commit that was made for blame, and no
/// working log but that on top of the target, which is made anew, and that on top of the old HEAD,
/// which is removed.
pub proof fn law_reset_changes(
    repo: RepositoryView,
    target: Seq<char>,
    old_head: Seq<char>,
    author: Seq<char>,
    s: Tape,
)
    ensures
        reset_run(repo, target, old_head, author, s).0 matches Err(StopView::Pending(request)) ==> {
            ||| !changes_logs(request)
            ||| request matches RequestView::AddNote { commit, .. } && (reset_commits_run(
                repo,
                target,
                old_head,
                s,
            ).0 matches Ok((_, hanging)) && commit == hanging)
            ||| request == (RequestView::ResetWorkingLog { base: target })
            ||| request matches RequestView::PersistFile { base, .. } && base == target
            ||| request matches RequestView::AppendCheckpoint { base, .. } && base == target
            ||| request == (RequestView::DeleteWorkingLog { base: old_head })
        },
{
    lemma_reset_commits(repo, target, old_head, s);
    if let (Ok((temp, hanging)), s1) = reset_commits_run(repo, target, old_head, s) {
        lemma_reset_log(repo, target, old_head, author, temp, hanging, s1);
        if let (Ok(log), s2) = reset_log_run(
            repo,
            target,
            old_head,
            author,
            temp,
            hanging,
            s1,
        ) {
            lemma_reset_finish(repo, log, target, old_head, temp, hanging, s2);
        }
    }
}

proof fn lemma_add_checkpoints(
    checkpoints: Seq<CheckpointView>,
    target: Seq<char>,
    i: int,
    s: Tape,
)
    ensures
        add_checkpoints_run(checkpoints, target, i, s).0 matches Err(StopView::Pending(request))
            ==> request matches RequestView::AppendCheckpoint { base, .. } && base == target,
    decreases checkpoints.len() - i,
{
    if 0 <= i < checkpoints.len() {
        let request = RequestView::AppendCheckpoint { base: target, checkpoint: checkpoints[i] };
        if let (Ok(_), s1) = must(s, request) {
            lemma_add_checkpoints(checkpoints, target, i + 1, s1);
        }
    }
}

/// After a squash into the index, no note is changed, and no working log but that on top of the
/// base, which is made anew.
pub proof fn law_merge_squash_changes(
    repo: RepositoryView,
    source_head: Seq<char>,
    base_head: Seq<char>,
    s: Tape,
)
    ensures
        merge_squash_run(repo, source_head, base_head, s).0 matches Err(StopView::Pending(request))
            ==> {
            ||| !changes_logs(request)
            ||| request == (RequestView::DeleteWorkingLog { base: base_head })
            ||| request matches RequestView::PersistFile { base, .. } && base == base_head
            ||| request matches RequestView::AppendCheckpoint { base, .. } && base == base_head
        },
{
    if let (Ok(_), s1) = must(s, RequestView::DeleteWorkingLog { base: base_head }) {
        law_preparing_changes_no_log(repo, source_head, base_head, s1);
        if let (Ok(checkpoints), s2) = prepare_run(repo, source_head, base_head, s1) {
            lemma_add_checkpoints(checkpoints, base_head, 0, s2);
        }
    }
}

/// What an event changes. A commit has what there is to do behind it done, for just that commit on
/// just that parent. An amended commit gets a note, and the working log on top of the one whose
/// place it takes is removed. A squashed merge changes the working log on top of the commit that it
/// was merged into. A rebase and a cherry-pick write notes for their new commits, out of the logs of
/// the commits that those were made from. Any other event changes nothing.
#[verifier::rlimit(30)]
pub proof fn law_event_changes(
    repo: RepositoryView,
    event: RewriteLogEventView,
    author: Seq<char>,
    quiet: bool,
    s: Tape,
)
    ensures
        event_run(repo, event, author, quiet, s).0 matches Err(StopView::Pending(request)) ==> (
        changes_logs(request) ==> match event {
            RewriteLogEventView::Commit { base_commit, commit_sha } => request == (
            RequestView::PostCommit { parent: base_commit, commit: commit_sha, author, quiet }),
            RewriteLogEventView::CommitAmend { original_commit, amended_commit_sha } => {
                ||| request matches RequestView::AddNote { commit, .. } && commit
                    == amended_commit_sha
                ||| request == (RequestView::DeleteWorkingLog { base: original_commit })
            },
            RewriteLogEventView::MergeSquash { base_head, .. } => {
                ||| request == (RequestView::DeleteWorkingLog { base: base_head })
                ||| request matches RequestView::PersistFile { base, .. } && base == base_head
                ||| request matches RequestView::AppendCheckpoint { base, .. } && base == base_head
            },
            RewriteLogEventView::RebaseComplete { new_commits, .. } => request
                matches RequestView::AddNote { commit, .. } && new_commits.contains(commit),
            RewriteLogEventView::CherryPickComplete { new_commits, .. } => request
                matches RequestView::AddNote { commit, .. } && new_commits.contains(commit),
            RewriteLogEventView::Other(_) => false,
        }),
        match event {
            RewriteLogEventView::CommitAmend { original_commit, .. } => reads_logs_of(
                event_run(repo, event, author, quiet, s),
                seq![original_commit],
            ),
            RewriteLogEventView::RebaseComplete { original_commits, .. } => reads_logs_of(
                event_run(repo, event, author, quiet, s),
                original_commits,
            ),
            RewriteLogEventView::CherryPickComplete { source_commits, .. } => reads_logs_of(
                event_run(repo, event, author, quiet, s),
                source_commits,
            ),
            _ => true,
        },
        event is Other ==> event_run(repo, event, author, quiet, s) == (
            Ok::<(), StopView>(()),
            s,
        ),
{
    match event {
        RewriteLogEventView::CommitAmend { original_commit, amended_commit_sha } => {
            law_amend_changes(original_commit, amended_commit_sha, author, s);
            assert(seq![original_commit][0] == original_commit);
        },
        RewriteLogEventView::MergeSquash { source_head, base_head, .. } => {
            law_merge_squash_changes(repo, source_head, base_head, s);
        },
        RewriteLogEventView::RebaseComplete { original_commits, new_commits } => {
            law_rebase_writes_notes_of_new_commits(repo, original_commits, new_commits, s);
        },
        RewriteLogEventView::CherryPickComplete { source_commits, new_commits } => {
            law_cherry_pick_writes_notes_of_new_commits(repo, source_commits, new_commits, s);
        },
        _ => {},
    }
}

} // verus!
