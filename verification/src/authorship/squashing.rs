//! Commits put together, put back and merged into the index: what is asked for, answer by answer.
use crate::answers::{
    answer, behind, git_command, law_find_commit, law_find_tree, law_first_parent_of, law_git_line,
    law_tree_of, left, lemma_behind, waits_for, wrote, wrote_signature,
};
use crate::assoc::{by_key, lemma_place_of, with_value};
use crate::authorship::authorship_log::{AuthorshipLogView, FileAttestationView};
use crate::authorship::carrying::{name_question, one_after_other, type_question};
use crate::authorship::hanging::{
    answers_merge, author_question, commit_command, committer_question, is_someone,
    law_changes_are_from_parent_to_commit, law_commit_is_made_as_another,
    law_difference_is_merged_onto_head, law_hanging_commit_is_removed, merges_onto,
};
use crate::authorship::rebase_authorship::{
    add_checkpoints_run, ai_checkpoints, any_original_run, append_all_run, captured_run,
    combined_hash, contents_run, converted_run, event_run, file_hashes, hanging_log_run,
    index_commit_run, index_log_run, joined_bytes, law_ai_checkpoints, origin_base_run, path_run,
    path_to_base_run, persist_all_run, persist_entries_run, persist_run, prepare_run,
    reset_commits_run, reset_finish_run, reset_log_run, reset_message, reset_run, single_run,
    split_run, squash_index_log_run, squash_log_run, squash_run, squashed_run, version_run,
    PATH_LIMIT,
};
use crate::authorship::working_log::{CheckpointKind, CheckpointView, WorkingLogEntryView};
use crate::digest::sha256_hex;
use crate::git::repository::{ObjectView, RepositoryView, SignatureView};
use crate::git::rewrite_log::RewriteLogEventView;
use crate::session::{asked_text, or_fail, Reply, RequestView, Run, StopView, Tape};
use crate::text::utf8_text;
use vstd::prelude::*;
use vstd::utf8::encode_utf8;

verus! {

broadcast use vstd::seq::group_seq_axioms;

// ---------------------------------------------------------------------------------------------
// From a commit back to another
// ---------------------------------------------------------------------------------------------
/// The commits from one on, each followed by its first parent, down to `base`, which stands at the
/// end and nowhere else.
pub open spec fn leads_to(chain: Seq<Seq<char>>, base: Seq<char>) -> bool {
    &&& chain.len() > 0
    &&& chain.last() == base
    &&& forall|k: int| 0 <= k < chain.len() - 1 ==> #[trigger] chain[k] != base
}

proof fn lemma_path_steps(
    repo: RepositoryView,
    base: Seq<char>,
    chain: Seq<Seq<char>>,
    i: int,
    s: Tape,
)
    requires
        leads_to(chain, base),
        2 <= chain.len() <= PATH_LIMIT + 1,
        0 <= i < chain.len(),
        0 <= s.next <= s.replies.len(),
        left(s) <= chain.len() - 1 - i,
        forall|k: int| 0 <= k < left(s) ==> wrote(#[trigger] answer(s, k), chain[i + k + 1]),
    ensures
        ({
            let run = path_run(repo, chain[0], base, chain[i], chain.take(i), s);
            &&& left(s) < chain.len() - 1 - i ==> waits_for(
                run,
                name_question(repo, chain[i + left(s)] + "^1"@),
            )
            &&& left(s) == chain.len() - 1 - i ==> run == (
                Ok::<Seq<Seq<char>>, StopView>(chain.drop_last().reverse()),
                behind(s, left(s)),
            )
        }),
    decreases chain.len() - i,
{
    if i + 1 < chain.len() {
        let s1 = behind(s, 1);
        lemma_behind(s, 1);
        law_first_parent_of(repo, chain[i], chain[i + 1], s);
        assert(chain.take(i).push(chain[i]) =~= chain.take(i + 1));
        if left(s) > 0 {
            assert(wrote(answer(s, 0), chain[i + 1]));
            assert forall|k: int| 0 <= k < left(s1) implies wrote(
                #[trigger] answer(s1, k),
                chain[i + 1 + k + 1],
            ) by {
                assert(wrote(answer(s, k + 1), chain[i + (k + 1) + 1]));
            }
            lemma_path_steps(repo, base, chain, i + 1, s1);
            assert(behind(s1, left(s1)) == behind(s, left(s)));
        }
    } else {
        assert(chain.take(i) =~= chain.drop_last());
        assert(behind(s, 0) == s);
    }
}

/// The way from a commit back to another goes from first parent to first parent, and is given with
/// the oldest commit first, the one that it starts with last, and without the one that it leads to.
pub proof fn law_path_goes_by_first_parents(
    repo: RepositoryView,
    base: Seq<char>,
    chain: Seq<Seq<char>>,
    s: Tape,
)
    requires
        leads_to(chain, base),
        2 <= chain.len() <= PATH_LIMIT + 1,
        0 <= s.next <= s.replies.len(),
        left(s) <= chain.len(),
        left(s) > 0 ==> wrote(answer(s, 0), "commit"@),
        forall|k: int| 1 <= k < left(s) ==> wrote(#[trigger] answer(s, k), chain[k]),
    ensures
        ({
            let run = path_to_base_run(repo, chain[0], base, s);
            &&& left(s) == 0 ==> waits_for(run, type_question(repo, chain[0]))
            &&& 0 < left(s) < chain.len() ==> waits_for(
                run,
                name_question(repo, chain[left(s) - 1] + "^1"@),
            )
            &&& left(s) == chain.len() ==> run == (
                Ok::<Seq<Seq<char>>, StopView>(chain.drop_last().reverse()),
                behind(s, left(s)),
            )
        }),
{
    law_find_commit(repo, chain[0], s);
    if left(s) > 0 {
        let s1 = behind(s, 1);
        lemma_behind(s, 1);
        assert forall|k: int| 0 <= k < left(s1) implies wrote(
            #[trigger] answer(s1, k),
            chain[0 + k + 1],
        ) by {
            assert(wrote(answer(s, k + 1), chain[k + 1]));
        }
        assert(chain.take(0) =~= Seq::<Seq<char>>::empty());
        lemma_path_steps(repo, base, chain, 0, s1);
        assert(behind(s1, left(s1)) == behind(s, left(s)));
    }
}

// ---------------------------------------------------------------------------------------------
// Commits put together
// ---------------------------------------------------------------------------------------------
/// The answers, as far as there are any, when commits were put together into one that changes
/// nothing, of which there was one, on top of `base`.
pub open spec fn answers_squash(
    s: Tape,
    base: Seq<char>,
    new_parent: Seq<char>,
    base_tree: Seq<char>,
    parent_tree: Seq<char>,
    tree: Seq<char>,
    author: SignatureView,
    committer: SignatureView,
    hanging: Seq<char>,
    new_tree: Seq<char>,
) -> bool {
    &&& 0 <= s.next <= s.replies.len()
    &&& left(s) > 0 ==> wrote(answer(s, 0), "commit"@)
    &&& left(s) > 1 ==> wrote(answer(s, 1), "commit"@)
    &&& left(s) > 2 ==> wrote(answer(s, 2), base)
    &&& left(s) > 3 ==> wrote(answer(s, 3), "commit"@)
    &&& left(s) > 4 ==> wrote(answer(s, 4), base)
    &&& left(s) > 5 ==> wrote(answer(s, 5), "commit"@)
    &&& left(s) > 6 ==> wrote(answer(s, 6), new_parent)
    &&& left(s) > 7 ==> wrote(answer(s, 7), "commit"@)
    &&& left(s) > 8 ==> wrote(answer(s, 8), base_tree)
    &&& left(s) > 9 ==> wrote(answer(s, 9), parent_tree)
    &&& left(s) > 10 ==> (answer(s, 10) matches Reply::Deltas(Ok(_)))
    &&& left(s) >= 11 ==> answers_merge(behind(s, 11), tree, author, committer, hanging)
    &&& left(s) > 19 ==> wrote(answer(s, 19), new_tree)
    &&& left(s) > 20 ==> wrote(answer(s, 20), parent_tree)
    &&& left(s) > 21 ==> (answer(s, 21) matches Reply::Deltas(Ok(deltas)) && deltas@.len() == 0)
    &&& left(s) > 22 ==> wrote(answer(s, 22), "commit"@)
    &&& left(s) > 23 ==> answer(s, 23) is Exit
}

proof fn lemma_squash_log(
    repo: RepositoryView,
    head: Seq<char>,
    new_sha: Seq<char>,
    base: Seq<char>,
    new_parent: Seq<char>,
    base_tree: Seq<char>,
    parent_tree: Seq<char>,
    tree: Seq<char>,
    author: SignatureView,
    committer: SignatureView,
    hanging: Seq<char>,
    new_tree: Seq<char>,
    s: Tape,
)
    requires
        0 <= s.next <= s.replies.len(),
        left(s) > 0 ==> wrote(answer(s, 0), "commit"@),
        left(s) > 1 ==> wrote(answer(s, 1), base_tree),
        left(s) > 2 ==> wrote(answer(s, 2), parent_tree),
        left(s) > 3 ==> (answer(s, 3) matches Reply::Deltas(Ok(_))),
        left(s) >= 4 ==> answers_merge(behind(s, 4), tree, author, committer, hanging),
        left(s) > 12 ==> wrote(answer(s, 12), new_tree),
        left(s) > 13 ==> wrote(answer(s, 13), parent_tree),
        left(s) > 14 ==> (answer(s, 14) matches Reply::Deltas(Ok(deltas)) && deltas@.len() == 0),
        left(s) > 15 ==> wrote(answer(s, 15), "commit"@),
        left(s) > 16 ==> answer(s, 16) is Exit,
    ensures
        ({
            let run = squash_log_run(
                repo,
                head,
                new_sha,
                base,
                ObjectView { repo, oid: new_sha },
                ObjectView { repo, oid: new_parent },
                s,
            );
            &&& left(s) == 0 ==> waits_for(run, type_question(repo, base))
            &&& left(s) == 1 ==> waits_for(run, name_question(repo, base + "^{tree}"@))
            &&& left(s) == 2 ==> waits_for(run, name_question(repo, new_parent + "^{tree}"@))
            &&& left(s) == 3 ==> waits_for(
                run,
                RequestView::DiffTrees { old_tree: base_tree, new_tree: parent_tree },
            )
            &&& left(s) >= 4 ==> merges_onto(
                run,
                repo,
                base,
                new_parent,
                head,
                tree,
                author,
                committer,
                behind(s, 4),
            )
            &&& left(s) == 12 ==> waits_for(run, name_question(repo, new_sha + "^{tree}"@))
            &&& left(s) == 13 ==> waits_for(run, name_question(repo, new_parent + "^{tree}"@))
            &&& left(s) == 14 ==> waits_for(
                run,
                RequestView::DiffTrees { old_tree: parent_tree, new_tree },
            )
            &&& left(s) == 15 ==> waits_for(run, type_question(repo, hanging))
            &&& left(s) == 16 ==> waits_for(run, removal(repo, hanging))
            &&& left(s) > 16 ==> run.1 == behind(s, 17) && (run.0 matches Ok(log)
                && log.metadata.base_commit_sha == new_sha && log.attestations.len() == 0
                && log.metadata.prompts.len() == 0)
        }),
{
    law_find_commit(repo, base, s);
    if left(s) > 0 {
        lemma_behind(s, 1);
        law_tree_of(repo, base, base_tree, behind(s, 1));
        assert(left(s) > 1 ==> answer(behind(s, 1), 0) == answer(s, 1));
    }
    if left(s) > 1 {
        lemma_behind(s, 2);
        law_tree_of(repo, new_parent, parent_tree, behind(s, 2));
        assert(left(s) > 2 ==> answer(behind(s, 2), 0) == answer(s, 2));
    }
    if left(s) > 2 {
        lemma_behind(s, 3);
        assert(left(s) > 3 ==> answer(behind(s, 3), 0) == answer(s, 3));
    }
    if left(s) > 3 {
        let s4 = behind(s, 4);
        lemma_behind(s, 4);
        law_difference_is_merged_onto_head(
            repo,
            base,
            new_parent,
            head,
            tree,
            author,
            committer,
            hanging,
            s4,
        );
        assert(behind(s4, 8) == behind(s, 12));
        if left(s) > 11 {
            let s12 = behind(s, 12);
            lemma_behind(s, 12);
            assert(left(s) > 12 ==> answer(s12, 0) == answer(s, 12));
            assert(left(s) > 13 ==> answer(s12, 1) == answer(s, 13));
            assert(left(s) > 14 ==> answer(s12, 2) == answer(s, 14));
            law_changes_are_from_parent_to_commit(
                repo,
                new_sha,
                new_parent,
                hanging,
                new_tree,
                parent_tree,
                s12,
            );
            if left(s) > 14 {
                let s15 = behind(s, 15);
                assert(behind(s12, 3) == s15);
                lemma_behind(s, 15);
                assert(left(s) > 15 ==> answer(s15, 0) == answer(s, 15));
                assert(left(s) > 16 ==> answer(s15, 1) == answer(s, 16));
                law_hanging_commit_is_removed(repo, hanging, s15);
            }
        }
    }
}

/// The name of a commit on no branch is removed.
pub open spec fn removal(repo: RepositoryView, commit: Seq<char>) -> RequestView {
    RequestView::GitBeside {
        git_dir: repo.git_dir,
        args: seq!["update-ref"@, "-d"@, "refs/heads/temp-"@ + commit],
    }
}

/// The log of a commit in which others were put together: what the last of them and the new one
/// have in common is looked for, and the way back to it; what became of that on the way to the
/// parent of the new commit is merged onto the last of the others; what the new commit changes is
/// compared with the outcome; and the log is written as the new commit's note, and not in a dry run.
#[verifier::rlimit(60)]
#[verifier::spinoff_prover]
pub proof fn law_squash_is_rebuilt(
    repo: RepositoryView,
    head: Seq<char>,
    new_sha: Seq<char>,
    dry_run: bool,
    base: Seq<char>,
    new_parent: Seq<char>,
    base_tree: Seq<char>,
    parent_tree: Seq<char>,
    tree: Seq<char>,
    author: SignatureView,
    committer: SignatureView,
    hanging: Seq<char>,
    new_tree: Seq<char>,
    s: Tape,
)
    requires
        head != base,
        answers_squash(
            s,
            base,
            new_parent,
            base_tree,
            parent_tree,
            tree,
            author,
            committer,
            hanging,
            new_tree,
        ),
    ensures
        ({
            let run = squash_run(repo, head, new_sha, dry_run, s);
            &&& left(s) == 0 ==> waits_for(run, type_question(repo, new_sha))
            &&& left(s) == 1 ==> waits_for(run, type_question(repo, head))
            &&& left(s) == 2 ==> waits_for(
                run,
                git_command(repo.args().push("merge-base"@).push(head).push(new_sha)),
            )
            &&& left(s) == 3 ==> waits_for(run, type_question(repo, head))
            &&& left(s) == 4 ==> waits_for(run, name_question(repo, head + "^1"@))
            &&& left(s) == 5 ==> waits_for(run, type_question(repo, new_sha))
            &&& left(s) == 6 ==> waits_for(run, name_question(repo, new_sha + "^1"@))
            &&& left(s) == 7 ==> waits_for(run, type_question(repo, base))
            &&& left(s) == 8 ==> waits_for(run, name_question(repo, base + "^{tree}"@))
            &&& left(s) == 9 ==> waits_for(run, name_question(repo, new_parent + "^{tree}"@))
            &&& left(s) == 10 ==> waits_for(
                run,
                RequestView::DiffTrees { old_tree: base_tree, new_tree: parent_tree },
            )
            &&& left(s) >= 11 ==> merges_onto(
                run,
                repo,
                base,
                new_parent,
                head,
                tree,
                author,
                committer,
                behind(s, 11),
            )
            &&& left(s) == 19 ==> waits_for(run, name_question(repo, new_sha + "^{tree}"@))
            &&& left(s) == 20 ==> waits_for(run, name_question(repo, new_parent + "^{tree}"@))
            &&& left(s) == 21 ==> waits_for(
                run,
                RequestView::DiffTrees { old_tree: parent_tree, new_tree },
            )
            &&& left(s) == 22 ==> waits_for(run, type_question(repo, hanging))
            &&& left(s) == 23 ==> waits_for(run, removal(repo, hanging))
            &&& left(s) == 24 && !dry_run ==> (run.0 matches Err(
                StopView::Pending(RequestView::SerializeLog { log }),
            ) && log.metadata.base_commit_sha == new_sha)
            &&& left(s) == 24 && dry_run ==> (run.0 matches Ok(log) && log.metadata.base_commit_sha
                == new_sha)
            &&& left(s) == 25 && !dry_run ==> (answer(s, 24) matches Reply::Text(Ok(text))
                ==> waits_for(run, RequestView::AddNote { commit: new_sha, text: text@ }))
            &&& left(s) == 26 && !dry_run && answer(s, 25) == Reply::Done(Ok(())) ==> (answer(s, 24)
                matches Reply::Text(Ok(_)) ==> waits_for(
                run,
                RequestView::Stdout { line: "Authorship log saved to notes/ai/"@ + new_sha },
            ))
        }),
{
    lemma_origin_and_path(repo, head, new_sha, base, s);
    if left(s) > 4 {
        lemma_behind(s, 5);
        law_find_commit(repo, new_sha, behind(s, 5));
        assert(left(s) > 5 ==> answer(behind(s, 5), 0) == answer(s, 5));
    }
    if left(s) > 5 {
        lemma_behind(s, 6);
        law_first_parent_of(repo, new_sha, new_parent, behind(s, 6));
        assert(left(s) > 6 ==> answer(behind(s, 6), 0) == answer(s, 6));
    }
    if left(s) > 6 {
        let s7 = behind(s, 7);
        lemma_behind(s, 7);
        assert(forall|i: int| #[trigger] answer(s7, i) == answer(s, 7 + i));
        assert(behind(s7, 4) == behind(s, 11));
        lemma_squash_log(
            repo,
            head,
            new_sha,
            base,
            new_parent,
            base_tree,
            parent_tree,
            tree,
            author,
            committer,
            hanging,
            new_tree,
            s7,
        );
        if left(s) > 23 {
            assert(behind(s7, 17) == behind(s, 24));
            lemma_behind(s, 24);
            assert(left(s) > 24 ==> answer(behind(s, 24), 0) == answer(s, 24));
            assert(left(s) > 25 ==> answer(behind(s, 24), 1) == answer(s, 25));
        }
    }
}

/// What two commits have in common, and the way of one step back to it.
proof fn lemma_origin_and_path(
    repo: RepositoryView,
    head: Seq<char>,
    new_sha: Seq<char>,
    base: Seq<char>,
    s: Tape,
)
    requires
        head != base,
        0 <= s.next <= s.replies.len(),
        left(s) > 0 ==> wrote(answer(s, 0), "commit"@),
        left(s) > 1 ==> wrote(answer(s, 1), "commit"@),
        left(s) > 2 ==> wrote(answer(s, 2), base),
        left(s) > 3 ==> wrote(answer(s, 3), "commit"@),
        left(s) > 4 ==> wrote(answer(s, 4), base),
    ensures
        ({
            let run = origin_base_run(repo, head, new_sha, s);
            &&& left(s) == 0 ==> waits_for(run, type_question(repo, new_sha))
            &&& left(s) == 1 ==> waits_for(run, type_question(repo, head))
            &&& left(s) == 2 ==> waits_for(
                run,
                git_command(repo.args().push("merge-base"@).push(head).push(new_sha)),
            )
            &&& left(s) > 2 ==> run == (Ok::<Seq<char>, StopView>(base), behind(s, 3))
        }),
        ({
            let run = path_to_base_run(repo, head, base, behind(s, 3));
            &&& left(s) == 3 ==> waits_for(run, type_question(repo, head))
            &&& left(s) == 4 ==> waits_for(run, name_question(repo, head + "^1"@))
            &&& left(s) > 4 ==> run.0 is Ok && run.1 == behind(s, 5)
        }),
{
    law_find_commit(repo, new_sha, s);
    if left(s) > 0 {
        lemma_behind(s, 1);
        law_find_commit(repo, head, behind(s, 1));
        assert(left(s) > 1 ==> answer(behind(s, 1), 0) == answer(s, 1));
    }
    if left(s) > 1 {
        lemma_behind(s, 2);
        law_git_line(behind(s, 2), repo.args().push("merge-base"@).push(head).push(new_sha), base);
        assert(left(s) > 2 ==> answer(behind(s, 2), 0) == answer(s, 2));
    }
    if left(s) > 2 {
        lemma_behind(s, 3);
        law_find_commit(repo, head, behind(s, 3));
        assert(left(s) > 3 ==> answer(behind(s, 3), 0) == answer(s, 3));
    }
    if left(s) > 3 {
        let s4 = behind(s, 4);
        lemma_behind(s, 4);
        law_first_parent_of(repo, head, base, s4);
        assert(left(s) > 4 ==> answer(s4, 0) == answer(s, 4));
        assert(behind(s4, 1) == behind(s, 5));
        let walked = Seq::<Seq<char>>::empty().push(head);
        assert(path_run(repo, head, base, base, walked, behind(s, 5)).0 is Ok);
        assert(path_run(repo, head, base, base, walked, behind(s, 5)).1 == behind(s, 5));
    }
}

/// Where a rebase made fewer commits than there were, or more, the log of the first of the new ones
/// is looked for from the last of the originals.
pub proof fn law_other_numbers_start_from_the_last_original(
    repo: RepositoryView,
    originals: Seq<Seq<char>>,
    new_commits: Seq<Seq<char>>,
    author: Seq<char>,
    quiet: bool,
    s: Tape,
)
    requires
        0 <= s.next <= s.replies.len(),
        left(s) > 0 ==> wrote(answer(s, 0), "commit"@),
        left(s) > 1 ==> wrote(answer(s, 1), "commit"@),
    ensures
        ({
            let run = event_run(
                repo,
                RewriteLogEventView::RebaseComplete { original_commits: originals, new_commits },
                author,
                quiet,
                s,
            );
            let some = originals.len() > 0 && new_commits.len() > 0 && originals.len()
                != new_commits.len();
            &&& some && left(s) == 0 ==> waits_for(run, type_question(repo, new_commits[0]))
            &&& some && left(s) == 1 ==> waits_for(run, type_question(repo, originals.last()))
            &&& some && left(s) == 2 ==> waits_for(
                run,
                git_command(
                    repo.args().push("merge-base"@).push(originals.last()).push(new_commits[0]),
                ),
            )
            &&& originals.len() == 0 && new_commits.len() > 0 ==> (run.0 matches Err(
                StopView::Fail(_),
            )) && run.1 == s
            &&& new_commits.len() == 0 ==> run == (Ok::<(), StopView>(()), s)
        }),
{
    if originals.len() > 0 && new_commits.len() > 0 {
        let head = originals.last();
        law_find_commit(repo, new_commits[0], s);
        if left(s) > 0 {
            lemma_behind(s, 1);
            law_find_commit(repo, head, behind(s, 1));
            assert(left(s) > 1 ==> answer(behind(s, 1), 0) == answer(s, 1));
        }
        if left(s) > 1 {
            lemma_behind(s, 2);
        }
    }
}

// ---------------------------------------------------------------------------------------------
// Commits put back
// ---------------------------------------------------------------------------------------------
/// A commit on a parent that is looked for first.
proof fn lemma_index_commit(
    repo: RepositoryView,
    like: Seq<char>,
    message: Seq<char>,
    tree: Seq<char>,
    parent: Seq<char>,
    author: SignatureView,
    committer: SignatureView,
    oid: Seq<char>,
    s: Tape,
)
    requires
        0 <= s.next <= s.replies.len(),
        is_someone(author),
        is_someone(committer),
        left(s) > 0 ==> wrote(answer(s, 0), "commit"@),
        left(s) > 1 ==> wrote_signature(answer(s, 1), author),
        left(s) > 2 ==> wrote_signature(answer(s, 2), committer),
        left(s) > 3 ==> wrote(answer(s, 3), oid),
    ensures
        ({
            let run = index_commit_run(repo, like, message, tree, parent, s);
            &&& left(s) == 0 ==> waits_for(run, type_question(repo, parent))
            &&& left(s) == 1 ==> waits_for(run, author_question(repo, like))
            &&& left(s) == 2 ==> waits_for(run, committer_question(repo, like))
            &&& left(s) == 3 ==> waits_for(
                run,
                commit_command(repo, tree, parent, author, committer, message),
            )
            &&& left(s) > 3 ==> run == (Ok::<Seq<char>, StopView>(oid), behind(s, 4))
        }),
{
    law_find_commit(repo, parent, s);
    if left(s) > 0 {
        let s1 = behind(s, 1);
        lemma_behind(s, 1);
        assert(left(s) > 1 ==> answer(s1, 0) == answer(s, 1));
        assert(left(s) > 2 ==> answer(s1, 1) == answer(s, 2));
        assert(left(s) > 3 ==> answer(s1, 2) == answer(s, 3));
        law_commit_is_made_as_another(
            repo,
            like,
            message,
            tree,
            parent,
            author,
            committer,
            oid,
            s1,
        );
    }
}

/// The working directory as a tree: what git's stash makes of it, or the index where there is
/// nothing to put aside.
pub proof fn law_working_directory_is_captured(
    repo: RepositoryView,
    stash: Seq<char>,
    tree: Seq<char>,
    s: Tape,
)
    requires
        0 <= s.next <= s.replies.len(),
        left(s) > 0 ==> wrote(answer(s, 0), stash),
        left(s) > 1 ==> wrote(answer(s, 1), tree),
    ensures
        ({
            let run = captured_run(repo, s);
            &&& left(s) == 0 ==> waits_for(
                run,
                git_command(repo.args().push("stash"@).push("create"@)),
            )
            &&& left(s) == 1 && stash.len() > 0 ==> waits_for(
                run,
                name_question(repo, stash + "^{tree}"@),
            )
            &&& left(s) == 1 && stash.len() == 0 ==> waits_for(
                run,
                git_command(repo.args().push("write-tree"@)),
            )
            &&& left(s) > 1 ==> run == (Ok::<Seq<char>, StopView>(tree), behind(s, 2))
        }),
{
    law_git_line(s, repo.args().push("stash"@).push("create"@), stash);
    if left(s) > 0 {
        lemma_behind(s, 1);
        assert(left(s) > 1 ==> answer(behind(s, 1), 0) == answer(s, 1));
        law_git_line(behind(s, 1), repo.args().push("write-tree"@), tree);
        law_git_line(
            behind(s, 1),
            repo.args().push("rev-parse"@).push("--verify"@).push(stash + "^{tree}"@),
            tree,
        );
    }
}

/// The answers, as far as there are any, when a reset leaves nothing of which anyone is to be told.
pub open spec fn answers_reset(
    s: Tape,
    stash: Seq<char>,
    tree: Seq<char>,
    target_author: SignatureView,
    target_committer: SignatureView,
    temp: Seq<char>,
    head_author: SignatureView,
    head_committer: SignatureView,
    hanging: Seq<char>,
    temp_tree: Seq<char>,
    target_tree: Seq<char>,
) -> bool {
    &&& 0 <= s.next <= s.replies.len()
    &&& is_someone(target_author) && is_someone(target_committer)
    &&& is_someone(head_author) && is_someone(head_committer)
    &&& left(s) > 0 ==> wrote(answer(s, 0), stash)
    &&& left(s) > 1 ==> wrote(answer(s, 1), tree)
    &&& left(s) > 2 ==> wrote(answer(s, 2), "tree"@)
    &&& left(s) > 3 ==> wrote(answer(s, 3), "commit"@)
    &&& left(s) > 4 ==> wrote_signature(answer(s, 4), target_author)
    &&& left(s) > 5 ==> wrote_signature(answer(s, 5), target_committer)
    &&& left(s) > 6 ==> wrote(answer(s, 6), temp)
    &&& left(s) > 7 ==> wrote(answer(s, 7), "commit"@)
    &&& left(s) > 8 ==> wrote_signature(answer(s, 8), head_author)
    &&& left(s) > 9 ==> wrote_signature(answer(s, 9), head_committer)
    &&& left(s) > 10 ==> wrote(answer(s, 10), hanging)
    &&& left(s) > 11 ==> answer(s, 11) is Log
    &&& left(s) > 12 ==> (answer(s, 12) matches Reply::Checkpoints(Ok(all)) && all@.len() == 0)
    &&& left(s) > 13 ==> (answer(s, 13) matches Reply::Text(Ok(_)))
    &&& left(s) > 14 ==> answer(s, 14) == Reply::Done(Ok(()))
    &&& left(s) > 15 ==> wrote(answer(s, 15), "commit"@)
    &&& left(s) > 16 ==> wrote(answer(s, 16), "commit"@)
    &&& left(s) > 17 ==> wrote(answer(s, 17), temp_tree)
    &&& left(s) > 18 ==> wrote(answer(s, 18), target_tree)
    &&& left(s) > 19 ==> (answer(s, 19) matches Reply::Deltas(Ok(deltas)) && deltas@.len() == 0)
    &&& left(s) > 20 ==> answer(s, 20) == Reply::Done(Ok(()))
    &&& left(s) > 21 ==> (answer(s, 21) matches Reply::Checkpoints(Ok(all)) && all@.len() == 0)
    &&& left(s) > 22 ==> answer(s, 22) == Reply::Done(Ok(()))
    &&& left(s) > 23 ==> wrote(answer(s, 23), "commit"@)
    &&& left(s) > 24 ==> answer(s, 24) is Exit
    &&& left(s) > 25 ==> wrote(answer(s, 25), "commit"@)
    &&& left(s) > 26 ==> answer(s, 26) is Exit
}

/// The two commits that stand for the working directory after a reset: one on top of the commit
/// that was reset to, as that one was made, and one on top of the old head, as that one was made.
pub proof fn law_reset_commits(
    repo: RepositoryView,
    target: Seq<char>,
    old_head: Seq<char>,
    stash: Seq<char>,
    tree: Seq<char>,
    target_author: SignatureView,
    target_committer: SignatureView,
    temp: Seq<char>,
    head_author: SignatureView,
    head_committer: SignatureView,
    hanging: Seq<char>,
    temp_tree: Seq<char>,
    target_tree: Seq<char>,
    s: Tape,
)
    requires
        answers_reset(
            s,
            stash,
            tree,
            target_author,
            target_committer,
            temp,
            head_author,
            head_committer,
            hanging,
            temp_tree,
            target_tree,
        ),
    ensures
        ({
            let run = reset_commits_run(repo, target, old_head, s);
            &&& left(s) == 0 ==> waits_for(
                run,
                git_command(repo.args().push("stash"@).push("create"@)),
            )
            &&& left(s) == 1 && stash.len() > 0 ==> waits_for(
                run,
                name_question(repo, stash + "^{tree}"@),
            )
            &&& left(s) == 2 ==> waits_for(run, type_question(repo, tree))
            &&& left(s) == 3 ==> waits_for(run, type_question(repo, target))
            &&& left(s) == 4 ==> waits_for(run, author_question(repo, target))
            &&& left(s) == 5 ==> waits_for(run, committer_question(repo, target))
            &&& left(s) == 6 ==> waits_for(
                run,
                commit_command(
                    repo,
                    tree,
                    target,
                    target_author,
                    target_committer,
                    "Temporary commit representing working directory after reset"@,
                ),
            )
            &&& left(s) == 7 ==> waits_for(run, type_question(repo, old_head))
            &&& left(s) == 8 ==> waits_for(run, author_question(repo, old_head))
            &&& left(s) == 9 ==> waits_for(run, committer_question(repo, old_head))
            &&& left(s) == 10 ==> waits_for(
                run,
                commit_command(
                    repo,
                    tree,
                    old_head,
                    head_author,
                    head_committer,
                    "Hanging commit for reset: working dir with parent "@ + old_head,
                ),
            )
            &&& left(s) > 10 ==> run == (
                Ok::<(Seq<char>, Seq<char>), StopView>((temp, hanging)),
                behind(s, 11),
            )
        }),
{
    law_working_directory_is_captured(repo, stash, tree, s);
    if left(s) > 1 {
        lemma_behind(s, 2);
        assert(left(s) > 2 ==> answer(behind(s, 2), 0) == answer(s, 2));
        law_find_tree(repo, tree, behind(s, 2));
    }
    if left(s) > 2 {
        let s3 = behind(s, 3);
        lemma_behind(s, 3);
        assert(forall|i: int| #[trigger] answer(s3, i) == answer(s, 3 + i));
        lemma_index_commit(
            repo,
            target,
            "Temporary commit representing working directory after reset"@,
            tree,
            target,
            target_author,
            target_committer,
            temp,
            s3,
        );
        assert(behind(s3, 4) == behind(s, 7));
    }
    if left(s) > 6 {
        let s7 = behind(s, 7);
        lemma_behind(s, 7);
        assert(forall|i: int| #[trigger] answer(s7, i) == answer(s, 7 + i));
        lemma_index_commit(
            repo,
            old_head,
            reset_message(old_head),
            tree,
            old_head,
            head_author,
            head_committer,
            hanging,
            s7,
        );
        assert(behind(s7, 4) == behind(s, 11));
    }
}

proof fn lemma_reset_log(
    repo: RepositoryView,
    target: Seq<char>,
    old_head: Seq<char>,
    author: Seq<char>,
    temp: Seq<char>,
    hanging: Seq<char>,
    temp_tree: Seq<char>,
    target_tree: Seq<char>,
    s: Tape,
)
    requires
        0 <= s.next <= s.replies.len(),
        left(s) > 0 ==> answer(s, 0) is Log,
        left(s) > 1 ==> (answer(s, 1) matches Reply::Checkpoints(Ok(all)) && all@.len() == 0),
        left(s) > 2 ==> (answer(s, 2) matches Reply::Text(Ok(_))),
        left(s) > 3 ==> answer(s, 3) == Reply::Done(Ok(())),
        left(s) > 4 ==> wrote(answer(s, 4), "commit"@),
        left(s) > 5 ==> wrote(answer(s, 5), "commit"@),
        left(s) > 6 ==> wrote(answer(s, 6), temp_tree),
        left(s) > 7 ==> wrote(answer(s, 7), target_tree),
        left(s) > 8 ==> (answer(s, 8) matches Reply::Deltas(Ok(deltas)) && deltas@.len() == 0),
        left(s) > 9 ==> answer(s, 9) == Reply::Done(Ok(())),
    ensures
        ({
            let run = reset_log_run(repo, target, old_head, author, temp, hanging, s);
            &&& left(s) == 0 ==> waits_for(run, RequestView::ReadLog { commit: old_head })
            &&& left(s) == 1 ==> waits_for(run, RequestView::ReadCheckpoints { base: old_head })
            &&& left(s) == 2 ==> (run.0 matches Err(
                StopView::Pending(RequestView::SerializeLog { log }),
            ) && log.metadata.base_commit_sha == hanging)
            &&& left(s) == 3 ==> waits_for(
                run,
                RequestView::AddNote {
                    commit: hanging,
                    text: answer(s, 2)->Text_0->Ok_0@,
                },
            )
            &&& left(s) == 4 ==> waits_for(run, type_question(repo, temp))
            &&& left(s) == 5 ==> waits_for(run, type_question(repo, target))
            &&& left(s) == 6 ==> waits_for(run, name_question(repo, temp + "^{tree}"@))
            &&& left(s) == 7 ==> waits_for(run, name_question(repo, target + "^{tree}"@))
            &&& left(s) == 8 ==> waits_for(
                run,
                RequestView::DiffTrees { old_tree: target_tree, new_tree: temp_tree },
            )
            &&& left(s) == 9 ==> (run.0 matches Err(
                StopView::Pending(RequestView::ShowLog { log }),
            ) && log.attestations.len() == 0 && log.metadata.prompts.len() == 0)
            &&& left(s) > 9 ==> run.1 == behind(s, 10) && (run.0 matches Ok(log)
                && log.attestations.len() == 0 && log.metadata.prompts.len() == 0)
        }),
{
    if left(s) > 0 {
        lemma_behind(s, 1);
        assert(left(s) > 1 ==> answer(behind(s, 1), 0) == answer(s, 1));
    }
    if left(s) > 1 {
        let all = answer(s, 1)->Checkpoints_0->Ok_0;
        assert(all.deep_view().len() == 0);
        lemma_behind(s, 2);
        assert(left(s) > 2 ==> answer(behind(s, 2), 0) == answer(s, 2));
        assert(left(s) > 3 ==> answer(behind(s, 2), 1) == answer(s, 3));
    }
    if left(s) > 3 {
        assert(hanging_log_run(old_head, hanging, author, s) == (
            Ok::<(), StopView>(()),
            behind(s, 4),
        ));
        lemma_behind(s, 4);
        assert(left(s) > 4 ==> answer(behind(s, 4), 0) == answer(s, 4));
        law_find_commit(repo, temp, behind(s, 4));
    }
    if left(s) > 4 {
        lemma_behind(s, 5);
        assert(left(s) > 5 ==> answer(behind(s, 5), 0) == answer(s, 5));
        law_find_commit(repo, target, behind(s, 5));
    }
    if left(s) > 5 {
        let s6 = behind(s, 6);
        lemma_behind(s, 6);
        assert(forall|i: int| #[trigger] answer(s6, i) == answer(s, 6 + i));
        law_changes_are_from_parent_to_commit(
            repo,
            temp,
            target,
            hanging,
            temp_tree,
            target_tree,
            s6,
        );
        assert(behind(s6, 3) == behind(s, 9));
        lemma_behind(s, 9);
        assert(left(s) > 9 ==> answer(behind(s, 9), 0) == answer(s, 9));
    }
}

proof fn lemma_reset_finish(
    repo: RepositoryView,
    log: AuthorshipLogView,
    target: Seq<char>,
    old_head: Seq<char>,
    temp: Seq<char>,
    hanging: Seq<char>,
    s: Tape,
)
    requires
        0 <= s.next <= s.replies.len(),
        log.attestations.len() == 0,
        left(s) > 0 ==> (answer(s, 0) matches Reply::Checkpoints(Ok(all)) && all@.len() == 0),
        left(s) > 1 ==> answer(s, 1) == Reply::Done(Ok(())),
        left(s) > 2 ==> wrote(answer(s, 2), "commit"@),
        left(s) > 3 ==> answer(s, 3) is Exit,
        left(s) > 4 ==> wrote(answer(s, 4), "commit"@),
        left(s) > 5 ==> answer(s, 5) is Exit,
    ensures
        ({
            let run = reset_finish_run(repo, log, target, old_head, temp, hanging, s);
            &&& left(s) == 0 ==> waits_for(
                run,
                RequestView::CheckpointsForSquash { log, contents: Seq::empty() },
            )
            &&& left(s) == 1 ==> waits_for(run, RequestView::ResetWorkingLog { base: target })
            &&& left(s) == 2 ==> waits_for(run, type_question(repo, hanging))
            &&& left(s) == 3 ==> waits_for(run, removal(repo, hanging))
            &&& left(s) == 4 ==> waits_for(run, type_question(repo, temp))
            &&& left(s) == 5 ==> waits_for(run, removal(repo, temp))
            &&& left(s) == 6 ==> waits_for(run, RequestView::DeleteWorkingLog { base: old_head })
        }),
{
    assert(contents_run(
        repo,
        log.attestations,
        temp,
        "Failed to read file: "@,
        0,
        Seq::empty(),
        s,
    ) == (Ok::<Seq<(Seq<char>, Seq<char>)>, StopView>(Seq::empty()), s));
    if left(s) > 0 {
        let all = answer(s, 0)->Checkpoints_0->Ok_0;
        assert(all.deep_view() =~= Seq::<CheckpointView>::empty());
        assert(ai_checkpoints(all.deep_view()) == all.deep_view());
        assert(converted_run(repo, log, temp, "Failed to read file: "@, s) == (
            Ok::<Seq<CheckpointView>, StopView>(Seq::empty()),
            behind(s, 1),
        ));
        lemma_behind(s, 1);
        assert(left(s) > 1 ==> answer(behind(s, 1), 0) == answer(s, 1));
    }
    if left(s) > 1 {
        let s2 = behind(s, 2);
        lemma_behind(s, 2);
        assert(append_all_run(repo, Seq::empty(), target, temp, 0, s2) == (
            Ok::<(), StopView>(()),
            s2,
        ));
        assert(left(s) > 2 ==> answer(s2, 0) == answer(s, 2));
        assert(left(s) > 3 ==> answer(s2, 1) == answer(s, 3));
        law_hanging_commit_is_removed(repo, hanging, s2);
        assert(behind(s2, 2) == behind(s, 4));
    }
    if left(s) > 3 {
        let s4 = behind(s, 4);
        lemma_behind(s, 4);
        assert(left(s) > 4 ==> answer(s4, 0) == answer(s, 4));
        assert(left(s) > 5 ==> answer(s4, 1) == answer(s, 5));
        law_hanging_commit_is_removed(repo, temp, s4);
        assert(behind(s4, 2) == behind(s, 6));
    }
}

/// After a reset: the two commits are made that stand for the working directory; the one on the old
/// head gets the old head's log; what the other one changes of the commit that was reset to is
/// compared with it; the working log on top of the commit that was reset to is started anew with
/// what comes of that; the two commits are removed; and so is the working log on top of the old head.
#[verifier::rlimit(60)]
#[verifier::spinoff_prover]
pub proof fn law_reset_moves_the_working_log(
    repo: RepositoryView,
    target: Seq<char>,
    old_head: Seq<char>,
    author: Seq<char>,
    stash: Seq<char>,
    tree: Seq<char>,
    target_author: SignatureView,
    target_committer: SignatureView,
    temp: Seq<char>,
    head_author: SignatureView,
    head_committer: SignatureView,
    hanging: Seq<char>,
    temp_tree: Seq<char>,
    target_tree: Seq<char>,
    s: Tape,
)
    requires
        answers_reset(
            s,
            stash,
            tree,
            target_author,
            target_committer,
            temp,
            head_author,
            head_committer,
            hanging,
            temp_tree,
            target_tree,
        ),
    ensures
        ({
            let run = reset_run(repo, target, old_head, author, s);
            &&& left(s) < 11 ==> run.0 is Err && run.0->Err_0 == reset_commits_run(
                repo,
                target,
                old_head,
                s,
            ).0->Err_0
            &&& left(s) == 11 ==> waits_for(run, RequestView::ReadLog { commit: old_head })
            &&& left(s) == 12 ==> waits_for(run, RequestView::ReadCheckpoints { base: old_head })
            &&& left(s) == 14 ==> waits_for(
                run,
                RequestView::AddNote {
                    commit: hanging,
                    text: answer(s, 13)->Text_0->Ok_0@,
                },
            )
            &&& left(s) == 15 ==> waits_for(run, type_question(repo, temp))
            &&& left(s) == 16 ==> waits_for(run, type_question(repo, target))
            &&& left(s) == 17 ==> waits_for(run, name_question(repo, temp + "^{tree}"@))
            &&& left(s) == 18 ==> waits_for(run, name_question(repo, target + "^{tree}"@))
            &&& left(s) == 19 ==> waits_for(
                run,
                RequestView::DiffTrees { old_tree: target_tree, new_tree: temp_tree },
            )
            &&& left(s) == 22 ==> waits_for(run, RequestView::ResetWorkingLog { base: target })
            &&& left(s) == 23 ==> waits_for(run, type_question(repo, hanging))
            &&& left(s) == 24 ==> waits_for(run, removal(repo, hanging))
            &&& left(s) == 25 ==> waits_for(run, type_question(repo, temp))
            &&& left(s) == 26 ==> waits_for(run, removal(repo, temp))
            &&& left(s) == 27 ==> waits_for(run, RequestView::DeleteWorkingLog { base: old_head })
        }),
{
    law_reset_commits(
        repo,
        target,
        old_head,
        stash,
        tree,
        target_author,
        target_committer,
        temp,
        head_author,
        head_committer,
        hanging,
        temp_tree,
        target_tree,
        s,
    );
    if left(s) < 11 {
        lemma_reset_commits_wait(
            repo,
            target,
            old_head,
            stash,
            tree,
            target_author,
            target_committer,
            temp,
            head_author,
            head_committer,
            hanging,
            temp_tree,
            target_tree,
            s,
        );
    } else {
        let s11 = behind(s, 11);
        lemma_behind(s, 11);
        assert(forall|i: int| #[trigger] answer(s11, i) == answer(s, 11 + i));
        lemma_reset_log(
            repo,
            target,
            old_head,
            author,
            temp,
            hanging,
            temp_tree,
            target_tree,
            s11,
        );
        if left(s) > 20 {
            let s21 = behind(s, 21);
            assert(behind(s11, 10) == s21);
            lemma_behind(s, 21);
            assert(forall|i: int| #[trigger] answer(s21, i) == answer(s, 21 + i));
            let log = reset_log_run(repo, target, old_head, author, temp, hanging, s11).0->Ok_0;
            lemma_reset_finish(repo, log, target, old_head, temp, hanging, s21);
        }
    }
}

proof fn lemma_reset_commits_wait(
    repo: RepositoryView,
    target: Seq<char>,
    old_head: Seq<char>,
    stash: Seq<char>,
    tree: Seq<char>,
    target_author: SignatureView,
    target_committer: SignatureView,
    temp: Seq<char>,
    head_author: SignatureView,
    head_committer: SignatureView,
    hanging: Seq<char>,
    temp_tree: Seq<char>,
    target_tree: Seq<char>,
    s: Tape,
)
    requires
        answers_reset(
            s,
            stash,
            tree,
            target_author,
            target_committer,
            temp,
            head_author,
            head_committer,
            hanging,
            temp_tree,
            target_tree,
        ),
        left(s) < 11,
    ensures
        reset_commits_run(repo, target, old_head, s).0 is Err,
{
    law_reset_commits(
        repo,
        target,
        old_head,
        stash,
        tree,
        target_author,
        target_committer,
        temp,
        head_author,
        head_committer,
        hanging,
        temp_tree,
        target_tree,
        s,
    );
    law_working_directory_is_captured(repo, stash, tree, s);
}

// ---------------------------------------------------------------------------------------------
// A branch merged into the index
// ---------------------------------------------------------------------------------------------
/// The answers, as far as there are any, when a branch of one commit that changes nothing was merged
/// into the index.
pub open spec fn answers_index(
    s: Tape,
    base: Seq<char>,
    merged: Seq<char>,
    source_author: SignatureView,
    source_committer: SignatureView,
    hanging: Seq<char>,
    index: Seq<char>,
    target_author: SignatureView,
    target_committer: SignatureView,
    temp: Seq<char>,
    temp_tree: Seq<char>,
    base_tree: Seq<char>,
) -> bool {
    &&& 0 <= s.next <= s.replies.len()
    &&& is_someone(target_author) && is_someone(target_committer)
    &&& left(s) > 0 ==> wrote(answer(s, 0), "commit"@)
    &&& left(s) > 1 ==> wrote(answer(s, 1), "commit"@)
    &&& left(s) > 2 ==> wrote(answer(s, 2), base)
    &&& left(s) > 3 ==> wrote(answer(s, 3), "commit"@)
    &&& left(s) > 4 ==> wrote(answer(s, 4), base)
    &&& left(s) > 5 ==> wrote(answer(s, 5), "commit"@)
    &&& left(s) >= 6 ==> answers_merge(
        behind(s, 6),
        merged,
        source_author,
        source_committer,
        hanging,
    )
    &&& left(s) > 14 ==> wrote(answer(s, 14), index)
    &&& left(s) > 15 ==> wrote(answer(s, 15), "tree"@)
    &&& left(s) > 16 ==> wrote(answer(s, 16), "commit"@)
    &&& left(s) > 17 ==> wrote_signature(answer(s, 17), target_author)
    &&& left(s) > 18 ==> wrote_signature(answer(s, 18), target_committer)
    &&& left(s) > 19 ==> wrote(answer(s, 19), temp)
    &&& left(s) > 20 ==> wrote(answer(s, 20), "commit"@)
    &&& left(s) > 21 ==> wrote(answer(s, 21), temp_tree)
    &&& left(s) > 22 ==> wrote(answer(s, 22), base_tree)
    &&& left(s) > 23 ==> (answer(s, 23) matches Reply::Deltas(Ok(deltas)) && deltas@.len() == 0)
    &&& left(s) > 24 ==> wrote(answer(s, 24), "commit"@)
    &&& left(s) > 25 ==> answer(s, 25) is Exit
    &&& left(s) > 26 ==> wrote(answer(s, 26), "commit"@)
    &&& left(s) > 27 ==> answer(s, 27) is Exit
}

/// What the index holds is made a commit on top of what the two branches have in common; what it
/// changes there is compared with the target's changes merged onto the source; and both commits are
/// removed.
pub open spec fn compares_the_index<T>(
    run: Run<T>,
    repo: RepositoryView,
    source: Seq<char>,
    target: Seq<char>,
    base: Seq<char>,
    merged: Seq<char>,
    source_author: SignatureView,
    source_committer: SignatureView,
    hanging: Seq<char>,
    index: Seq<char>,
    target_author: SignatureView,
    target_committer: SignatureView,
    temp: Seq<char>,
    temp_tree: Seq<char>,
    base_tree: Seq<char>,
    s: Tape,
) -> bool {
    &&& left(s) == 0 ==> waits_for(run, type_question(repo, target))
    &&& left(s) == 1 ==> waits_for(run, type_question(repo, source))
    &&& left(s) == 2 ==> waits_for(
        run,
        git_command(repo.args().push("merge-base"@).push(source).push(target)),
    )
    &&& left(s) == 3 ==> waits_for(run, type_question(repo, source))
    &&& left(s) == 4 ==> waits_for(run, name_question(repo, source + "^1"@))
    &&& left(s) == 5 ==> waits_for(run, type_question(repo, target))
    &&& left(s) >= 6 ==> merges_onto(
        run,
        repo,
        base,
        target,
        source,
        merged,
        source_author,
        source_committer,
        behind(s, 6),
    )
    &&& left(s) == 14 ==> waits_for(run, git_command(repo.args().push("write-tree"@)))
    &&& left(s) == 15 ==> waits_for(run, type_question(repo, index))
    &&& left(s) == 16 ==> waits_for(run, type_question(repo, base))
    &&& left(s) == 17 ==> waits_for(run, author_question(repo, target))
    &&& left(s) == 18 ==> waits_for(run, committer_question(repo, target))
    &&& left(s) == 19 ==> waits_for(
        run,
        commit_command(
            repo,
            index,
            base,
            target_author,
            target_committer,
            "Temporary commit for squash authorship reconstruction"@,
        ),
    )
    &&& left(s) == 20 ==> waits_for(run, type_question(repo, temp))
    &&& left(s) == 21 ==> waits_for(run, name_question(repo, temp + "^{tree}"@))
    &&& left(s) == 22 ==> waits_for(run, name_question(repo, base + "^{tree}"@))
    &&& left(s) == 23 ==> waits_for(
        run,
        RequestView::DiffTrees { old_tree: base_tree, new_tree: temp_tree },
    )
    &&& left(s) == 24 ==> waits_for(run, type_question(repo, hanging))
    &&& left(s) == 25 ==> waits_for(run, removal(repo, hanging))
    &&& left(s) == 26 ==> waits_for(run, type_question(repo, temp))
    &&& left(s) == 27 ==> waits_for(run, removal(repo, temp))
}

#[verifier::rlimit(60)]
#[verifier::spinoff_prover]
proof fn lemma_index_log(
    repo: RepositoryView,
    source: Seq<char>,
    target: Seq<char>,
    base: Seq<char>,
    merged: Seq<char>,
    source_author: SignatureView,
    source_committer: SignatureView,
    hanging: Seq<char>,
    index: Seq<char>,
    target_author: SignatureView,
    target_committer: SignatureView,
    temp: Seq<char>,
    temp_tree: Seq<char>,
    base_tree: Seq<char>,
    s: Tape,
)
    requires
        left(s) > 15,
        answers_index(
            s,
            base,
            merged,
            source_author,
            source_committer,
            hanging,
            index,
            target_author,
            target_committer,
            temp,
            temp_tree,
            base_tree,
        ),
    ensures
        ({
            let run = index_log_run(repo, target, base, hanging, index, behind(s, 16));
            &&& left(s) == 16 ==> waits_for(run, type_question(repo, base))
            &&& left(s) == 17 ==> waits_for(run, author_question(repo, target))
            &&& left(s) == 18 ==> waits_for(run, committer_question(repo, target))
            &&& left(s) == 19 ==> waits_for(
                run,
                commit_command(
                    repo,
                    index,
                    base,
                    target_author,
                    target_committer,
                    "Temporary commit for squash authorship reconstruction"@,
                ),
            )
            &&& left(s) == 20 ==> waits_for(run, type_question(repo, temp))
            &&& left(s) == 21 ==> waits_for(run, name_question(repo, temp + "^{tree}"@))
            &&& left(s) == 22 ==> waits_for(run, name_question(repo, base + "^{tree}"@))
            &&& left(s) == 23 ==> waits_for(
                run,
                RequestView::DiffTrees { old_tree: base_tree, new_tree: temp_tree },
            )
            &&& left(s) == 24 ==> waits_for(run, type_question(repo, hanging))
            &&& left(s) == 25 ==> waits_for(run, removal(repo, hanging))
            &&& left(s) == 26 ==> waits_for(run, type_question(repo, temp))
            &&& left(s) == 27 ==> waits_for(run, removal(repo, temp))
            &&& left(s) > 27 ==> run.1 == behind(s, 28) && (run.0 matches Ok(log)
                && log.attestations.len() == 0 && log.metadata.prompts.len() == 0)
        }),
{
    let s16 = behind(s, 16);
    lemma_behind(s, 16);
    assert(forall|i: int| #[trigger] answer(s16, i) == answer(s, 16 + i));
    lemma_index_commit(
        repo,
        target,
        "Temporary commit for squash authorship reconstruction"@,
        index,
        base,
        target_author,
        target_committer,
        temp,
        s16,
    );
    assert(behind(s16, 4) == behind(s, 20));
    if left(s) > 19 {
        lemma_behind(s, 20);
        assert(left(s) > 20 ==> answer(behind(s, 20), 0) == answer(s, 20));
        law_find_commit(repo, temp, behind(s, 20));
    }
    if left(s) > 20 {
        let s21 = behind(s, 21);
        lemma_behind(s, 21);
        assert(forall|i: int| #[trigger] answer(s21, i) == answer(s, 21 + i));
        law_changes_are_from_parent_to_commit(
            repo,
            temp,
            base,
            hanging,
            temp_tree,
            base_tree,
            s21,
        );
        assert(behind(s21, 3) == behind(s, 24));
    }
    if left(s) > 23 {
        let s24 = behind(s, 24);
        lemma_behind(s, 24);
        assert(left(s) > 24 ==> answer(s24, 0) == answer(s, 24));
        assert(left(s) > 25 ==> answer(s24, 1) == answer(s, 25));
        law_hanging_commit_is_removed(repo, hanging, s24);
        assert(behind(s24, 2) == behind(s, 26));
    }
    if left(s) > 25 {
        let s26 = behind(s, 26);
        lemma_behind(s, 26);
        assert(left(s) > 26 ==> answer(s26, 0) == answer(s, 26));
        assert(left(s) > 27 ==> answer(s26, 1) == answer(s, 27));
        law_hanging_commit_is_removed(repo, temp, s26);
        assert(behind(s26, 2) == behind(s, 28));
    }
}

/// The log of what was merged into the index.
#[verifier::rlimit(60)]
#[verifier::spinoff_prover]
pub proof fn law_index_is_compared(
    repo: RepositoryView,
    source: Seq<char>,
    target: Seq<char>,
    base: Seq<char>,
    merged: Seq<char>,
    source_author: SignatureView,
    source_committer: SignatureView,
    hanging: Seq<char>,
    index: Seq<char>,
    target_author: SignatureView,
    target_committer: SignatureView,
    temp: Seq<char>,
    temp_tree: Seq<char>,
    base_tree: Seq<char>,
    s: Tape,
)
    requires
        source != base,
        answers_index(
            s,
            base,
            merged,
            source_author,
            source_committer,
            hanging,
            index,
            target_author,
            target_committer,
            temp,
            temp_tree,
            base_tree,
        ),
    ensures
        ({
            let run = squash_index_log_run(repo, source, target, s);
            &&& compares_the_index(
                run,
                repo,
                source,
                target,
                base,
                merged,
                source_author,
                source_committer,
                hanging,
                index,
                target_author,
                target_committer,
                temp,
                temp_tree,
                base_tree,
                s,
            )
            &&& left(s) > 27 ==> run.1 == behind(s, 28) && (run.0 matches Ok(log)
                && log.attestations.len() == 0 && log.metadata.prompts.len() == 0)
        }),
{
    lemma_origin_and_path(repo, source, target, base, s);
    if left(s) > 4 {
        lemma_behind(s, 5);
        law_find_commit(repo, target, behind(s, 5));
        assert(left(s) > 5 ==> answer(behind(s, 5), 0) == answer(s, 5));
    }
    if left(s) > 5 {
        let s6 = behind(s, 6);
        lemma_behind(s, 6);
        law_difference_is_merged_onto_head(
            repo,
            base,
            target,
            source,
            merged,
            source_author,
            source_committer,
            hanging,
            s6,
        );
        assert(behind(s6, 8) == behind(s, 14));
    }
    if left(s) > 13 {
        lemma_behind(s, 14);
        law_git_line(behind(s, 14), repo.args().push("write-tree"@), index);
        assert(left(s) > 14 ==> answer(behind(s, 14), 0) == answer(s, 14));
    }
    if left(s) > 14 {
        lemma_behind(s, 15);
        law_find_tree(repo, index, behind(s, 15));
        assert(left(s) > 15 ==> answer(behind(s, 15), 0) == answer(s, 15));
    }
    if left(s) > 15 {
        lemma_index_log(
            repo,
            source,
            target,
            base,
            merged,
            source_author,
            source_committer,
            hanging,
            index,
            target_author,
            target_committer,
            temp,
            temp_tree,
            base_tree,
            s,
        );
    }
}

/// After a squashed merge, the working log on top of the commit that was merged into is removed
/// first, and then the index is compared.
#[verifier::rlimit(60)]
#[verifier::spinoff_prover]
pub proof fn law_squashed_merge_compares_the_index(
    repo: RepositoryView,
    source: Seq<char>,
    target: Seq<char>,
    branches: (Seq<char>, Seq<char>),
    author: Seq<char>,
    quiet: bool,
    base: Seq<char>,
    merged: Seq<char>,
    source_author: SignatureView,
    source_committer: SignatureView,
    hanging: Seq<char>,
    index: Seq<char>,
    target_author: SignatureView,
    target_committer: SignatureView,
    temp: Seq<char>,
    temp_tree: Seq<char>,
    base_tree: Seq<char>,
    s: Tape,
)
    requires
        source != base,
        0 <= s.next <= s.replies.len(),
        left(s) > 0 ==> answer(s, 0) == Reply::Done(Ok(())) && answers_index(
            behind(s, 1),
            base,
            merged,
            source_author,
            source_committer,
            hanging,
            index,
            target_author,
            target_committer,
            temp,
            temp_tree,
            base_tree,
        ),
    ensures
        ({
            let run = event_run(
                repo,
                RewriteLogEventView::MergeSquash {
                    source_branch: branches.0,
                    source_head: source,
                    base_branch: branches.1,
                    base_head: target,
                },
                author,
                quiet,
                s,
            );
            &&& left(s) == 0 ==> waits_for(run, RequestView::DeleteWorkingLog { base: target })
            &&& left(s) > 0 ==> compares_the_index(
                run,
                repo,
                source,
                target,
                base,
                merged,
                source_author,
                source_committer,
                hanging,
                index,
                target_author,
                target_committer,
                temp,
                temp_tree,
                base_tree,
                behind(s, 1),
            )
            &&& left(s) == 29 ==> (run.0 matches Err(
                StopView::Pending(RequestView::CheckpointsForSquash { log, contents }),
            ) && log.attestations.len() == 0 && contents.len() == 0)
        }),
{
    if left(s) > 0 {
        let s1 = behind(s, 1);
        lemma_behind(s, 1);
        law_index_is_compared(
            repo,
            source,
            target,
            base,
            merged,
            source_author,
            source_committer,
            hanging,
            index,
            target_author,
            target_committer,
            temp,
            temp_tree,
            base_tree,
            s1,
        );
        if left(s) > 28 {
            let s29 = behind(s1, 28);
            let log = squash_index_log_run(repo, source, target, s1).0->Ok_0;
            assert(contents_run(
                repo,
                log.attestations,
                ""@,
                "Failed to read staged file: "@,
                0,
                Seq::empty(),
                s29,
            ) == (Ok::<Seq<(Seq<char>, Seq<char>)>, StopView>(Seq::empty()), s29));
        }
    }
}

/// Checkpoints are added to a working log one by one, in their order.
pub proof fn law_checkpoints_are_added_in_order(
    checkpoints: Seq<CheckpointView>,
    base: Seq<char>,
    s: Tape,
)
    requires
        0 <= s.next <= s.replies.len(),
        forall|k: int| 0 <= k < left(s) ==> #[trigger] answer(s, k) == Reply::Done(Ok(())),
    ensures
        left(s) < checkpoints.len() ==> waits_for(
            add_checkpoints_run(checkpoints, base, 0, s),
            RequestView::AppendCheckpoint { base, checkpoint: checkpoints[left(s)] },
        ),
        left(s) >= checkpoints.len() ==> add_checkpoints_run(checkpoints, base, 0, s) == (
            Ok::<(), StopView>(()),
            behind(s, checkpoints.len() as int),
        ),
{
    lemma_added_in_order(checkpoints, base, 0, s);
}

proof fn lemma_added_in_order(
    checkpoints: Seq<CheckpointView>,
    base: Seq<char>,
    i: int,
    s: Tape,
)
    requires
        0 <= i <= checkpoints.len(),
        0 <= s.next <= s.replies.len(),
        forall|k: int| 0 <= k < left(s) ==> #[trigger] answer(s, k) == Reply::Done(Ok(())),
    ensures
        left(s) < checkpoints.len() - i ==> waits_for(
            add_checkpoints_run(checkpoints, base, i, s),
            RequestView::AppendCheckpoint { base, checkpoint: checkpoints[i + left(s)] },
        ),
        left(s) >= checkpoints.len() - i ==> add_checkpoints_run(checkpoints, base, i, s) == (
            Ok::<(), StopView>(()),
            behind(s, checkpoints.len() - i),
        ),
    decreases checkpoints.len() - i,
{
    if i < checkpoints.len() && left(s) > 0 {
        let s1 = behind(s, 1);
        lemma_behind(s, 1);
        assert(answer(s, 0) == Reply::Done(Ok(())));
        assert forall|k: int| 0 <= k < left(s1) implies #[trigger] answer(s1, k) == Reply::Done(
            Ok(()),
        ) by {
            assert(answer(s, k + 1) == Reply::Done(Ok(())));
        }
        lemma_added_in_order(checkpoints, base, i + 1, s1);
    }
}

// ---------------------------------------------------------------------------------------------
// What files hold
// ---------------------------------------------------------------------------------------------
/// Git ended well and wrote this text.
pub open spec fn wrote_text(reply: Reply, text: Seq<char>) -> bool {
    reply matches Reply::Exit { success, stdout, .. } && success && utf8_text(stdout@) == Some(text)
}

/// The question what a file holds in a commit, or in the index where no commit is named.
pub open spec fn file_question(
    repo: RepositoryView,
    from: Seq<char>,
    file: Seq<char>,
) -> RequestView {
    git_command(repo.args().push("show"@).push(from + ":"@ + file))
}

/// Of each file that a log speaks of, it is asked what it holds, and that is kept under the file's
/// path.
pub proof fn law_contents_are_read(
    repo: RepositoryView,
    attestations: Seq<FileAttestationView>,
    from: Seq<char>,
    complaint: Seq<char>,
    texts: Seq<Seq<char>>,
    s: Tape,
)
    requires
        0 <= s.next <= s.replies.len(),
        left(s) <= attestations.len(),
        texts.len() == attestations.len(),
        forall|i: int, j: int|
            0 <= i < j < attestations.len() ==> (#[trigger] attestations[i]).file_path != (
            #[trigger] attestations[j]).file_path,
        forall|k: int| 0 <= k < left(s) ==> wrote_text(#[trigger] answer(s, k), texts[k]),
    ensures
        ({
            let run = contents_run(repo, attestations, from, complaint, 0, Seq::empty(), s);
            &&& left(s) < attestations.len() ==> waits_for(
                run,
                file_question(repo, from, attestations[left(s)].file_path),
            )
            &&& left(s) == attestations.len() ==> run.1 == behind(s, left(s)) && (run.0
                matches Ok(contents) && contents == Seq::new(
                attestations.len(),
                |k: int| (attestations[k].file_path, texts[k]),
            ))
        }),
{
    let all = Seq::new(
        attestations.len(),
        |k: int| (attestations[k].file_path, texts[k]),
    );
    assert(all.take(0) =~= Seq::empty());
    lemma_contents(repo, attestations, from, complaint, texts, 0, s);
    assert(all.take(attestations.len() as int) =~= all);
}

proof fn lemma_contents(
    repo: RepositoryView,
    attestations: Seq<FileAttestationView>,
    from: Seq<char>,
    complaint: Seq<char>,
    texts: Seq<Seq<char>>,
    i: int,
    s: Tape,
)
    requires
        0 <= i <= attestations.len(),
        0 <= s.next <= s.replies.len(),
        left(s) <= attestations.len() - i,
        texts.len() == attestations.len(),
        forall|i: int, j: int|
            0 <= i < j < attestations.len() ==> (#[trigger] attestations[i]).file_path != (
            #[trigger] attestations[j]).file_path,
        forall|k: int| 0 <= k < left(s) ==> wrote_text(#[trigger] answer(s, k), texts[i + k]),
    ensures
        ({
            let all = Seq::new(
                attestations.len(),
                |k: int| (attestations[k].file_path, texts[k]),
            );
            let run = contents_run(repo, attestations, from, complaint, i, all.take(i), s);
            &&& left(s) < attestations.len() - i ==> waits_for(
                run,
                file_question(repo, from, attestations[i + left(s)].file_path),
            )
            &&& left(s) == attestations.len() - i ==> run.1 == behind(s, left(s)) && run.0 == Ok::<
                Seq<(Seq<char>, Seq<char>)>,
                StopView,
            >(all)
        }),
    decreases attestations.len() - i,
{
    let all = Seq::new(
        attestations.len(),
        |k: int| (attestations[k].file_path, texts[k]),
    );
    if i < attestations.len() && left(s) > 0 {
        let s1 = behind(s, 1);
        lemma_behind(s, 1);
        assert(wrote_text(answer(s, 0), texts[i]));
        assert forall|k: int| 0 <= k < left(s1) implies wrote_text(
            #[trigger] answer(s1, k),
            texts[i + 1 + k],
        ) by {
            assert(wrote_text(answer(s, k + 1), texts[i + (k + 1)]));
        }
        let path = attestations[i].file_path;
        lemma_new_key(all.take(i), path, texts[i]);
        assert(all.take(i).push((path, texts[i])) =~= all.take(i + 1));
        lemma_contents(repo, attestations, from, complaint, texts, i + 1, s1);
        assert(behind(s1, left(s1)) == behind(s, left(s)));
    } else if i == attestations.len() {
        assert(all.take(i) =~= all);
        assert(behind(s, 0) == s);
    }
}

proof fn lemma_new_key(pairs: Seq<(Seq<char>, Seq<char>)>, key: Seq<char>, value: Seq<char>)
    requires
        forall|k: int| 0 <= k < pairs.len() ==> (#[trigger] pairs[k]).0 != key,
    ensures
        with_value(pairs, key, value) == pairs.push((key, value)),
{
    lemma_place_of(pairs, key, pairs.len() as int);
}

/// The files of a checkpoint are kept with a working log: of each it is asked what it holds, that is
/// kept, and the entry says under which name.
pub proof fn law_entry_is_kept(
    repo: RepositoryView,
    base: Seq<char>,
    from: Seq<char>,
    complaint: Seq<char>,
    entry: WorkingLogEntryView,
    text: Seq<char>,
    s: Tape,
)
    requires
        0 <= s.next <= s.replies.len(),
        left(s) > 0 ==> wrote_text(answer(s, 0), text),
    ensures
        ({
            let run = persist_entries_run(
                repo,
                base,
                from,
                complaint,
                seq![entry],
                0,
                Seq::empty(),
                s,
            );
            &&& left(s) == 0 ==> waits_for(run, file_question(repo, from, entry.file))
            &&& left(s) == 1 ==> waits_for(run, RequestView::PersistFile { base, content: text })
            &&& left(s) == 2 ==> (answer(s, 1) matches Reply::Text(Ok(name)) ==> run.0 == Ok::<
                Seq<WorkingLogEntryView>,
                StopView,
            >(seq![WorkingLogEntryView { blob_sha: name@, ..entry }]))
        }),
{
    let entries = seq![entry];
    if left(s) > 0 {
        lemma_behind(s, 1);
        assert(left(s) > 1 ==> answer(behind(s, 1), 0) == answer(s, 1));
        if left(s) > 1 {
            if let Reply::Text(Ok(name)) = answer(s, 1) {
                let kept = WorkingLogEntryView { blob_sha: name@, ..entry };
                let done = Seq::<WorkingLogEntryView>::empty().push(kept);
                assert(done =~= seq![kept]);
                assert(persist_entries_run(
                    repo,
                    base,
                    from,
                    complaint,
                    entries,
                    1,
                    done,
                    behind(s, 2),
                ) == (Ok::<Seq<WorkingLogEntryView>, StopView>(done), behind(s, 2)));
            }
        }
    }
}

// ---------------------------------------------------------------------------------------------
// One commit after the other
// ---------------------------------------------------------------------------------------------
#[verifier::rlimit(90)]
#[verifier::spinoff_prover]
proof fn lemma_squashed_behind(
    repo: RepositoryView,
    head: Seq<char>,
    one: Seq<Seq<char>>,
    other: Seq<Seq<char>>,
    j: int,
    s: Tape,
)
    requires
        0 <= j <= other.len(),
    ensures
        squashed_run(repo, head, one + other, one.len() + j, s) == squashed_run(
            repo,
            head,
            other,
            j,
            s,
        ),
    decreases other.len() - j,
{
    if j < other.len() {
        assert((one + other)[one.len() + j] == other[j]);
        lemma_squashed_behind(
            repo,
            head,
            one,
            other,
            j + 1,
            squash_run(repo, head, other[j], false, s).1,
        );
    }
}

#[verifier::rlimit(60)]
#[verifier::spinoff_prover]
proof fn lemma_squashed_before(
    repo: RepositoryView,
    head: Seq<char>,
    one: Seq<Seq<char>>,
    other: Seq<Seq<char>>,
    i: int,
    s: Tape,
)
    requires
        0 <= i <= one.len(),
    ensures
        ({
            let first = squashed_run(repo, head, one, i, s);
            one_after_other(
                squashed_run(repo, head, one + other, i, s),
                first,
                squashed_run(repo, head, other, 0, first.1),
            )
        }),
    decreases one.len() - i,
{
    if i < one.len() {
        assert((one + other)[i] == one[i]);
        lemma_squashed_before(
            repo,
            head,
            one,
            other,
            i + 1,
            squash_run(repo, head, one[i], false, s).1,
        );
    } else {
        lemma_squashed_behind(repo, head, one, other, 0, s);
    }
}

/// Where a rebase made fewer commits, the new ones get their logs one after the other, each from the
/// last of the originals: what is done is what is done for the first few, and then for the others.
#[verifier::rlimit(30)]
pub proof fn law_fewer_commits_get_their_logs_in_order(
    repo: RepositoryView,
    originals: Seq<Seq<char>>,
    one: Seq<Seq<char>>,
    other: Seq<Seq<char>>,
    author: Seq<char>,
    quiet: bool,
    s: Tape,
)
    requires
        originals.len() > one.len() + other.len(),
    ensures
        ({
            let rebase = |new: Seq<Seq<char>>, s1: Tape|
                event_run(
                    repo,
                    RewriteLogEventView::RebaseComplete {
                        original_commits: originals,
                        new_commits: new,
                    },
                    author,
                    quiet,
                    s1,
                );
            one_after_other(rebase(one + other, s), rebase(one, s), rebase(other, rebase(one, s).1))
        }),
{
    lemma_squashed_before(repo, originals.last(), one, other, 0, s);
}

/// Where the log of a commit cannot be had from the last original, the originals are tried in their
/// order, and the first with which nothing fails is the one.
#[verifier::rlimit(30)]
pub proof fn law_originals_are_tried_in_order(
    repo: RepositoryView,
    originals: Seq<Seq<char>>,
    new_sha: Seq<char>,
    s: Tape,
)
    requires
        originals.len() > 0,
    ensures
        ({
            let run = any_original_run(repo, originals, 0, new_sha, s);
            let first = single_run(repo, originals[0], new_sha, s);
            match first.0 {
                Ok(_) => run == (Ok::<(), StopView>(()), first.1),
                Err(StopView::Fail(_)) => run == any_original_run(
                    repo,
                    originals.drop_first(),
                    0,
                    new_sha,
                    first.1,
                ),
                Err(stop) => run == (Err::<(), StopView>(stop), first.1),
            }
        }),
        any_original_run(repo, Seq::empty(), 0, new_sha, s) == (Ok::<(), StopView>(()), s),
{
    lemma_originals_behind(
        repo,
        originals,
        1,
        new_sha,
        single_run(repo, originals[0], new_sha, s).1,
    );
}

#[verifier::rlimit(60)]
#[verifier::spinoff_prover]
proof fn lemma_originals_behind(
    repo: RepositoryView,
    originals: Seq<Seq<char>>,
    j: int,
    new_sha: Seq<char>,
    s: Tape,
)
    requires
        1 <= j <= originals.len(),
    ensures
        any_original_run(repo, originals, j, new_sha, s) == any_original_run(
            repo,
            originals.drop_first(),
            j - 1,
            new_sha,
            s,
        ),
    decreases originals.len() - j,
{
    if j < originals.len() {
        assert(originals.drop_first()[j - 1] == originals[j]);
        lemma_originals_behind(
            repo,
            originals,
            j + 1,
            new_sha,
            single_run(repo, originals[j], new_sha, s).1,
        );
    }
}

/// The checkpoints of AIs are told from those of humans one by one, and stay in their order.
pub proof fn law_ai_checkpoints_in_order(one: Seq<CheckpointView>, other: Seq<CheckpointView>)
    ensures
        ai_checkpoints(one + other) == ai_checkpoints(one) + ai_checkpoints(other),
    decreases other.len(),
{
    if other.len() == 0 {
        assert(one + other =~= one);
        assert(ai_checkpoints(one) + ai_checkpoints(other) =~= ai_checkpoints(one));
    } else {
        assert((one + other).drop_last() =~= one + other.drop_last());
        law_ai_checkpoints_in_order(one, other.drop_last());
        assert(ai_checkpoints(one + other) =~= ai_checkpoints(one) + ai_checkpoints(other));
    }
}

/// The files of a checkpoint are kept one after the other.
#[verifier::rlimit(30)]
pub proof fn law_entries_are_kept_in_order(
    repo: RepositoryView,
    base: Seq<char>,
    from: Seq<char>,
    complaint: Seq<char>,
    entries: Seq<WorkingLogEntryView>,
    i: int,
    done: Seq<WorkingLogEntryView>,
    s: Tape,
)
    requires
        0 <= i < entries.len(),
    ensures
        ({
            let whole = persist_entries_run(repo, base, from, complaint, entries, i, done, s);
            let one = persist_entries_run(
                repo,
                base,
                from,
                complaint,
                seq![entries[i]],
                0,
                Seq::empty(),
                s,
            );
            match one.0 {
                Ok(kept) => whole == persist_entries_run(
                    repo,
                    base,
                    from,
                    complaint,
                    entries,
                    i + 1,
                    done + kept,
                    one.1,
                ),
                Err(stop) => whole.0 == Err::<Seq<WorkingLogEntryView>, StopView>(stop),
            }
        }),
{
    let entry = entries[i];
    let only = seq![entry];
    assert(only[0] == entry);
    if let (Ok(content), s1) = version_run(repo, entry.file, from, complaint, s) {
        if let (Ok(blob_sha), s2) = or_fail(
            asked_text(s1, RequestView::PersistFile { base, content }),
        ) {
            let kept = WorkingLogEntryView { blob_sha, ..entry };
            let first = Seq::<WorkingLogEntryView>::empty().push(kept);
            assert(persist_entries_run(repo, base, from, complaint, only, 1, first, s2) == (
                Ok::<Seq<WorkingLogEntryView>, StopView>(first),
                s2,
            ));
            assert(done.push(kept) =~= done + first);
        }
    }
}

/// The bytes that are hashed of files are those of each file's name followed by its hash.
pub proof fn law_bytes_that_are_hashed(
    pairs: Seq<(Seq<char>, Seq<char>)>,
    file: Seq<char>,
    hash: Seq<char>,
)
    ensures
        joined_bytes(pairs.push((file, hash))) == joined_bytes(pairs) + encode_utf8(file)
            + encode_utf8(hash),
        joined_bytes(Seq::empty()).len() == 0,
{
    assert(pairs.push((file, hash)).drop_last() =~= pairs);
}

/// The hash of one file that is kept is that of its name and of the name under which it is kept.
pub proof fn law_hash_of_one_file(entry: WorkingLogEntryView)
    ensures
        combined_hash(seq![entry]) == sha256_hex(
            encode_utf8(entry.file) + encode_utf8(entry.blob_sha),
        ),
{
    let pairs = file_hashes(seq![entry]);
    let one = (entry.file, entry.blob_sha);
    assert(pairs =~= seq![one]);
    assert(pairs.drop_last() =~= Seq::<(Seq<char>, Seq<char>)>::empty());
    assert(by_key(pairs.drop_last()) =~= Seq::<(Seq<char>, Seq<char>)>::empty());
    assert(by_key(pairs) =~= seq![one]);
    law_bytes_that_are_hashed(Seq::empty(), entry.file, entry.blob_sha);
    assert(Seq::<(Seq<char>, Seq<char>)>::empty().push(one) =~= seq![one]);
    assert(joined_bytes(by_key(pairs)) =~= encode_utf8(entry.file) + encode_utf8(entry.blob_sha));
}

/// A checkpoint that is kept says of its files what was kept, and the hash of all of them.
pub proof fn law_kept_checkpoint_has_its_hash(
    repo: RepositoryView,
    checkpoint: CheckpointView,
    base: Seq<char>,
    from: Seq<char>,
    complaint: Seq<char>,
    s: Tape,
)
    ensures
        persist_run(repo, checkpoint, base, from, complaint, s).0 matches Ok(kept) ==> kept.diff
            == combined_hash(kept.entries) && persist_entries_run(
            repo,
            base,
            from,
            complaint,
            checkpoint.entries,
            0,
            Seq::empty(),
            s,
        ).0 == Ok::<Seq<WorkingLogEntryView>, StopView>(kept.entries),
{
}

/// Where a rebase made more commits, each new one gets its log from the last original, and where
/// that fails from the first of the originals with which nothing does; then the next one gets its.
#[verifier::rlimit(60)]
#[verifier::spinoff_prover]
pub proof fn law_more_commits_get_their_logs_in_order(
    repo: RepositoryView,
    originals: Seq<Seq<char>>,
    new_commits: Seq<Seq<char>>,
    i: int,
    s: Tape,
)
    requires
        originals.len() > 0,
        0 <= i < new_commits.len(),
    ensures
        ({
            let last = originals.last();
            let whole = split_run(repo, last, originals, new_commits, i, s);
            let first = squash_run(repo, last, new_commits[i], false, s);
            match first.0 {
                Ok(_) => whole == split_run(repo, last, originals, new_commits, i + 1, first.1),
                Err(StopView::Fail(_)) => {
                    let tried = any_original_run(repo, originals, 0, new_commits[i], first.1);
                    match tried.0 {
                        Ok(_) => whole == split_run(
                            repo,
                            last,
                            originals,
                            new_commits,
                            i + 1,
                            tried.1,
                        ),
                        Err(stop) => whole == (Err::<(), StopView>(stop), tried.1),
                    }
                },
                Err(stop) => whole == (Err::<(), StopView>(stop), first.1),
            }
        }),
        split_run(
            repo,
            originals.last(),
            originals,
            new_commits,
            new_commits.len() as int,
            s,
        ) == (Ok::<(), StopView>(()), s),
{
}

/// Checkpoints are made of a log with what its files hold where they are read from, and only those
/// of AIs are kept.
pub proof fn law_log_becomes_checkpoints(
    repo: RepositoryView,
    log: AuthorshipLogView,
    from: Seq<char>,
    complaint: Seq<char>,
    s: Tape,
)
    requires
        0 <= s.next <= s.replies.len(),
    ensures
        ({
            let run = converted_run(repo, log, from, complaint, s);
            let read = contents_run(repo, log.attestations, from, complaint, 0, Seq::empty(), s);
            match read {
                (Ok(contents), s1) => {
                    &&& 0 <= s1.next && left(s1) == 0 ==> waits_for(
                        run,
                        RequestView::CheckpointsForSquash { log, contents },
                    )
                    &&& left(s1) > 0 && 0 <= s1.next ==> (answer(s1, 0) matches Reply::Checkpoints(
                        Ok(all),
                    ) ==> run.1 == behind(s1, 1) && (run.0 matches Ok(kept) && forall|
                        c: CheckpointView,
                    | #[trigger]
                        kept.contains(c) <==> all.deep_view().contains(c) && c.kind
                            != CheckpointKind::Human))
                },
                (Err(stop), s1) => run == (Err::<Seq<CheckpointView>, StopView>(stop), s1),
            }
        }),
        left(s) == 0 && log.attestations.len() > 0 ==> waits_for(
            converted_run(repo, log, from, complaint, s),
            file_question(repo, from, log.attestations[0].file_path),
        ),
{
    let read = contents_run(repo, log.attestations, from, complaint, 0, Seq::empty(), s);
    if let (Ok(_), s1) = read {
        if left(s1) > 0 && 0 <= s1.next {
            if let Reply::Checkpoints(Ok(all)) = answer(s1, 0) {
                law_ai_checkpoints(all.deep_view());
            }
        }
    }
}

/// What was merged into the index is read from the index, and what a reset left is read from the
/// commit that stands for it.
pub proof fn law_where_files_are_read(
    repo: RepositoryView,
    source: Seq<char>,
    target: Seq<char>,
    old_head: Seq<char>,
    temp: Seq<char>,
    hanging: Seq<char>,
    log: AuthorshipLogView,
    s: Tape,
)
    requires
        0 <= s.next <= s.replies.len(),
        log.attestations.len() > 0,
    ensures
        ({
            let (found, s1) = squash_index_log_run(repo, source, target, s);
            found == Ok::<AuthorshipLogView, StopView>(log) && 0 <= s1.next && left(s1) == 0
                ==> waits_for(
                prepare_run(repo, source, target, s),
                file_question(repo, ""@, log.attestations[0].file_path),
            )
        }),
        left(s) == 0 ==> waits_for(
            reset_finish_run(repo, log, target, old_head, temp, hanging, s),
            file_question(repo, temp, log.attestations[0].file_path),
        ),
{
    law_log_becomes_checkpoints(repo, log, temp, "Failed to read file: "@, s);
    let (found, s1) = squash_index_log_run(repo, source, target, s);
    if found == Ok::<AuthorshipLogView, StopView>(log) && 0 <= s1.next && left(s1) == 0 {
        law_log_becomes_checkpoints(repo, log, ""@, "Failed to read staged file: "@, s1);
    }
}

/// After a reset, each checkpoint is kept with what its files hold in the commit that stands for the
/// working directory, and added to the working log, before the next one is.
#[verifier::rlimit(30)]
pub proof fn law_checkpoints_are_kept_and_added_in_order(
    repo: RepositoryView,
    checkpoints: Seq<CheckpointView>,
    base: Seq<char>,
    temp: Seq<char>,
    i: int,
    s: Tape,
)
    requires
        0 <= i < checkpoints.len(),
    ensures
        ({
            let whole = append_all_run(repo, checkpoints, base, temp, i, s);
            match persist_run(repo, checkpoints[i], base, temp, "Failed to read file: "@, s) {
                (Ok(kept), s1) => {
                    &&& 0 <= s1.next && left(s1) == 0 ==> waits_for(
                        whole,
                        RequestView::AppendCheckpoint { base, checkpoint: kept },
                    )
                    &&& 0 <= s1.next < s1.replies.len() && answer(s1, 0) == Reply::Done(Ok(()))
                        ==> whole == append_all_run(
                        repo,
                        checkpoints,
                        base,
                        temp,
                        i + 1,
                        behind(s1, 1),
                    )
                },
                (Err(stop), s1) => whole == (Err::<(), StopView>(stop), s1),
            }
        }),
{
}

/// What was merged into the index is kept checkpoint by checkpoint, as the index holds it, with the
/// working log of the commit that was merged into.
#[verifier::rlimit(30)]
pub proof fn law_merged_checkpoints_are_kept_in_order(
    repo: RepositoryView,
    checkpoints: Seq<CheckpointView>,
    base: Seq<char>,
    i: int,
    done: Seq<CheckpointView>,
    s: Tape,
)
    requires
        0 <= i < checkpoints.len(),
    ensures
        ({
            let whole = persist_all_run(repo, checkpoints, base, i, done, s);
            match persist_run(
                repo,
                checkpoints[i],
                base,
                ""@,
                "Failed to read staged file: "@,
                s,
            ) {
                (Ok(kept), s1) => whole == persist_all_run(
                    repo,
                    checkpoints,
                    base,
                    i + 1,
                    done.push(kept),
                    s1,
                ),
                (Err(stop), s1) => whole == (Err::<Seq<CheckpointView>, StopView>(stop), s1),
            }
        }),
        persist_all_run(repo, checkpoints, base, checkpoints.len() as int, done, s) == (
            Ok::<Seq<CheckpointView>, StopView>(done),
            s,
        ),
{
}

/// A way of more steps than the limit is a failure.
pub proof fn law_path_may_not_be_too_long(
    repo: RepositoryView,
    head: Seq<char>,
    base: Seq<char>,
    current: Seq<char>,
    parent: Seq<char>,
    walked: Seq<Seq<char>>,
    s: Tape,
)
    requires
        0 <= s.next <= s.replies.len(),
        left(s) > 0 && wrote(answer(s, 0), parent),
        current != base,
    ensures
        walked.len() >= 10000 ==> (path_run(repo, head, base, current, walked, s).0 matches Err(
            StopView::Fail(_),
        )),
        walked.len() < 10000 ==> path_run(repo, head, base, current, walked, s) == path_run(
            repo,
            head,
            base,
            parent,
            walked.push(current),
            behind(s, 1),
        ),
        path_run(repo, head, base, base, Seq::empty(), s).0 matches Err(StopView::Fail(_)),
{
    law_first_parent_of(repo, current, parent, s);
}

} // verus!
