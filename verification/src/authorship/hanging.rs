//! Commits on no branch, made to find out who wrote what: how they are made, and what is looked up in
//! them, answer by answer.
use crate::answers::{
    answer, behind, git_command, law_author_and_committer_of, law_find_commit, law_find_tree,
    law_first_parent_of, law_git_line, law_tree_of, left, lemma_behind, waits_for, wrote,
    wrote_signature,
};
use crate::authorship::carrying::{name_question, type_question};
use crate::authorship::rebase_authorship::{
    apply_merge_run, attributed_run, blame_lines_run, blame_run, commit_as_run, content_run,
    delete_run, file_run, files_run, merge_message, reconstruct_commit_run, reconstruct_run,
    single_run,
};
use crate::authorship::reconstruction::{all_fit, inserted_lines, matched_lines, BlamedLineView};
use crate::changes::{comparable, text_changes};
use crate::git::records::Delta;
use crate::git::repository::{
    entry_among, signature_date, ObjectView, RepositoryView, SignatureView,
};
use crate::session::{Reply, RequestView, Run, StopView, Tape};
use crate::text::{lines_of, utf8_lossy};
use vstd::prelude::*;
use vstd::utf8::encode_utf8;

verus! {

broadcast use vstd::seq::group_seq_axioms;

/// The question who wrote a commit.
pub open spec fn author_question(repo: RepositoryView, oid: Seq<char>) -> RequestView {
    git_command(
        repo.args().push("show"@).push("-s"@).push("--no-notes"@).push("--encoding=UTF-8"@).push(
            "--format=%an%n%ae%n%aI"@,
        ).push(oid),
    )
}

/// The question who committed a commit.
pub open spec fn committer_question(repo: RepositoryView, oid: Seq<char>) -> RequestView {
    git_command(
        repo.args().push("show"@).push("-s"@).push("--no-notes"@).push("--encoding=UTF-8"@).push(
            "--format=%cn%n%ce%n%cI"@,
        ).push(oid),
    )
}

/// A commit of this tree with one parent, by these two, with this message.
pub open spec fn commit_command(
    repo: RepositoryView,
    tree: Seq<char>,
    parent: Seq<char>,
    author: SignatureView,
    committer: SignatureView,
    message: Seq<char>,
) -> RequestView {
    RequestView::Git {
        args: repo.args().push("commit-tree"@).push(tree).push("-p"@).push(parent),
        env: seq![
            ("GIT_AUTHOR_NAME"@, author.name),
            ("GIT_AUTHOR_EMAIL"@, author.email),
            ("GIT_AUTHOR_DATE"@, signature_date(author)),
            ("GIT_COMMITTER_NAME"@, committer.name),
            ("GIT_COMMITTER_EMAIL"@, committer.email),
            ("GIT_COMMITTER_DATE"@, signature_date(committer)),
        ],
        stdin: Some(encode_utf8(message)),
    }
}

/// Someone with a name and an email.
pub open spec fn is_someone(signature: SignatureView) -> bool {
    signature.name.len() > 0 && signature.email.len() > 0
}

/// A commit is made as another was: whoever wrote and committed that one wrote and committed this.
pub proof fn law_commit_is_made_as_another(
    repo: RepositoryView,
    like: Seq<char>,
    message: Seq<char>,
    tree: Seq<char>,
    parent: Seq<char>,
    author: SignatureView,
    committer: SignatureView,
    oid: Seq<char>,
    s: Tape,
)
    requires
        0 <= s.next <= s.replies.len(),
        is_someone(author),
        is_someone(committer),
        left(s) > 0 ==> wrote_signature(answer(s, 0), author),
        left(s) > 1 ==> wrote_signature(answer(s, 1), committer),
        left(s) > 2 ==> wrote(answer(s, 2), oid),
    ensures
        ({
            let run = commit_as_run(repo, like, message, tree, parent, s);
            &&& left(s) == 0 ==> waits_for(run, author_question(repo, like))
            &&& left(s) == 1 ==> waits_for(run, committer_question(repo, like))
            &&& left(s) == 2 ==> waits_for(
                run,
                commit_command(repo, tree, parent, author, committer, message),
            )
            &&& left(s) > 2 ==> run == (Ok::<Seq<char>, StopView>(oid), behind(s, 3))
        }),
{
    law_author_and_committer_of(repo, like, author, s);
    if left(s) > 0 {
        assert(left(s) > 1 ==> answer(behind(s, 1), 0) == answer(s, 1));
        law_author_and_committer_of(repo, like, committer, behind(s, 1));
    }
    if left(s) > 1 {
        let parents = seq![parent];
        assert(parents.drop_last() =~= Seq::<Seq<char>>::empty());
        assert(crate::git::repository::parent_args(parents.drop_last()) =~= Seq::<
            Seq<char>,
        >::empty());
        assert(crate::git::repository::parent_args(parents) =~= seq!["-p"@, parent]);
        let start = repo.args().push("commit-tree"@).push(tree);
        assert(start + crate::git::repository::parent_args(parents) =~= start.push("-p"@).push(
            parent,
        ));
        if left(s) > 2 {
            crate::text::law_trimmed_line(oid);
        }
    }
}

/// The answers, as far as there are any, to the questions that a merge on top of `head` asks.
pub open spec fn answers_merge(
    s: Tape,
    tree: Seq<char>,
    author: SignatureView,
    committer: SignatureView,
    hanging: Seq<char>,
) -> bool {
    &&& 0 <= s.next <= s.replies.len()
    &&& is_someone(author)
    &&& is_someone(committer)
    &&& left(s) > 0 ==> wrote(answer(s, 0), "commit"@)
    &&& left(s) > 1 ==> wrote(answer(s, 1), "commit"@)
    &&& left(s) > 2 ==> wrote(answer(s, 2), "commit"@)
    &&& left(s) > 3 ==> wrote(answer(s, 3), tree)
    &&& left(s) > 4 ==> wrote(answer(s, 4), "tree"@)
    &&& left(s) > 5 ==> wrote_signature(answer(s, 5), author)
    &&& left(s) > 6 ==> wrote_signature(answer(s, 6), committer)
    &&& left(s) > 7 ==> wrote(answer(s, 7), hanging)
}

/// What `head` looks like with what became of `base` on the way to `parent`: the three are looked
/// for, `parent` is merged into `head` with `base` as what they have in common, and in favour of
/// `head`, and the outcome is committed on top of `head`, as `head` was.
pub open spec fn merges_onto<T>(
    run: Run<T>,
    repo: RepositoryView,
    base: Seq<char>,
    parent: Seq<char>,
    head: Seq<char>,
    tree: Seq<char>,
    author: SignatureView,
    committer: SignatureView,
    s: Tape,
) -> bool {
    &&& left(s) == 0 ==> waits_for(run, type_question(repo, base))
    &&& left(s) == 1 ==> waits_for(run, type_question(repo, head))
    &&& left(s) == 2 ==> waits_for(run, type_question(repo, parent))
    &&& left(s) == 3 ==> waits_for(
        run,
        git_command(
            repo.args().push("merge-tree"@).push("--write-tree"@).push(
                "--merge-base="@ + base,
            ).push("-X"@).push("ours"@).push(head).push(parent),
        ),
    )
    &&& left(s) == 4 ==> waits_for(run, type_question(repo, tree))
    &&& left(s) == 5 ==> waits_for(run, author_question(repo, head))
    &&& left(s) == 6 ==> waits_for(run, committer_question(repo, head))
    &&& left(s) == 7 ==> waits_for(
        run,
        commit_command(
            repo,
            tree,
            head,
            author,
            committer,
            "Merge diff from "@ + base + " to "@ + parent + " onto "@ + head,
        ),
    )
}

/// A difference is applied to a commit as a merge on top of it.
pub proof fn law_difference_is_merged_onto_head(
    repo: RepositoryView,
    base: Seq<char>,
    parent: Seq<char>,
    head: Seq<char>,
    tree: Seq<char>,
    author: SignatureView,
    committer: SignatureView,
    hanging: Seq<char>,
    s: Tape,
)
    requires
        answers_merge(s, tree, author, committer, hanging),
    ensures
        ({
            let run = apply_merge_run(repo, base, parent, head, s);
            &&& merges_onto(run, repo, base, parent, head, tree, author, committer, s)
            &&& left(s) > 7 ==> run == (Ok::<Seq<char>, StopView>(hanging), behind(s, 8))
        }),
{
    law_find_commit(repo, base, s);
    if left(s) > 0 {
        assert(left(s) > 1 ==> answer(behind(s, 1), 0) == answer(s, 1));
        law_find_commit(repo, head, behind(s, 1));
    }
    if left(s) > 1 {
        assert(left(s) > 2 ==> answer(behind(s, 2), 0) == answer(s, 2));
        law_find_commit(repo, parent, behind(s, 2));
    }
    if left(s) > 2 {
        assert(left(s) > 3 ==> answer(behind(s, 3), 0) == answer(s, 3));
        law_git_line(
            behind(s, 3),
            repo.args().push("merge-tree"@).push("--write-tree"@).push(
                "--merge-base="@ + base,
            ).push("-X"@).push("ours"@).push(head).push(parent),
            tree,
        );
    }
    if left(s) > 3 {
        assert(left(s) > 4 ==> answer(behind(s, 4), 0) == answer(s, 4));
        law_find_tree(repo, tree, behind(s, 4));
    }
    if left(s) > 4 {
        let s5 = behind(s, 5);
        assert(left(s) > 5 ==> answer(s5, 0) == answer(s, 5));
        assert(left(s) > 6 ==> answer(s5, 1) == answer(s, 6));
        assert(left(s) > 7 ==> answer(s5, 2) == answer(s, 7));
        law_commit_is_made_as_another(
            repo,
            head,
            merge_message(base, parent, head),
            tree,
            head,
            author,
            committer,
            hanging,
            s5,
        );
    }
}

/// Who wrote a line of a commit on no branch: git says which commit the line came from and where it
/// stood in it, and of that line in that commit it is asked who wrote it. Where nobody can say,
/// it is whoever wrote the commit, and no session.
pub proof fn law_line_is_looked_up_where_it_came_from(
    repo: RepositoryView,
    file: Seq<char>,
    line: u32,
    hanging: Seq<char>,
    s: Tape,
)
    requires
        0 <= s.next <= s.replies.len(),
        left(s) > 0 ==> wrote(answer(s, 0), "commit"@),
        left(s) > 1 ==> (answer(s, 1) matches Reply::Hunks(Ok(hunks)) && hunks@.len() > 0),
        left(s) > 2 ==> answer(s, 2) is Done,
    ensures
        ({
            let run = blame_run(repo, file, line, hanging, s);
            let hunk = answer(s, 1)->Hunks_0->Ok_0@[0];
            let unknown = answer(s, 2)->Done_0 is Err;
            &&& left(s) == 0 ==> waits_for(run, type_question(repo, hanging))
            &&& left(s) == 1 ==> waits_for(
                run,
                RequestView::BlameHunks { file, first: line, last: line, newest: hanging },
            )
            &&& left(s) == 2 ==> waits_for(
                run,
                RequestView::FetchLog { commit: hunk.commit_sha@ },
            )
            &&& left(s) == 3 && !unknown ==> waits_for(
                run,
                RequestView::LineAttribution {
                    commit: hunk.commit_sha@,
                    file,
                    number: hunk.orig_range.0,
                },
            )
            &&& left(s) == 3 && unknown ==> waits_for(run, type_question(repo, hunk.commit_sha@))
            &&& left(s) == 4 && unknown && wrote(answer(s, 3), "commit"@) ==> waits_for(
                run,
                author_question(repo, hunk.commit_sha@),
            )
            &&& left(s) == 4 && !unknown ==> (answer(s, 3) matches Reply::Attribution(found)
                ==> match found.deep_view() {
                Some((author, prompt)) => run.1 == behind(s, 4) && (run.0 matches Ok(Some((who, session)))
                    && who == author && (session is Some == prompt is Some) && (session
                    matches Some((p, _)) ==> Some(p) == prompt)),
                None => waits_for(run, type_question(repo, hunk.commit_sha@)),
            })
        }),
{
    law_find_commit(repo, hanging, s);
    if left(s) > 0 {
        assert(left(s) > 1 ==> answer(behind(s, 1), 0) == answer(s, 1));
    }
    if left(s) > 2 {
        let commit = answer(s, 1)->Hunks_0->Ok_0@[0].commit_sha@;
        law_find_commit(repo, commit, behind(s, 3));
        if left(s) > 3 {
            assert(answer(behind(s, 3), 0) == answer(s, 3));
            law_find_commit(repo, commit, behind(s, 4));
            law_author_and_committer_of(repo, commit, SignatureView {
                name: Seq::empty(),
                email: Seq::empty(),
                time_iso8601: Seq::empty(),
            }, behind(s, 4));
        }
    }
}

/// What a commit changed is found by comparing the tree of its parent with its own; where there is
/// no change, the log says nothing.
pub proof fn law_changes_are_from_parent_to_commit(
    repo: RepositoryView,
    new_commit: Seq<char>,
    parent: Seq<char>,
    hanging: Seq<char>,
    new_tree: Seq<char>,
    parent_tree: Seq<char>,
    s: Tape,
)
    requires
        0 <= s.next <= s.replies.len(),
        left(s) > 0 ==> wrote(answer(s, 0), new_tree),
        left(s) > 1 ==> wrote(answer(s, 1), parent_tree),
    ensures
        ({
            let run = reconstruct_run(
                repo,
                ObjectView { repo, oid: new_commit },
                ObjectView { repo, oid: parent },
                hanging,
                s,
            );
            &&& left(s) == 0 ==> waits_for(run, name_question(repo, new_commit + "^{tree}"@))
            &&& left(s) == 1 ==> waits_for(run, name_question(repo, parent + "^{tree}"@))
            &&& left(s) == 2 ==> waits_for(
                run,
                RequestView::DiffTrees { old_tree: parent_tree, new_tree },
            )
            &&& left(s) > 2 ==> (answer(s, 2) matches Reply::Deltas(Ok(deltas)) ==> (deltas@.len()
                == 0 ==> run.1 == behind(s, 3) && (run.0 matches Ok(log) && log.attestations.len()
                == 0 && log.metadata.prompts.len() == 0)))
        }),
{
    law_tree_of(repo, new_commit, new_tree, s);
    if left(s) > 0 {
        assert(left(s) > 1 ==> answer(behind(s, 1), 0) == answer(s, 1));
        law_tree_of(repo, parent, parent_tree, behind(s, 1));
    }
}

/// A commit on no branch is removed in the repository that it was made in.
pub proof fn law_hanging_commit_is_removed(repo: RepositoryView, commit: Seq<char>, s: Tape)
    requires
        0 <= s.next <= s.replies.len(),
        left(s) > 0 ==> wrote(answer(s, 0), "commit"@),
    ensures
        ({
            let run = delete_run(repo, commit, s);
            &&& left(s) == 0 ==> waits_for(run, type_question(repo, commit))
            &&& left(s) == 1 ==> waits_for(
                run,
                RequestView::GitBeside {
                    git_dir: repo.git_dir,
                    args: seq!["update-ref"@, "-d"@, "refs/heads/temp-"@ + commit],
                },
            )
            &&& left(s) > 1 && answer(s, 1) is Exit ==> run == (
                Ok::<(), StopView>(()),
                behind(s, 2),
            )
        }),
{
    law_find_commit(repo, commit, s);
}

/// The answers, as far as there are any, to the questions from which the log of a commit is made
/// again that took the place of another and changes nothing.
pub open spec fn answers_rebuild(
    s: Tape,
    old_parent: Seq<char>,
    new_parent: Seq<char>,
    tree: Seq<char>,
    author: SignatureView,
    committer: SignatureView,
    hanging: Seq<char>,
    new_tree: Seq<char>,
    parent_tree: Seq<char>,
) -> bool {
    &&& 0 <= s.next <= s.replies.len()
    &&& left(s) > 0 ==> wrote(answer(s, 0), "commit"@)
    &&& left(s) > 1 ==> wrote(answer(s, 1), "commit"@)
    &&& left(s) > 2 ==> wrote(answer(s, 2), new_parent)
    &&& left(s) > 3 ==> wrote(answer(s, 3), old_parent)
    &&& left(s) >= 4 ==> answers_merge(behind(s, 4), tree, author, committer, hanging)
    &&& left(s) > 12 ==> wrote(answer(s, 12), new_tree)
    &&& left(s) > 13 ==> wrote(answer(s, 13), parent_tree)
    &&& left(s) > 14 ==> (answer(s, 14) matches Reply::Deltas(Ok(deltas)) && deltas@.len() == 0)
    &&& left(s) > 15 ==> wrote(answer(s, 15), "commit"@)
    &&& left(s) > 16 ==> answer(s, 16) is Exit
}

/// What the old commit did to its parent is done to the parent of the new one; what the new one
/// changed is compared with that; and the commit that was made for it is removed.
pub open spec fn rebuilds<T>(
    run: Run<T>,
    repo: RepositoryView,
    old_sha: Seq<char>,
    new_sha: Seq<char>,
    old_parent: Seq<char>,
    new_parent: Seq<char>,
    tree: Seq<char>,
    author: SignatureView,
    committer: SignatureView,
    hanging: Seq<char>,
    new_tree: Seq<char>,
    parent_tree: Seq<char>,
    s: Tape,
) -> bool {
    &&& left(s) == 0 ==> waits_for(run, type_question(repo, old_sha))
    &&& left(s) == 1 ==> waits_for(run, type_question(repo, new_sha))
    &&& left(s) == 2 ==> waits_for(run, name_question(repo, new_sha + "^1"@))
    &&& left(s) == 3 ==> waits_for(run, name_question(repo, old_sha + "^1"@))
    &&& left(s) >= 4 ==> merges_onto(
        run,
        repo,
        old_parent,
        new_parent,
        old_sha,
        tree,
        author,
        committer,
        behind(s, 4),
    )
    &&& left(s) == 12 ==> waits_for(run, name_question(repo, new_sha + "^{tree}"@))
    &&& left(s) == 13 ==> waits_for(run, name_question(repo, new_parent + "^{tree}"@))
    &&& left(s) == 14 ==> waits_for(
        run,
        RequestView::DiffTrees { old_tree: parent_tree, new_tree },
    )
    &&& left(s) == 15 ==> waits_for(run, type_question(repo, hanging))
    &&& left(s) == 16 ==> waits_for(
        run,
        RequestView::GitBeside {
            git_dir: repo.git_dir,
            args: seq!["update-ref"@, "-d"@, "refs/heads/temp-"@ + hanging],
        },
    )
}

/// The log of a commit that took the place of another is made again from what both changed.
#[verifier::rlimit(40)]
#[verifier::spinoff_prover]
pub proof fn law_log_is_rebuilt(
    repo: RepositoryView,
    old_sha: Seq<char>,
    new_sha: Seq<char>,
    old_parent: Seq<char>,
    new_parent: Seq<char>,
    tree: Seq<char>,
    author: SignatureView,
    committer: SignatureView,
    hanging: Seq<char>,
    new_tree: Seq<char>,
    parent_tree: Seq<char>,
    s: Tape,
)
    requires
        answers_rebuild(
            s,
            old_parent,
            new_parent,
            tree,
            author,
            committer,
            hanging,
            new_tree,
            parent_tree,
        ),
    ensures
        ({
            let run = reconstruct_commit_run(repo, old_sha, new_sha, s);
            &&& rebuilds(
                run,
                repo,
                old_sha,
                new_sha,
                old_parent,
                new_parent,
                tree,
                author,
                committer,
                hanging,
                new_tree,
                parent_tree,
                s,
            )
            &&& left(s) > 16 ==> run.1 == behind(s, 17) && (run.0 matches Ok(log)
                && log.metadata.base_commit_sha == new_sha && log.attestations.len() == 0
                && log.metadata.prompts.len() == 0)
        }),
{
    law_find_commit(repo, old_sha, s);
    if left(s) > 0 {
        lemma_behind(s, 1);
        law_find_commit(repo, new_sha, behind(s, 1));
        assert(left(s) > 1 ==> answer(behind(s, 1), 0) == answer(s, 1));
    }
    if left(s) > 1 {
        lemma_behind(s, 2);
        law_first_parent_of(repo, new_sha, new_parent, behind(s, 2));
        assert(left(s) > 2 ==> answer(behind(s, 2), 0) == answer(s, 2));
    }
    if left(s) > 2 {
        lemma_behind(s, 3);
        law_first_parent_of(repo, old_sha, old_parent, behind(s, 3));
        assert(left(s) > 3 ==> answer(behind(s, 3), 0) == answer(s, 3));
    }
    if left(s) > 3 {
        let s4 = behind(s, 4);
        lemma_behind(s, 4);
        law_difference_is_merged_onto_head(
            repo,
            old_parent,
            new_parent,
            old_sha,
            tree,
            author,
            committer,
            hanging,
            s4,
        );
        assert(behind(s4, 8) == behind(s, 12));
        if left(s) > 11 {
            let s12 = behind(s, 12);
            lemma_behind(s, 12);
            assert(left(s) > 12 ==> answer(s12, 0) == answer(s, 12));
            assert(left(s) > 13 ==> answer(s12, 1) == answer(s, 13));
            assert(left(s) > 14 ==> answer(s12, 2) == answer(s, 14));
            law_changes_are_from_parent_to_commit(
                repo,
                new_sha,
                new_parent,
                hanging,
                new_tree,
                parent_tree,
                s12,
            );
            if left(s) > 14 {
                let s15 = behind(s, 15);
                assert(behind(s12, 3) == s15);
                lemma_behind(s, 15);
                assert(left(s) > 15 ==> answer(s15, 0) == answer(s, 15));
                assert(left(s) > 16 ==> answer(s15, 1) == answer(s, 16));
                law_hanging_commit_is_removed(repo, hanging, s15);
            }
        }
    }
}

/// Where a commit with another tree took the place of one, its log is made again, and is written as
/// its note.
#[verifier::rlimit(40)]
#[verifier::spinoff_prover]
pub proof fn law_other_tree_gets_a_new_log(
    repo: RepositoryView,
    old_sha: Seq<char>,
    new_sha: Seq<char>,
    old_tree: Seq<char>,
    old_parent: Seq<char>,
    new_parent: Seq<char>,
    tree: Seq<char>,
    author: SignatureView,
    committer: SignatureView,
    hanging: Seq<char>,
    new_tree: Seq<char>,
    parent_tree: Seq<char>,
    s: Tape,
)
    requires
        0 <= s.next <= s.replies.len(),
        old_tree != new_tree,
        left(s) > 0 ==> wrote(answer(s, 0), "commit"@),
        left(s) > 1 ==> wrote(answer(s, 1), "commit"@),
        left(s) > 2 ==> wrote(answer(s, 2), old_tree),
        left(s) > 3 ==> wrote(answer(s, 3), new_tree),
        left(s) >= 4 ==> answers_rebuild(
            behind(s, 4),
            old_parent,
            new_parent,
            tree,
            author,
            committer,
            hanging,
            new_tree,
            parent_tree,
        ),
    ensures
        ({
            let run = single_run(repo, old_sha, new_sha, s);
            &&& left(s) == 0 ==> waits_for(run, type_question(repo, old_sha))
            &&& left(s) == 1 ==> waits_for(run, type_question(repo, new_sha))
            &&& left(s) == 2 ==> waits_for(run, name_question(repo, old_sha + "^{tree}"@))
            &&& left(s) == 3 ==> waits_for(run, name_question(repo, new_sha + "^{tree}"@))
            &&& left(s) >= 4 ==> rebuilds(
                run,
                repo,
                old_sha,
                new_sha,
                old_parent,
                new_parent,
                tree,
                author,
                committer,
                hanging,
                new_tree,
                parent_tree,
                behind(s, 4),
            )
            &&& left(s) == 21 ==> (run.0 matches Err(
                StopView::Pending(RequestView::SerializeLog { log }),
            ) && log.metadata.base_commit_sha == new_sha)
            &&& left(s) == 22 ==> (answer(s, 21) matches Reply::Text(Ok(text)) ==> waits_for(
                run,
                RequestView::AddNote { commit: new_sha, text: text@ },
            ))
        }),
{
    law_find_commit(repo, old_sha, s);
    if left(s) > 0 {
        lemma_behind(s, 1);
        law_find_commit(repo, new_sha, behind(s, 1));
        assert(left(s) > 1 ==> answer(behind(s, 1), 0) == answer(s, 1));
    }
    if left(s) > 1 {
        lemma_behind(s, 2);
        law_tree_of(repo, old_sha, old_tree, behind(s, 2));
        assert(left(s) > 2 ==> answer(behind(s, 2), 0) == answer(s, 2));
    }
    if left(s) > 2 {
        lemma_behind(s, 3);
        law_tree_of(repo, new_sha, new_tree, behind(s, 3));
        assert(left(s) > 3 ==> answer(behind(s, 3), 0) == answer(s, 3));
    }
    if left(s) > 3 {
        let s4 = behind(s, 4);
        lemma_behind(s, 4);
        law_log_is_rebuilt(
            repo,
            old_sha,
            new_sha,
            old_parent,
            new_parent,
            tree,
            author,
            committer,
            hanging,
            new_tree,
            parent_tree,
            s4,
        );
        if left(s) > 20 {
            assert(behind(s4, 17) == behind(s, 21));
            lemma_behind(s, 21);
            assert(left(s) > 21 ==> answer(behind(s, 21), 0) == answer(s, 21));
        }
    }
}

/// The answers say that a path is this blob in a tree, and that it holds these bytes.
pub open spec fn answers_content(
    s: Tape,
    at: int,
    path: Seq<char>,
    blob: Seq<char>,
    bytes: Seq<u8>,
) -> bool {
    &&& left(s) > at ==> (answer(s, at) matches Reply::Exit { success, stdout, .. } && success && (
    entry_among(stdout@, path, None) matches Some(entry) && entry.oid == blob))
    &&& left(s) > at + 1 ==> wrote(answer(s, at + 1), "blob"@)
    &&& left(s) > at + 2 ==> (answer(s, at + 2) matches Reply::Exit { success, stdout, .. } && success
        && stdout@ == bytes)
}

/// The question what stands at a path in a tree.
pub open spec fn path_question(
    repo: RepositoryView,
    tree: Seq<char>,
    path: Seq<char>,
) -> RequestView {
    git_command(repo.args().push("ls-tree"@).push("-z"@).push(tree).push("--"@).push(path))
}

/// What a file holds in a tree: it is looked up there, and its blob is read. A file that is not there
/// holds nothing.
pub proof fn law_content_is_read(
    repo: RepositoryView,
    tree: Seq<char>,
    path: Seq<char>,
    blob: Seq<char>,
    bytes: Seq<u8>,
    s: Tape,
)
    requires
        0 <= s.next <= s.replies.len(),
    ensures
        ({
            let run = content_run(repo, ObjectView { repo, oid: tree }, path, s);
            &&& left(s) == 0 ==> waits_for(run, path_question(repo, tree, path))
            &&& left(s) > 0 && (answer(s, 0) matches Reply::Exit { success, .. } && !success)
                ==> run == (Ok::<Seq<char>, StopView>(Seq::empty()), behind(s, 1))
            &&& answers_content(s, 0, path, blob, bytes) ==> {
                &&& left(s) == 1 ==> waits_for(run, type_question(repo, blob))
                &&& left(s) == 2 ==> waits_for(
                    run,
                    git_command(repo.args().push("cat-file"@).push("blob"@).push(blob)),
                )
                &&& left(s) > 2 ==> run == (
                    Ok::<Seq<char>, StopView>(utf8_lossy(bytes)),
                    behind(s, 3),
                )
            }
        }),
{
    if left(s) > 0 && answers_content(s, 0, path, blob, bytes) {
        lemma_behind(s, 1);
        assert(left(s) > 1 ==> answer(behind(s, 1), 0) == answer(s, 1));
        law_git_line(
            behind(s, 1),
            repo.args().push("cat-file"@).push("-t"@).push(blob),
            "blob"@,
        );
        if left(s) > 1 {
            lemma_behind(s, 2);
            assert(left(s) > 2 ==> answer(behind(s, 2), 0) == answer(s, 2));
        }
    }
}

/// A file that changed: it is read in the tree of the parent, in that of the commit, and in that of
/// the commit on no branch. The lines that were inserted from the first to the second are looked for
/// in the third, and the first that is found there is blamed there.
#[verifier::rlimit(60)]
#[verifier::spinoff_prover]
pub proof fn law_inserted_lines_are_blamed(
    repo: RepositoryView,
    parent_tree: Seq<char>,
    new_tree: Seq<char>,
    hanging: Seq<char>,
    hanging_tree: Seq<char>,
    path: Seq<char>,
    blobs: (Seq<char>, Seq<char>, Seq<char>),
    old: Seq<u8>,
    new: Seq<u8>,
    held: Seq<u8>,
    done: Seq<BlamedLineView>,
    s: Tape,
)
    requires
        0 <= s.next <= s.replies.len(),
        answers_content(s, 0, path, blobs.0, old),
        answers_content(s, 3, path, blobs.1, new),
        left(s) > 6 ==> wrote(answer(s, 6), "commit"@),
        left(s) > 7 ==> wrote(answer(s, 7), hanging_tree),
        answers_content(s, 8, path, blobs.2, held),
        left(s) > 11 ==> wrote(answer(s, 11), "commit"@),
        comparable(utf8_lossy(old), utf8_lossy(new)),
        all_fit(
            matched_lines(
                inserted_lines(text_changes(utf8_lossy(old), utf8_lossy(new))),
                lines_of(utf8_lossy(held)),
            ),
        ),
    ensures
        ({
            let run = file_run(
                repo,
                ObjectView { repo, oid: parent_tree },
                ObjectView { repo, oid: new_tree },
                hanging,
                path,
                done,
                s,
            );
            let numbers = matched_lines(
                inserted_lines(text_changes(utf8_lossy(old), utf8_lossy(new))),
                lines_of(utf8_lossy(held)),
            );
            &&& left(s) == 0 ==> waits_for(run, path_question(repo, parent_tree, path))
            &&& left(s) == 3 ==> waits_for(run, path_question(repo, new_tree, path))
            &&& left(s) == 6 ==> waits_for(run, type_question(repo, hanging))
            &&& left(s) == 7 ==> waits_for(run, name_question(repo, hanging + "^{tree}"@))
            &&& left(s) == 8 ==> waits_for(run, path_question(repo, hanging_tree, path))
            &&& left(s) > 10 && numbers.len() == 0 ==> run == (
                Ok::<Seq<BlamedLineView>, StopView>(done),
                behind(s, 11),
            )
            &&& left(s) == 11 && numbers.len() > 0 ==> waits_for(run, type_question(repo, hanging))
            &&& left(s) == 12 && numbers.len() > 0 ==> waits_for(
                run,
                RequestView::BlameHunks {
                    file: path,
                    first: numbers[0] as u32,
                    last: numbers[0] as u32,
                    newest: hanging,
                },
            )
        }),
{
    law_content_is_read(repo, parent_tree, path, blobs.0, old, s);
    if left(s) > 2 {
        let s3 = behind(s, 3);
        lemma_behind(s, 3);
        assert(forall|i: int| #[trigger] answer(s3, i) == answer(s, 3 + i));
        assert(answers_content(s3, 0, path, blobs.1, new));
        law_content_is_read(repo, new_tree, path, blobs.1, new, s3);
        assert(behind(s3, 3) == behind(s, 6));
    }
    if left(s) > 5 {
        lemma_behind(s, 6);
        assert(left(s) > 6 ==> answer(behind(s, 6), 0) == answer(s, 6));
        law_find_commit(repo, hanging, behind(s, 6));
    }
    if left(s) > 6 {
        lemma_behind(s, 7);
        assert(left(s) > 7 ==> answer(behind(s, 7), 0) == answer(s, 7));
        law_tree_of(repo, hanging, hanging_tree, behind(s, 7));
    }
    if left(s) > 7 {
        let s8 = behind(s, 8);
        lemma_behind(s, 8);
        assert(forall|i: int| #[trigger] answer(s8, i) == answer(s, 8 + i));
        assert(answers_content(s8, 0, path, blobs.2, held));
        law_content_is_read(repo, hanging_tree, path, blobs.2, held, s8);
        assert(behind(s8, 3) == behind(s, 11));
    }
    if left(s) > 10 {
        lemma_behind(s, 11);
        assert(left(s) > 11 ==> answer(behind(s, 11), 0) == answer(s, 11));
        law_find_commit(repo, hanging, behind(s, 11));
    }
}

/// The lines of a file are blamed one after the other. One that is blamed on someone is noted, with
/// the session if there is one; one that cannot be blamed is passed over.
pub proof fn law_blamed_line_is_noted(
    repo: RepositoryView,
    file: Seq<char>,
    hanging: Seq<char>,
    numbers: Seq<u32>,
    i: int,
    done: Seq<BlamedLineView>,
    s: Tape,
)
    requires
        0 <= i < numbers.len(),
    ensures
        ({
            let run = blame_lines_run(repo, file, hanging, numbers, i, done, s);
            let one = blame_run(repo, file, numbers[i], hanging, s);
            match one.0 {
                Ok(Some((_, session))) => run == blame_lines_run(
                    repo,
                    file,
                    hanging,
                    numbers,
                    i + 1,
                    done.push(
                        BlamedLineView {
                            file,
                            line: numbers[i],
                            prompt: if session is Some {
                                Some(session->Some_0.0)
                            } else {
                                None
                            },
                        },
                    ),
                    one.1,
                ),
                Ok(None) => run == blame_lines_run(
                    repo,
                    file,
                    hanging,
                    numbers,
                    i + 1,
                    done,
                    one.1,
                ),
                Err(StopView::Fail(_)) => run == blame_lines_run(
                    repo,
                    file,
                    hanging,
                    numbers,
                    i + 1,
                    done,
                    one.1,
                ),
                Err(stop) => run.0 == Err::<Seq<BlamedLineView>, StopView>(stop),
            }
        }),
        blame_lines_run(repo, file, hanging, numbers, numbers.len() as int, done, s) == (
            Ok::<Seq<BlamedLineView>, StopView>(done),
            s,
        ),
{
}

/// A file that changed goes by its new path, and by its old one where it was deleted; a change
/// without a path is a failure. Files are compared one after the other.
#[verifier::rlimit(30)]
pub proof fn law_changed_files_are_compared_in_order(
    repo: RepositoryView,
    parent_tree: ObjectView,
    new_tree: ObjectView,
    hanging: Seq<char>,
    deltas: Seq<Delta>,
    i: int,
    done: Seq<BlamedLineView>,
    s: Tape,
)
    requires
        0 <= i < deltas.len(),
    ensures
        ({
            let whole = files_run(repo, parent_tree, new_tree, hanging, deltas, i, done, s);
            let delta = deltas[i];
            let path = if delta.new_path is Some {
                delta.new_path->Some_0@
            } else {
                delta.old_path->Some_0@
            };
            let one = file_run(repo, parent_tree, new_tree, hanging, path, done, s);
            if delta.new_path is None && delta.old_path is None {
                whole.0 matches Err(StopView::Fail(_))
            } else {
                match one.0 {
                    Ok(more) => whole == files_run(
                        repo,
                        parent_tree,
                        new_tree,
                        hanging,
                        deltas,
                        i + 1,
                        more,
                        one.1,
                    ),
                    Err(stop) => whole == (
                        Err::<Seq<BlamedLineView>, StopView>(stop),
                        one.1,
                    ),
                }
            }
        }),
        files_run(
            repo,
            parent_tree,
            new_tree,
            hanging,
            deltas,
            deltas.len() as int,
            done,
            s,
        ) == (Ok::<Seq<BlamedLineView>, StopView>(done), s),
{
}

/// Where nobody can say who wrote a line, it is whoever wrote the commit that it came from, under
/// their name, or as `unknown` where they have none, and no session.
pub proof fn law_line_without_a_log_is_its_commits_authors(
    repo: RepositoryView,
    commit: Seq<char>,
    file: Seq<char>,
    number: u32,
    signature: SignatureView,
    s: Tape,
)
    requires
        0 <= s.next <= s.replies.len(),
        left(s) > 0 ==> (answer(s, 0) matches Reply::Done(Err(_))),
        left(s) > 1 ==> wrote(answer(s, 1), "commit"@),
        left(s) > 2 ==> wrote_signature(answer(s, 2), signature),
    ensures
        ({
            let run = attributed_run(repo, commit, file, number, s);
            &&& left(s) == 0 ==> waits_for(run, RequestView::FetchLog { commit })
            &&& left(s) == 1 ==> waits_for(run, type_question(repo, commit))
            &&& left(s) == 2 ==> waits_for(run, author_question(repo, commit))
            &&& left(s) > 2 ==> run.1 == behind(s, 3) && (run.0 matches Ok(Some((who, session)))
                && session is None && who.email == signature.email && (signature.name.len() > 0
                ==> who.username == signature.name) && (signature.name.len() == 0 ==> who.username
                == "unknown"@))
        }),
{
    if left(s) > 0 {
        lemma_behind(s, 1);
        assert(left(s) > 1 ==> answer(behind(s, 1), 0) == answer(s, 1));
        law_find_commit(repo, commit, behind(s, 1));
    }
    if left(s) > 1 {
        lemma_behind(s, 2);
        assert(left(s) > 2 ==> answer(behind(s, 2), 0) == answer(s, 2));
        law_author_and_committer_of(repo, commit, signature, behind(s, 2));
    }
}

} // verus!
