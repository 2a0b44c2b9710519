//! How authorship is carried over rewritten history: what is asked for, answer by answer.
use crate::answers::{
    answer, behind, git_command, law_find_commit, law_tree_of, left, waits_for, wrote,
};
use crate::authorship::authorship_log::AuthorshipLogView;
use crate::authorship::rebase_authorship::{
    cherry_pick_run, event_run, hanging_log_run, pairs_run, save_run, single_run,
};
use crate::git::repository::RepositoryView;
use crate::git::rewrite_log::RewriteLogEventView;
use crate::session::{Reply, RequestView, Run, StopView, Tape};
use vstd::prelude::*;

verus! {

broadcast use vstd::seq::group_seq_axioms;

/// Saving a log asks for its text, and then for a note of just that commit with just that text.
pub proof fn law_saving_writes_the_note(commit: Seq<char>, log: AuthorshipLogView, s: Tape)
    requires
        0 <= s.next <= s.replies.len(),
    ensures
        left(s) == 0 ==> waits_for(save_run(commit, log, s), RequestView::SerializeLog { log }),
        left(s) == 1 ==> (answer(s, 0) matches Reply::Text(Ok(text)) ==> waits_for(
            save_run(commit, log, s),
            RequestView::AddNote { commit, text: text@ },
        )),
        left(s) > 1 && answer(s, 0) is Text && answer(s, 0)->Text_0 is Ok && answer(s, 1)
            == Reply::Done(Ok(())) ==> save_run(commit, log, s) == (
            Ok::<(), StopView>(()),
            behind(s, 2),
        ),
{
}

/// The question what kind of object this is.
pub open spec fn type_question(repo: RepositoryView, oid: Seq<char>) -> RequestView {
    git_command(repo.args().push("cat-file"@).push("-t"@).push(oid))
}

/// The question which object a name is for.
pub open spec fn name_question(repo: RepositoryView, name: Seq<char>) -> RequestView {
    git_command(repo.args().push("rev-parse"@).push("--verify"@).push(name))
}

/// The answers, as far as there are any, say that there are two commits, and that both have this
/// tree.
pub open spec fn have_one_tree(s: Tape, tree: Seq<char>) -> bool {
    &&& 0 <= s.next <= s.replies.len()
    &&& left(s) > 0 ==> wrote(answer(s, 0), "commit"@)
    &&& left(s) > 1 ==> wrote(answer(s, 1), "commit"@)
    &&& left(s) > 2 ==> wrote(answer(s, 2), tree)
    &&& left(s) > 3 ==> wrote(answer(s, 3), tree)
}

/// The two commits are looked for, their trees are asked for, the log of the old one is read, and a
/// note with the same attestations and sessions is written for the new one; where the old one has no
/// log, nothing more is done.
pub open spec fn carries_the_log(
    run: Run<()>,
    repo: RepositoryView,
    old_sha: Seq<char>,
    new_sha: Seq<char>,
    s: Tape,
) -> bool {
    &&& left(s) == 0 ==> waits_for(run, type_question(repo, old_sha))
    &&& left(s) == 1 ==> waits_for(run, type_question(repo, new_sha))
    &&& left(s) == 2 ==> waits_for(run, name_question(repo, old_sha + "^{tree}"@))
    &&& left(s) == 3 ==> waits_for(run, name_question(repo, new_sha + "^{tree}"@))
    &&& left(s) == 4 ==> waits_for(run, RequestView::ReadLog { commit: old_sha })
    &&& left(s) == 5 ==> match answer(s, 4) {
        Reply::Log(Ok(log)) => run.0 matches Err(
            StopView::Pending(RequestView::SerializeLog { log: copy }),
        ) && copy.attestations == log.deep_view().attestations && copy.metadata.prompts
            == log.deep_view().metadata.prompts && copy.metadata.rest
            == log.deep_view().metadata.rest && copy.metadata.base_commit_sha == new_sha,
        Reply::Log(Err(_)) => run == (Ok::<(), StopView>(()), behind(s, 5)),
        _ => true,
    }
    &&& left(s) == 6 ==> match (answer(s, 4), answer(s, 5)) {
        (Reply::Log(Ok(_)), Reply::Text(Ok(text))) => waits_for(
            run,
            RequestView::AddNote { commit: new_sha, text: text@ },
        ),
        _ => true,
    }
    &&& left(s) == 7 ==> match (answer(s, 4), answer(s, 5), answer(s, 6)) {
        (Reply::Log(Ok(_)), Reply::Text(Ok(_)), Reply::Done(Ok(()))) => run == (
            Ok::<(), StopView>(()),
            behind(s, 7),
        ),
        _ => true,
    }
}

/// The log of a commit is carried over to the one that takes its place with the same tree.
pub proof fn law_same_tree_keeps_the_log(
    repo: RepositoryView,
    old_sha: Seq<char>,
    new_sha: Seq<char>,
    tree: Seq<char>,
    s: Tape,
)
    requires
        have_one_tree(s, tree),
    ensures
        carries_the_log(single_run(repo, old_sha, new_sha, s), repo, old_sha, new_sha, s),
{
    law_find_commit(repo, old_sha, s);
    if left(s) > 0 {
        law_find_commit(repo, new_sha, behind(s, 1));
        assert(answer(behind(s, 1), 0) == answer(s, 1));
    }
    if left(s) > 1 {
        law_tree_of(repo, old_sha, tree, behind(s, 2));
        assert(answer(behind(s, 2), 0) == answer(s, 2));
    }
    if left(s) > 2 {
        law_tree_of(repo, new_sha, tree, behind(s, 3));
        assert(answer(behind(s, 3), 0) == answer(s, 3));
    }
}

/// Where a rebase or a cherry-pick made one commit out of one with the same tree, the log of the
/// original becomes that of the new commit.
#[verifier::rlimit(30)]
pub proof fn law_event_carries_the_log(
    repo: RepositoryView,
    old_sha: Seq<char>,
    new_sha: Seq<char>,
    tree: Seq<char>,
    author: Seq<char>,
    quiet: bool,
    s: Tape,
)
    requires
        have_one_tree(s, tree),
    ensures
        carries_the_log(
            event_run(
                repo,
                RewriteLogEventView::RebaseComplete {
                    original_commits: seq![old_sha],
                    new_commits: seq![new_sha],
                },
                author,
                quiet,
                s,
            ),
            repo,
            old_sha,
            new_sha,
            s,
        ),
        carries_the_log(
            event_run(
                repo,
                RewriteLogEventView::CherryPickComplete {
                    source_commits: seq![old_sha],
                    new_commits: seq![new_sha],
                },
                author,
                quiet,
                s,
            ),
            repo,
            old_sha,
            new_sha,
            s,
        ),
{
    law_same_tree_keeps_the_log(repo, old_sha, new_sha, tree, s);
    let olds = seq![old_sha];
    let news = seq![new_sha];
    assert(olds[0] == old_sha && news[0] == new_sha);
    let s1 = single_run(repo, old_sha, new_sha, s).1;
    assert(pairs_run(repo, olds, news, 1, s1) == (Ok::<(), StopView>(()), s1));
    assert(cherry_pick_run(repo, olds, news, 1, s1) == (Ok::<(), StopView>(()), s1));
}

/// The one run, and then, unless it stopped, the other from where the one ended.
pub open spec fn one_after_other(whole: Run<()>, first: Run<()>, second: Run<()>) -> bool {
    match first {
        (Ok(_), _) => whole == second,
        (Err(stop), s1) => whole == (Err::<(), StopView>(stop), s1),
    }
}

#[verifier::rlimit(60)]
#[verifier::spinoff_prover]
proof fn lemma_pairs_behind(
    repo: RepositoryView,
    a: Seq<Seq<char>>,
    b: Seq<Seq<char>>,
    c: Seq<Seq<char>>,
    d: Seq<Seq<char>>,
    j: int,
    s: Tape,
)
    requires
        a.len() == b.len(),
        c.len() == d.len(),
        0 <= j <= c.len(),
    ensures
        pairs_run(repo, a + c, b + d, a.len() + j, s) == pairs_run(repo, c, d, j, s),
        cherry_pick_run(repo, a + c, b + d, a.len() + j, s) == cherry_pick_run(repo, c, d, j, s),
    decreases c.len() - j,
{
    if j < c.len() {
        assert((a + c)[a.len() + j] == c[j]);
        assert((b + d)[b.len() + j] == d[j]);
        lemma_pairs_behind(repo, a, b, c, d, j + 1, single_run(repo, c[j], d[j], s).1);
    }
}

proof fn lemma_pairs_before(
    repo: RepositoryView,
    a: Seq<Seq<char>>,
    b: Seq<Seq<char>>,
    c: Seq<Seq<char>>,
    d: Seq<Seq<char>>,
    i: int,
    s: Tape,
)
    requires
        a.len() == b.len(),
        c.len() == d.len(),
        0 <= i <= a.len(),
    ensures
        ({
            let first = pairs_run(repo, a, b, i, s);
            one_after_other(
                pairs_run(repo, a + c, b + d, i, s),
                first,
                pairs_run(repo, c, d, 0, first.1),
            )
        }),
        ({
            let first = cherry_pick_run(repo, a, b, i, s);
            one_after_other(
                cherry_pick_run(repo, a + c, b + d, i, s),
                first,
                cherry_pick_run(repo, c, d, 0, first.1),
            )
        }),
    decreases a.len() - i,
{
    if i < a.len() {
        assert((a + c)[i] == a[i]);
        assert((b + d)[i] == b[i]);
        lemma_pairs_before(repo, a, b, c, d, i + 1, single_run(repo, a[i], b[i], s).1);
    } else {
        lemma_pairs_behind(repo, a, b, c, d, 0, s);
    }
}

/// Where a rebase made as many commits as there were, each takes the place of the one at its place:
/// what is done is what is done for the first few, and then for the others. The same holds of a
/// cherry-pick.
#[verifier::rlimit(30)]
pub proof fn law_commits_are_paired_in_order(
    repo: RepositoryView,
    a: Seq<Seq<char>>,
    b: Seq<Seq<char>>,
    c: Seq<Seq<char>>,
    d: Seq<Seq<char>>,
    author: Seq<char>,
    quiet: bool,
    s: Tape,
)
    requires
        a.len() == b.len(),
        c.len() == d.len(),
    ensures
        ({
            let rebase = |old: Seq<Seq<char>>, new: Seq<Seq<char>>, s1: Tape|
                event_run(
                    repo,
                    RewriteLogEventView::RebaseComplete {
                        original_commits: old,
                        new_commits: new,
                    },
                    author,
                    quiet,
                    s1,
                );
            one_after_other(rebase(a + c, b + d, s), rebase(a, b, s), rebase(c, d, rebase(a, b, s).1))
        }),
        ({
            let pick = |old: Seq<Seq<char>>, new: Seq<Seq<char>>, s1: Tape|
                event_run(
                    repo,
                    RewriteLogEventView::CherryPickComplete {
                        source_commits: old,
                        new_commits: new,
                    },
                    author,
                    quiet,
                    s1,
                );
            one_after_other(pick(a + c, b + d, s), pick(a, b, s), pick(c, d, pick(a, b, s).1))
        }),
{
    lemma_pairs_before(repo, a, b, c, d, 0, s);
}

/// The log is the one that was read; one that cannot be read is taken for one that says nothing.
pub open spec fn is_log_or_nothing(
    log: AuthorshipLogView,
    reply: Reply,
    otherwise: Seq<char>,
) -> bool {
    match reply {
        Reply::Log(Ok(found)) => log == found.deep_view(),
        Reply::Log(Err(_)) => log.attestations.len() == 0 && log.metadata.prompts.len() == 0
            && log.metadata.base_commit_sha == otherwise,
        _ => false,
    }
}

/// Amending a commit: its log and the checkpoints on top of it are read, these are put into the log
/// under the name of who commits, what comes of it, for the amended commit, is written as the
/// amended commit's note, and the working log on top of the original is removed.
pub proof fn law_amending_adds_the_checkpoints(
    repo: RepositoryView,
    original: Seq<char>,
    amended: Seq<char>,
    author: Seq<char>,
    quiet: bool,
    s: Tape,
)
    requires
        0 <= s.next <= s.replies.len(),
    ensures
        ({
            let run = event_run(
                repo,
                RewriteLogEventView::CommitAmend {
                    original_commit: original,
                    amended_commit_sha: amended,
                },
                author,
                quiet,
                s,
            );
            &&& left(s) == 0 ==> waits_for(run, RequestView::ReadLog { commit: original })
            &&& left(s) == 1 && answer(s, 0) is Log ==> waits_for(
                run,
                RequestView::ReadCheckpoints { base: original },
            )
            &&& left(s) == 2 && answer(s, 0) is Log ==> match answer(s, 1) {
                Reply::Checkpoints(Ok(all)) => run.0 matches Err(
                    StopView::Pending(
                        RequestView::ApplyCheckpoints { log, checkpoints, author: who },
                    ),
                ) && is_log_or_nothing(log, answer(s, 0), original) && checkpoints
                    == all.deep_view() && who == author,
                Reply::Checkpoints(Err(_)) => run == (Ok::<(), StopView>(()), behind(s, 2)),
                _ => true,
            }
            &&& left(s) == 3 && answer(s, 0) is Log ==> match (answer(s, 1), answer(s, 2)) {
                (Reply::Checkpoints(Ok(_)), Reply::Log(Ok(applied))) => run.0 matches Err(
                    StopView::Pending(RequestView::SerializeLog { log }),
                ) && log.attestations == applied.deep_view().attestations && log.metadata.prompts
                    == applied.deep_view().metadata.prompts && log.metadata.rest
                    == applied.deep_view().metadata.rest && log.metadata.base_commit_sha == amended,
                _ => true,
            }
            &&& left(s) == 4 && answer(s, 0) is Log ==> match (
                answer(s, 1),
                answer(s, 2),
                answer(s, 3),
            ) {
                (
                    Reply::Checkpoints(Ok(_)),
                    Reply::Log(Ok(_)),
                    Reply::Text(Ok(text)),
                ) => waits_for(run, RequestView::AddNote { commit: amended, text: text@ }),
                _ => true,
            }
            &&& left(s) == 5 && answer(s, 0) is Log && answer(s, 4) == Reply::Done(Ok(())) ==> match (
                answer(s, 1),
                answer(s, 2),
                answer(s, 3),
            ) {
                (Reply::Checkpoints(Ok(_)), Reply::Log(Ok(_)), Reply::Text(Ok(_))) => waits_for(
                    run,
                    RequestView::DeleteWorkingLog { base: original },
                ),
                _ => true,
            }
        }),
{
}

/// The commit that stands for the working directory before a reset gets the log of the head with
/// the checkpoints on top of it.
pub proof fn law_hanging_commit_gets_the_log(
    old_head: Seq<char>,
    hanging: Seq<char>,
    author: Seq<char>,
    s: Tape,
)
    requires
        0 <= s.next <= s.replies.len(),
    ensures
        ({
            let run = hanging_log_run(old_head, hanging, author, s);
            &&& left(s) == 0 ==> waits_for(run, RequestView::ReadLog { commit: old_head })
            &&& left(s) == 1 && answer(s, 0) is Log ==> waits_for(
                run,
                RequestView::ReadCheckpoints { base: old_head },
            )
            &&& left(s) == 2 && answer(s, 0) is Log ==> match answer(s, 1) {
                Reply::Checkpoints(Ok(all)) => if all@.len() > 0 {
                    run.0 matches Err(
                        StopView::Pending(
                            RequestView::ApplyCheckpoints { log, checkpoints, author: who },
                        ),
                    ) && is_log_or_nothing(log, answer(s, 0), ""@) && checkpoints
                        == all.deep_view() && who == author
                } else {
                    run.0 matches Err(StopView::Pending(RequestView::SerializeLog { log }))
                        && log.metadata.base_commit_sha == hanging && (answer(s, 0)
                        matches Reply::Log(Ok(found)) ==> log.attestations
                        == found.deep_view().attestations && log.metadata.prompts
                        == found.deep_view().metadata.prompts)
                },
                Reply::Checkpoints(Err(_)) => run.0 matches Err(
                    StopView::Pending(RequestView::SerializeLog { log }),
                ) && log.metadata.base_commit_sha == hanging && (answer(s, 0) matches Reply::Log(
                    Ok(found),
                ) ==> log.attestations == found.deep_view().attestations && log.metadata.prompts
                    == found.deep_view().metadata.prompts),
                _ => true,
            }
            &&& left(s) == 3 && answer(s, 0) is Log ==> match (answer(s, 1), answer(s, 2)) {
                (Reply::Checkpoints(Ok(all)), Reply::Log(Ok(applied))) => all@.len() > 0 ==> (
                run.0 matches Err(StopView::Pending(RequestView::SerializeLog { log }))
                    && log.attestations == applied.deep_view().attestations && log.metadata.prompts
                    == applied.deep_view().metadata.prompts && log.metadata.base_commit_sha
                    == hanging),
                _ => true,
            }
            &&& left(s) == 4 && answer(s, 0) is Log ==> match (
                answer(s, 1),
                answer(s, 2),
                answer(s, 3),
            ) {
                (
                    Reply::Checkpoints(Ok(all)),
                    Reply::Log(Ok(_)),
                    Reply::Text(Ok(text)),
                ) => all@.len() > 0 ==> waits_for(
                    run,
                    RequestView::AddNote { commit: hanging, text: text@ },
                ),
                _ => true,
            }
        }),
{
    reveal_strlit("");
    assert(""@ =~= Seq::<char>::empty());
}

} // verus!
