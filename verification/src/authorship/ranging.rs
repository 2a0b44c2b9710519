//! What the statistics of a range of commits are made of.
use crate::answers::{
    answer, behind, git_command, law_find_commit, law_git_line, left, lemma_behind, waits_for,
    wrote,
};
use crate::authorship::carrying::type_question;
use crate::authorship::range_authorship::{
    ai_count, all_filed, any_ai_run, authors_with, authors_without, authorship_of, commits_without,
    count_files_run, diff_additions, diff_range_stats_run, fetch_run, fetch_source, file_blame_run,
    first_bytes, has_log, law_additions_are_plus_lines, law_range_counts_add_up, log_count,
    minus_count, plus_count, print_commits_run, print_missing_run, print_range_run,
    range_authorship_run, range_stats_run, readable, spans_run, utf8_width, AuthorshipStatsView,
    BlamedSpanView, RangeAuthorshipStatsView, RangeCounts,
};
use crate::authorship::squashing::wrote_text;
use crate::authorship::stats::terminal_run;
use crate::git::records::{BlameHunk, CommitAuthorshipView};
use crate::git::repository::{
    default_remote, is_valid_run, trimmed_lines, CommitRangeView, RepositoryView,
};
use crate::session::{Reply, RequestView, Run, StopView, Tape};
use crate::text::{decimal, has_prefix, law_cut, lines_of, split_at_char};
use vstd::prelude::*;
use vstd::utf8::{encode_scalar, encode_utf8};

verus! {

broadcast use vstd::seq::group_seq_axioms;

// ---------------------------------------------------------------------------------------------
// Whose the lines of a file are
// ---------------------------------------------------------------------------------------------
/// The sha of a commit.
pub open spec fn sha_of(commit: CommitAuthorshipView) -> Seq<char> {
    match commit {
        CommitAuthorshipView::Log { sha, .. } => sha,
        CommitAuthorshipView::NoLog { sha, .. } => sha,
    }
}

/// Who made a commit.
pub open spec fn author_of(commit: CommitAuthorshipView) -> Seq<char> {
    match commit {
        CommitAuthorshipView::Log { git_author, .. } => git_author,
        CommitAuthorshipView::NoLog { git_author, .. } => git_author,
    }
}

/// Among commits that each stand once, those have a log that stand there with one, and no others.
pub proof fn law_has_log(commits: Seq<CommitAuthorshipView>, commit: Seq<char>)
    requires
        forall|i: int, j: int|
            0 <= i < j < commits.len() ==> sha_of(#[trigger] commits[i]) != sha_of(
                #[trigger] commits[j],
            ),
    ensures
        has_log(commits, commit) <==> exists|i: int|
            0 <= i < commits.len() && (#[trigger] commits[i]) is Log && sha_of(commits[i])
                == commit,
    decreases commits.len(),
{
    if commits.len() > 0 {
        let before = commits.drop_last();
        law_has_log(before, commit);
        let last = commits.len() - 1;
        assert(commits.last() == commits[last]);
        if has_log(before, commit) {
            let i = choose|i: int|
                0 <= i < before.len() && (#[trigger] before[i]) is Log && sha_of(before[i])
                    == commit;
            assert(commits[i] == before[i]);
            assert(sha_of(commits[i]) != sha_of(commits[last]));
        }
        if exists|i: int|
            0 <= i < commits.len() && (#[trigger] commits[i]) is Log && sha_of(commits[i])
                == commit {
            let i = choose|i: int|
                0 <= i < commits.len() && (#[trigger] commits[i]) is Log && sha_of(commits[i])
                    == commit;
            if i < last {
                assert(before[i] == commits[i]);
                assert(sha_of(commits[i]) != sha_of(commits[last]));
            }
        }
    }
}

/// The answer says that a session wrote the line.
pub open spec fn names_a_session(reply: Reply) -> bool {
    reply matches Reply::Attribution(found) && (found.deep_view() matches Some((_, Some(_))))
}

/// Whether an AI wrote one of some lines: each is asked for, from the first on, until one is found,
/// and there is none where they all were asked for.
pub proof fn law_lines_are_asked_for_until_one_is_an_ais(
    commit: Seq<char>,
    file: Seq<char>,
    first: u32,
    last: u32,
    s: Tape,
)
    requires
        first <= last,
        0 <= s.next <= s.replies.len(),
        left(s) <= last - first + 1,
        forall|k: int| 0 <= k < left(s) ==> (#[trigger] answer(s, k)) is Attribution,
        forall|k: int| 0 <= k < left(s) - 1 ==> !names_a_session(#[trigger] answer(s, k)),
    ensures
        ({
            let run = any_ai_run(commit, file, first as int, last as int, s);
            let found = left(s) > 0 && names_a_session(answer(s, left(s) - 1));
            &&& found ==> run == (Ok::<bool, StopView>(true), behind(s, left(s)))
            &&& !found && left(s) <= last - first ==> waits_for(
                run,
                RequestView::LineAttribution { commit, file, number: (first + left(s)) as u32 },
            )
            &&& !found && left(s) == last - first + 1 ==> run == (
                Ok::<bool, StopView>(false),
                behind(s, left(s)),
            )
        }),
    decreases last - first,
{
    if left(s) > 0 {
        let s1 = behind(s, 1);
        lemma_behind(s, 1);
        assert(answer(s, 0) is Attribution);
        assert(s.replies[s.next] == answer(s, 0));
        if left(s) > 1 {
            assert(!names_a_session(answer(s, 0)));
            assert forall|k: int| 0 <= k < left(s1) implies (#[trigger] answer(s1, k))
                is Attribution by {
                assert(answer(s, k + 1) is Attribution);
            }
            assert forall|k: int| 0 <= k < left(s1) - 1 implies !names_a_session(
                #[trigger] answer(s1, k),
            ) by {
                assert(!names_a_session(answer(s, k + 1)));
            }
            law_lines_are_asked_for_until_one_is_an_ais(commit, file, (first + 1) as u32, last, s1);
            assert(behind(s1, left(s1)) == behind(s, left(s)));
            assert(answer(s1, left(s1) - 1) == answer(s, left(s) - 1));
        } else if !names_a_session(answer(s, 0)) && first < last {
            law_lines_are_asked_for_until_one_is_an_ais(commit, file, (first + 1) as u32, last, s1);
        } else if !names_a_session(answer(s, 0)) {
            assert(any_ai_run(commit, file, first + 1, last as int, s1) == (
                Ok::<bool, StopView>(false),
                s1,
            ));
        }
    }
}

proof fn lemma_spans(
    file: Seq<char>,
    commits: Seq<CommitAuthorshipView>,
    hunks: Seq<BlameHunk>,
    i: int,
    done: Seq<BlamedSpanView>,
    s: Tape,
)
    requires
        0 <= i <= hunks.len(),
        done.len() == i,
        forall|k: int|
            0 <= k < i ==> (#[trigger] done[k]).first == hunks[k].range.0 && done[k].last
                == hunks[k].range.1 && done[k].commit_sha == hunks[k].commit_sha@ && (done[k].is_ai
                ==> has_log(commits, hunks[k].commit_sha@)),
    ensures
        spans_run(file, commits, hunks, i, done, s).0 matches Ok(spans) ==> {
            &&& spans.len() == hunks.len()
            &&& forall|k: int|
                0 <= k < spans.len() ==> (#[trigger] spans[k]).first == hunks[k].range.0
                    && spans[k].last == hunks[k].range.1 && spans[k].commit_sha
                    == hunks[k].commit_sha@ && (spans[k].is_ai ==> has_log(
                    commits,
                    hunks[k].commit_sha@,
                ))
        },
    decreases hunks.len() - i,
{
    if i < hunks.len() {
        let hunk = hunks[i];
        let found: Run<bool> = if has_log(commits, hunk.commit_sha@) {
            any_ai_run(
                hunk.commit_sha@,
                file,
                hunk.orig_range.0 as int,
                hunk.orig_range.1 as int,
                s,
            )
        } else {
            (Ok(false), s)
        };
        if let (Ok(is_ai), s1) = found {
            let more = done.push(
                BlamedSpanView {
                    first: hunk.range.0,
                    last: hunk.range.1,
                    commit_sha: hunk.commit_sha@,
                    is_ai,
                },
            );
            lemma_spans(file, commits, hunks, i + 1, more, s1);
        }
    }
}

/// The lines of a file, as git blames them: each run of lines stands where it is now, for the commit
/// that it came from, and is an AI's only where that commit is one of those with a log.
pub proof fn law_spans_are_the_blamed_runs(
    file: Seq<char>,
    newest: Seq<char>,
    commits: Seq<CommitAuthorshipView>,
    s: Tape,
)
    requires
        0 <= s.next <= s.replies.len(),
    ensures
        ({
            let run = file_blame_run(file, newest, commits, s);
            &&& left(s) == 0 ==> waits_for(
                run,
                RequestView::BlameHunks { file, first: 1, last: u32::MAX, newest },
            )
            &&& left(s) > 0 ==> (answer(s, 0) matches Reply::Hunks(Ok(hunks)) ==> (run.0 matches Ok(
                spans,
            ) ==> {
                &&& spans.len() == hunks@.len()
                &&& forall|k: int|
                    0 <= k < spans.len() ==> (#[trigger] spans[k]).first == hunks@[k].range.0
                        && spans[k].last == hunks@[k].range.1 && spans[k].commit_sha
                        == hunks@[k].commit_sha@ && (spans[k].is_ai ==> has_log(
                        commits,
                        hunks@[k].commit_sha@,
                    ))
            }))
        }),
{
    if left(s) > 0 {
        if let Reply::Hunks(Ok(hunks)) = answer(s, 0) {
            lemma_spans(file, commits, hunks@, 0, Seq::empty(), behind(s, 1));
        }
    }
}

/// One run of lines of a commit with a log is looked up where it stood in that commit, from its
/// first line to its last; it is an AI's just where one of them is.
pub proof fn law_run_is_looked_up_where_it_came_from(
    file: Seq<char>,
    commits: Seq<CommitAuthorshipView>,
    hunk: BlameHunk,
    s: Tape,
)
    requires
        hunk.orig_range.0 <= hunk.orig_range.1,
        0 <= s.next <= s.replies.len(),
        left(s) <= hunk.orig_range.1 - hunk.orig_range.0 + 1,
        forall|k: int| 0 <= k < left(s) ==> (#[trigger] answer(s, k)) is Attribution,
        forall|k: int| 0 <= k < left(s) - 1 ==> !names_a_session(#[trigger] answer(s, k)),
    ensures
        ({
            let run = spans_run(file, commits, seq![hunk], 0, Seq::empty(), s);
            let found = left(s) > 0 && names_a_session(answer(s, left(s) - 1));
            let known = has_log(commits, hunk.commit_sha@);
            &&& !known ==> run.1 == s && (run.0 matches Ok(spans) && spans.len() == 1
                && !spans[0].is_ai)
            &&& known && !found && left(s) <= hunk.orig_range.1 - hunk.orig_range.0 ==> waits_for(
                run,
                RequestView::LineAttribution {
                    commit: hunk.commit_sha@,
                    file,
                    number: (hunk.orig_range.0 + left(s)) as u32,
                },
            )
            &&& known && found ==> (run.0 matches Ok(spans) && spans.len() == 1 && spans[0].is_ai)
            &&& known && !found && left(s) == hunk.orig_range.1 - hunk.orig_range.0 + 1 ==> (run.0
                matches Ok(spans) && spans.len() == 1 && !spans[0].is_ai)
        }),
{
    let hunks = seq![hunk];
    assert(hunks[0] == hunk);
    law_lines_are_asked_for_until_one_is_an_ais(
        hunk.commit_sha@,
        file,
        hunk.orig_range.0,
        hunk.orig_range.1,
        s,
    );
    let found: Run<bool> = if has_log(commits, hunk.commit_sha@) {
        any_ai_run(
            hunk.commit_sha@,
            file,
            hunk.orig_range.0 as int,
            hunk.orig_range.1 as int,
            s,
        )
    } else {
        (Ok(false), s)
    };
    if let (Ok(is_ai), s1) = found {
        let done = Seq::<BlamedSpanView>::empty().push(
            BlamedSpanView {
                first: hunk.range.0,
                last: hunk.range.1,
                commit_sha: hunk.commit_sha@,
                is_ai,
            },
        );
        assert(spans_run(file, commits, hunks, 1, done, s1) == (
            Ok::<Seq<BlamedSpanView>, StopView>(done),
            s1,
        ));
    }
}

// ---------------------------------------------------------------------------------------------
// What the numbers say
// ---------------------------------------------------------------------------------------------
/// The statistics of a range: git is asked for its difference, and the files that it added lines to
/// are blamed at its end. What was added and deleted is counted there, an AI's lines are all
/// accepted, and nothing is mixed.
pub proof fn law_range_is_counted(
    repo: RepositoryView,
    start: Seq<char>,
    end: Seq<char>,
    commits: Seq<CommitAuthorshipView>,
    diff: Seq<char>,
    s: Tape,
)
    requires
        0 <= s.next <= s.replies.len(),
        left(s) > 0 ==> wrote_text(answer(s, 0), diff),
    ensures
        ({
            let run = range_stats_run(repo, start, end, commits, s);
            let additions = diff_additions(diff);
            let fits = readable(lines_of(diff)) && plus_count(lines_of(diff)) <= 0xffff_ffff
                && minus_count(lines_of(diff)) <= 0xffff_ffff;
            &&& left(s) == 0 ==> waits_for(
                run,
                git_command(repo.args().push("diff"@).push(start + ".."@ + end)),
            )
            &&& left(s) == 1 && additions.len() > 0 && fits ==> waits_for(
                run,
                RequestView::BlameHunks {
                    file: additions[0].0,
                    first: 1,
                    last: u32::MAX,
                    newest: end,
                },
            )
            &&& left(s) == 1 && additions.len() == 0 && fits ==> run.0 is Ok
            &&& left(s) > 0 ==> (run.0 matches Ok(stats) ==> {
                &&& stats.git_diff_added_lines == plus_count(lines_of(diff))
                &&& stats.git_diff_deleted_lines == minus_count(lines_of(diff))
                &&& stats.mixed_additions == 0
                &&& stats.ai_accepted == stats.ai_additions
                &&& stats.time_waiting_for_ai == 0
                &&& stats.ai_input_tokens == 0
                &&& stats.ai_output_tokens == 0
                &&& stats.ai_cache_read_input_tokens == 0
                &&& stats.ai_cache_creation_input_tokens == 0
            })
        }),
{
}

/// What is said of commits with a log and of those without: how many there are of each, who made
/// them, each once, and which have none, in their order.
pub proof fn law_commits_are_told_apart(
    one: Seq<CommitAuthorshipView>,
    other: Seq<CommitAuthorshipView>,
    author: Seq<char>,
)
    ensures
        log_count(one + other) == log_count(one) + log_count(other),
        commits_without(one + other) == commits_without(one) + commits_without(other),
        authors_with(one).contains(author) <==> exists|i: int|
            0 <= i < one.len() && (#[trigger] one[i]) is Log && author_of(one[i]) == author,
        authors_without(one).contains(author) <==> exists|i: int|
            0 <= i < one.len() && (#[trigger] one[i]) is NoLog && author_of(one[i]) == author,
{
    lemma_counts_join(one, other);
    lemma_authors(one, author);
}

proof fn lemma_counts_join(one: Seq<CommitAuthorshipView>, other: Seq<CommitAuthorshipView>)
    ensures
        log_count(one + other) == log_count(one) + log_count(other),
        commits_without(one + other) == commits_without(one) + commits_without(other),
    decreases other.len(),
{
    if other.len() == 0 {
        assert(one + other =~= one);
        assert(commits_without(one) + commits_without(other) =~= commits_without(one));
    } else {
        assert((one + other).drop_last() =~= one + other.drop_last());
        assert((one + other).last() == other.last());
        lemma_counts_join(one, other.drop_last());
        assert(commits_without(one + other) =~= commits_without(one) + commits_without(other));
    }
}

proof fn lemma_authors(commits: Seq<CommitAuthorshipView>, author: Seq<char>)
    ensures
        authors_with(commits).contains(author) <==> exists|i: int|
            0 <= i < commits.len() && (#[trigger] commits[i]) is Log && author_of(commits[i])
                == author,
        authors_without(commits).contains(author) <==> exists|i: int|
            0 <= i < commits.len() && (#[trigger] commits[i]) is NoLog && author_of(commits[i])
                == author,
    decreases commits.len(),
{
    if commits.len() > 0 {
        let before = commits.drop_last();
        let last = commits.len() - 1;
        lemma_authors(before, author);
        assert(commits.last() == commits[last]);
        assert(forall|i: int| 0 <= i < before.len() ==> before[i] == #[trigger] commits[i]);
        assert forall|i: int| 0 <= i < before.len() implies (#[trigger] before[i]) == commits[i] by {}
        let name = author_of(commits[last]);
        let with = authors_with(before);
        let without = authors_without(before);
        lemma_pushed(with, name, author);
        lemma_pushed(without, name, author);
    }
}

proof fn lemma_pushed(names: Seq<Seq<char>>, name: Seq<char>, author: Seq<char>)
    ensures
        names.push(name).contains(author) <==> names.contains(author) || name == author,
{
    if names.contains(author) {
        let i = names.index_of(author);
        assert(names.push(name)[i] == author);
    }
    assert(names.push(name)[names.len() as int] == name);
    if names.push(name).contains(author) && name != author {
        let i = names.push(name).index_of(author);
        assert(names[i] == author);
    }
}

/// One commit without a log is listed with who made it; one with a log is counted.
pub proof fn law_one_commit_is_told(commit: CommitAuthorshipView)
    ensures
        ({
            let said = authorship_of(seq![commit]);
            &&& said.total_commits == 1
            &&& said.commits_with_authorship == (if commit is Log {
                1nat
            } else {
                0nat
            })
            &&& commit is Log ==> said.commits_without_authorship.len() == 0
                && said.authors_commiting_authorship == seq![author_of(commit)]
                && said.authors_not_commiting_authorship.len() == 0
            &&& commit is NoLog ==> said.commits_without_authorship == seq![sha_of(commit)]
                && said.commits_without_authorship_with_authors == seq![
                (sha_of(commit), author_of(commit)),
            ] && said.authors_not_commiting_authorship == seq![author_of(commit)]
                && said.authors_commiting_authorship.len() == 0
        }),
{
    let one = seq![commit];
    let none = one.drop_last();
    assert(none =~= Seq::<CommitAuthorshipView>::empty());
    assert(one.last() == commit);
    assert(log_count(none) == 0);
    assert(authors_with(none) =~= Seq::<Seq<char>>::empty());
    assert(authors_without(none) =~= Seq::<Seq<char>>::empty());
    assert(commits_without(none) =~= Seq::<(Seq<char>, Seq<char>)>::empty());
    let said = authorship_of(one);
    if commit is NoLog {
        assert(said.commits_without_authorship =~= seq![sha_of(commit)]);
        assert(said.commits_without_authorship_with_authors =~= seq![
            (sha_of(commit), author_of(commit)),
        ]);
        assert(said.authors_not_commiting_authorship =~= seq![author_of(commit)]);
    } else {
        assert(said.authors_commiting_authorship =~= seq![author_of(commit)]);
    }
}

// ---------------------------------------------------------------------------------------------
// Asking for a range
// ---------------------------------------------------------------------------------------------
/// The remote and the branch that a name of a branch stands for.
pub proof fn law_fetch_source(remote: Seq<char>, branch: Seq<char>, default_remote: Seq<char>)
    requires
        !remote.contains('/'),
    ensures
        fetch_source("refs/remotes/"@ + remote.push('/') + branch, default_remote) == (
            remote,
            "refs/heads/"@ + branch,
        ),
        fetch_source("refs/heads/"@ + branch, default_remote) == (
            default_remote,
            "refs/heads/"@ + branch,
        ),
        remote != "refs"@ ==> fetch_source(remote.push('/') + branch, default_remote) == (
            remote,
            "refs/heads/"@ + branch,
        ),
        fetch_source(remote, default_remote) == (default_remote, "refs/heads/"@ + remote),
{
    reveal_strlit("refs/remotes/");
    reveal_strlit("refs/heads/");
    reveal_strlit("refs/");
    reveal_strlit("refs");
    let tracked_name = "refs/remotes/"@ + remote.push('/') + branch;
    let own = "refs/heads/"@ + branch;
    let short = remote.push('/') + branch;
    let p = "refs/remotes/"@;
    assert(tracked_name.subrange(0, p.len() as int) =~= p);
    assert(tracked_name.skip(p.len() as int) =~= short);
    law_cut(remote, '/', branch);
    assert(own.subrange(0, "refs/heads/"@.len() as int) =~= "refs/heads/"@);
    assert(own[5] == 'h' && p[5] == 'r');
    if has_prefix(own, p) {
        assert(own.subrange(0, p.len() as int)[5] == p[5]);
    }
    if remote != "refs"@ {
        if has_prefix(short, "refs/"@) {
            lemma_not_refs(remote, branch);
        }
        if has_prefix(short, p) {
            assert(short.subrange(0, 5) =~= short.subrange(0, p.len() as int).subrange(0, 5));
            assert(p.subrange(0, 5) =~= "refs/"@);
            lemma_not_refs(remote, branch);
        }
        if has_prefix(short, "refs/heads/"@) {
            assert(short.subrange(0, 5) =~= short.subrange(0, 11).subrange(0, 5));
            assert("refs/heads/"@.subrange(0, 5) =~= "refs/"@);
            lemma_not_refs(remote, branch);
        }
    }
    if has_prefix(remote, "refs/"@) {
        assert(remote.subrange(0, 5)[4] == '/');
        assert(remote[4] == '/');
    }
    if has_prefix(remote, p) {
        assert(remote.subrange(0, p.len() as int)[4] == '/');
        assert(remote[4] == '/');
    }
    if has_prefix(remote, "refs/heads/"@) {
        assert(remote.subrange(0, 11)[4] == '/');
        assert(remote[4] == '/');
    }
}

proof fn lemma_not_refs(remote: Seq<char>, branch: Seq<char>)
    requires
        !remote.contains('/'),
        (remote.push('/') + branch).len() >= 5,
        (remote.push('/') + branch).subrange(0, 5) == "refs/"@,
    ensures
        remote == "refs"@,
{
    reveal_strlit("refs");
    reveal_strlit("refs/");
    let short = remote.push('/') + branch;
    assert(forall|i: int| 0 <= i < 5 ==> short.subrange(0, 5)[i] == short[i]);
    assert(short.subrange(0, 5)[4] == '/');
    assert(short[remote.len() as int] == '/');
    if remote.len() > 4 {
        assert(short[4] == remote[4]);
    } else if remote.len() < 4 {
        let n = remote.len() as int;
        assert(short.subrange(0, 5)[n] == '/');
    }
    assert(remote =~= "refs"@) by {
        assert forall|i: int| 0 <= i < 4 implies remote[i] == "refs"@[i] by {
            assert(short[i] == remote[i]);
            assert(short.subrange(0, 5)[i] == "refs/"@[i]);
        }
    }
}

/// The remote that is taken where none is named is `origin` if there is one of that name, and
/// otherwise the first.
pub proof fn law_default_remote(remotes: Seq<Seq<char>>)
    ensures
        remotes.len() == 0 <==> default_remote(remotes) is None,
        default_remote(remotes) matches Some(remote) ==> remotes.contains(remote) && (remote
            == "origin"@ <==> remotes.contains("origin"@)) && (remote != "origin"@ ==> remote
            == remotes[0]),
{
    if remotes.len() > 0 {
        assert(remotes.contains(remotes[0]));
    }
}

/// Git ended well.
pub open spec fn ended_well(reply: Reply) -> bool {
    reply matches Reply::Exit { success, .. } && success
}

/// A range is good where both ends are commits, both can be reached from the branch, and the end can
/// be reached from the start: git is asked for each, in this order.
pub proof fn law_range_is_checked(range: CommitRangeView, s: Tape)
    requires
        0 <= s.next <= s.replies.len(),
        left(s) > 0 ==> wrote(answer(s, 0), "commit"@),
        left(s) > 1 ==> wrote(answer(s, 1), "commit"@),
        forall|k: int| 2 <= k < left(s) && k < 4 ==> ended_well(#[trigger] answer(s, k)),
    ensures
        ({
            let run = is_valid_run(range, s);
            let reaches = |one: Seq<char>, other: Seq<char>|
                git_command(
                    range.repo.args().push("merge-base"@).push("--is-ancestor"@).push(one).push(
                        other,
                    ),
                );
            &&& left(s) == 0 ==> waits_for(run, type_question(range.repo, range.start_oid))
            &&& left(s) == 1 ==> waits_for(run, type_question(range.repo, range.end_oid))
            &&& left(s) == 2 ==> waits_for(run, reaches(range.start_oid, range.refname))
            &&& left(s) == 3 ==> waits_for(run, reaches(range.end_oid, range.refname))
            &&& left(s) == 4 ==> waits_for(run, reaches(range.start_oid, range.end_oid))
            &&& left(s) > 4 && ended_well(answer(s, 4)) ==> run == (
                Ok::<(), StopView>(()),
                behind(s, 5),
            )
            &&& left(s) > 4 && answer(s, 4) is Exit && !ended_well(answer(s, 4)) ==> (run.0
                matches Err(StopView::Fail(_)))
        }),
{
    law_find_commit(range.repo, range.start_oid, s);
    if left(s) > 0 {
        lemma_behind(s, 1);
        assert(left(s) > 1 ==> answer(behind(s, 1), 0) == answer(s, 1));
        law_find_commit(range.repo, range.end_oid, behind(s, 1));
    }
    if left(s) > 2 {
        assert(ended_well(answer(s, 2)));
    }
    if left(s) > 3 {
        assert(ended_well(answer(s, 3)));
    }
}

/// The authorship of a range that is good: unless it need not be fetched first, the remote is asked
/// for its branch; the commits of the range are listed, and looked up; and its lines are counted from
/// its start to its end.
pub proof fn law_range_is_asked_for(
    range: CommitRangeView,
    list: Seq<char>,
    s: Tape,
)
    requires
        0 <= s.next <= s.replies.len(),
        left(s) > 0 ==> wrote(answer(s, 0), "commit"@),
        left(s) > 1 ==> wrote(answer(s, 1), "commit"@),
        forall|k: int| 2 <= k < left(s) && k < 5 ==> ended_well(#[trigger] answer(s, k)),
        left(s) > 5 ==> wrote_text(answer(s, 5), list),
        left(s) > 6 ==> (answer(s, 6) matches Reply::Commits(Ok(_))),
    ensures
        ({
            let run = range_authorship_run(range, false, s);
            let fetching = range_authorship_run(range, true, s);
            &&& left(s) == 5 ==> waits_for(
                run,
                git_command(
                    range.repo.args().push("rev-list"@).push(
                        range.start_oid + ".."@ + range.end_oid,
                    ),
                ),
            )
            &&& left(s) == 6 ==> waits_for(
                run,
                RequestView::CommitsWithNotes { commits: trimmed_lines(list) },
            )
            &&& left(s) == 7 ==> waits_for(
                run,
                git_command(
                    range.repo.args().push("diff"@).push(range.start_oid + ".."@ + range.end_oid),
                ),
            )
            &&& left(s) > 7 ==> (run.0 matches Ok(stats) ==> stats.authorship_stats
                == authorship_of(answer(s, 6)->Commits_0->Ok_0.deep_view()))
            &&& left(s) == 5 ==> waits_for(
                fetching,
                git_command(range.repo.args().push("remote"@)),
            )
        }),
{
    if left(s) > 4 {
        assert(ended_well(answer(s, 4)));
        assert forall|k: int| 2 <= k < left(s) && k < 4 implies ended_well(
            #[trigger] answer(s, k),
        ) by {}
        law_range_is_checked(range, s);
        lemma_behind(s, 5);
        assert(left(s) > 5 ==> answer(behind(s, 5), 0) == answer(s, 5));
        if left(s) > 5 {
            lemma_behind(s, 6);
            assert(left(s) > 6 ==> answer(behind(s, 6), 0) == answer(s, 6));
        }
    }
}

/// Fetching: the remotes are listed, and the branch is fetched from the remote that its name stands
/// for.
pub proof fn law_branch_is_fetched(
    repo: RepositoryView,
    refname: Seq<char>,
    remotes: Seq<char>,
    s: Tape,
)
    requires
        0 <= s.next <= s.replies.len(),
        left(s) > 0 ==> wrote(answer(s, 0), remotes),
    ensures
        ({
            let run = fetch_run(repo, refname, s);
            let source = fetch_source(
                refname,
                if remotes.len() == 0 || split_at_char(remotes, '\n').contains("origin"@) {
                    "origin"@
                } else {
                    split_at_char(remotes, '\n')[0]
                },
            );
            &&& left(s) == 0 ==> waits_for(run, git_command(repo.args().push("remote"@)))
            &&& left(s) == 1 ==> waits_for(
                run,
                git_command(repo.args().push("fetch"@).push(source.0).push(source.1)),
            )
            &&& left(s) > 1 && ended_well(answer(s, 1)) ==> run == (
                Ok::<(), StopView>(()),
                behind(s, 2),
            )
        }),
{
    law_git_line(s, repo.args().push("remote"@), remotes);
    if left(s) > 0 {
        lemma_behind(s, 1);
        crate::text::law_pieces_some(remotes, '\n');
        assert(left(s) > 1 ==> answer(behind(s, 1), 0) == answer(s, 1));
    }
}

// ---------------------------------------------------------------------------------------------
// On the terminal
// ---------------------------------------------------------------------------------------------
/// The first bytes of a text of plain letters are its first characters.
pub proof fn law_first_bytes(s: Seq<char>, n: nat)
    requires
        n <= s.len(),
        forall|i: int| 0 <= i < s.len() ==> ((#[trigger] s[i]) as u32) < 0x80,
    ensures
        first_bytes(s, n) == Some(s.take(n as int)),
    decreases s.len(),
{
    if n == 0 {
        assert(s.take(0) =~= Seq::empty());
    } else {
        let rest = s.drop_first();
        assert((s[0] as u32) < 0x80);
        assert forall|i: int| 0 <= i < rest.len() implies ((#[trigger] rest[i]) as u32) < 0x80 by {
            assert((s[i + 1] as u32) < 0x80);
        }
        law_first_bytes(rest, (n - 1) as nat);
        assert(seq![s[0]] + rest.take(n - 1) =~= s.take(n as int));
    }
}

/// The first bytes of a text are a part that it starts with, of as many bytes.
pub proof fn law_first_bytes_are_as_many(s: Seq<char>, n: nat)
    ensures
        first_bytes(s, n) matches Some(part) ==> encode_utf8(part).len() == n && part.len()
            <= s.len() && s.take(part.len() as int) == part,
    decreases s.len(),
{
    if n == 0 {
        assert(s.take(0) =~= Seq::empty());
    } else if s.len() > 0 && utf8_width(s[0]) <= n {
        let rest = s.drop_first();
        law_first_bytes_are_as_many(rest, (n - utf8_width(s[0])) as nat);
        if let Some(tail) = first_bytes(rest, (n - utf8_width(s[0])) as nat) {
            let part = seq![s[0]] + tail;
            assert(part.drop_first() =~= tail);
            lemma_width(s[0]);
            assert(s.take(part.len() as int) =~= part) by {
                assert forall|i: int| 0 <= i < part.len() implies s[i] == part[i] by {
                    if i > 0 {
                        assert(rest.take(tail.len() as int)[i - 1] == tail[i - 1]);
                    }
                }
            }
        }
    }
}

proof fn lemma_width(c: char)
    ensures
        encode_scalar(c as u32).len() == utf8_width(c),
{
}

proof fn lemma_commits_printed(commits: Seq<(Seq<char>, Seq<char>)>, i: int, s: Tape)
    requires
        0 <= i <= commits.len(),
        0 <= s.next <= s.replies.len(),
        forall|k: int| 0 <= k < left(s) ==> #[trigger] answer(s, k) == Reply::Done(Ok(())),
        forall|k: int| 0 <= k < commits.len() ==> is_hash((#[trigger] commits[k]).0),
    ensures
        left(s) < commits.len() - i ==> waits_for(
            print_commits_run(commits, i, s),
            RequestView::Stdout {
                line: "    "@ + commits[i + left(s)].0.take(7) + " "@ + commits[i + left(s)].1,
            },
        ),
        left(s) >= commits.len() - i ==> print_commits_run(commits, i, s) == (
            Ok::<(), StopView>(()),
            behind(s, commits.len() - i),
        ),
    decreases commits.len() - i,
{
    if i < commits.len() {
        assert(is_hash(commits[i].0));
        law_first_bytes(commits[i].0, 7);
        if left(s) > 0 {
            let s1 = behind(s, 1);
            lemma_behind(s, 1);
            assert(answer(s, 0) == Reply::Done(Ok(())));
            assert forall|k: int| 0 <= k < left(s1) implies #[trigger] answer(s1, k)
                == Reply::Done(Ok(())) by {
                assert(answer(s, k + 1) == Reply::Done(Ok(())));
            }
            lemma_commits_printed(commits, i + 1, s1);
        }
    }
}

/// Seven or more plain letters.
pub open spec fn is_hash(s: Seq<char>) -> bool {
    s.len() >= 7 && forall|i: int| 0 <= i < s.len() ==> ((#[trigger] s[i]) as u32) < 0x80
}

/// The commits without a log are printed one by one, with the first seven letters of their names and
/// who made them.
pub proof fn law_commits_are_printed(commits: Seq<(Seq<char>, Seq<char>)>, s: Tape)
    requires
        0 <= s.next <= s.replies.len(),
        forall|k: int| 0 <= k < left(s) ==> #[trigger] answer(s, k) == Reply::Done(Ok(())),
        forall|k: int| 0 <= k < commits.len() ==> is_hash((#[trigger] commits[k]).0),
    ensures
        left(s) < commits.len() ==> waits_for(
            print_commits_run(commits, 0, s),
            RequestView::Stdout {
                line: "    "@ + commits[left(s)].0.take(7) + " "@ + commits[left(s)].1,
            },
        ),
        left(s) >= commits.len() ==> print_commits_run(commits, 0, s) == (
            Ok::<(), StopView>(()),
            behind(s, commits.len() as int),
        ),
{
    lemma_commits_printed(commits, 0, s);
}

/// Where no commit has a log, only that is said; where every commit has one, nothing is said of
/// commits without.
pub proof fn law_range_is_printed(stats: RangeAuthorshipStatsView, s: Tape)
    requires
        0 <= s.next <= s.replies.len(),
        left(s) > 0 ==> answer(s, 0) == Reply::Done(Ok(())),
    ensures
        left(s) == 0 ==> waits_for(print_range_run(stats, s), RequestView::Stdout { line: "\n"@ }),
        left(s) == 1 && stats.authorship_stats.commits_with_authorship == 0 ==> waits_for(
            print_range_run(stats, s),
            RequestView::Stdout { line: "Committers are not using git-ai"@ },
        ),
        left(s) > 1 && answer(s, 1) == Reply::Done(Ok(()))
            && stats.authorship_stats.commits_with_authorship == 0 ==> print_range_run(stats, s)
            == (Ok::<(), StopView>(()), behind(s, 2)),
{
}

// ---------------------------------------------------------------------------------------------
// File by file
// ---------------------------------------------------------------------------------------------
/// Files are counted one after the other: of the lines that were added to each, those in an AI's runs
/// are the AI's, and the others a human's.
#[verifier::rlimit(30)]
pub proof fn law_files_are_counted_in_order(
    newest: Seq<char>,
    commits: Seq<CommitAuthorshipView>,
    files: Seq<(Seq<char>, Seq<u32>)>,
    i: int,
    done: RangeCounts,
    s: Tape,
)
    requires
        0 <= i < files.len(),
    ensures
        ({
            let whole = count_files_run(newest, commits, files, i, done, s);
            match file_blame_run(files[i].0, newest, commits, s) {
                (Ok(spans), s1) => exists|more: RangeCounts|
                    {
                        &&& more.ai == done.ai + ai_count(spans, files[i].1)
                        &&& more.human + more.ai == done.human + done.ai + files[i].1.len()
                        &&& whole == #[trigger] count_files_run(
                            newest,
                            commits,
                            files,
                            i + 1,
                            more,
                            s1,
                        )
                    },
                (Err(stop), s1) => whole == (Err::<RangeCounts, StopView>(stop), s1),
            }
        }),
        count_files_run(newest, commits, files, files.len() as int, done, s) == (
            Ok::<RangeCounts, StopView>(done),
            s,
        ),
{
    if let (Ok(spans), s1) = file_blame_run(files[i].0, newest, commits, s) {
        lemma_ai_count(spans, files[i].1);
        let ai = ai_count(spans, files[i].1);
        let more = RangeCounts {
            human: done.human + (files[i].1.len() - ai) as nat,
            ai: done.ai + ai,
        };
        assert(count_files_run(newest, commits, files, i, done, s) == count_files_run(
            newest,
            commits,
            files,
            i + 1,
            more,
            s1,
        ));
    }
}

proof fn lemma_ai_count(spans: Seq<BlamedSpanView>, numbers: Seq<u32>)
    ensures
        ai_count(spans, numbers) <= numbers.len(),
    decreases numbers.len(),
{
    if numbers.len() > 0 {
        lemma_ai_count(spans, numbers.drop_last());
    }
}

/// What the statistics of a range say of humans and of AIs is what was counted in its files.
pub proof fn law_range_says_what_was_counted(
    diff: Seq<char>,
    end: Seq<char>,
    commits: Seq<CommitAuthorshipView>,
    s: Tape,
)
    requires
        all_filed(lines_of(diff)),
    ensures
        diff_range_stats_run(diff, end, commits, s).0 matches Ok(stats) ==> (count_files_run(
            end,
            commits,
            diff_additions(diff),
            0,
            RangeCounts { human: 0, ai: 0 },
            s,
        ).0 matches Ok(counts) && stats.human_additions == counts.human && stats.ai_additions
            == counts.ai),
{
    if diff_range_stats_run(diff, end, commits, s).0 is Ok {
        law_range_counts_add_up(end, commits, diff_additions(diff), s);
        law_additions_are_plus_lines(diff);
    }
}

/// Of the commits without a log it is said how many they are, and then which.
pub proof fn law_missing_logs_are_told(stats: AuthorshipStatsView, s: Tape)
    requires
        0 <= s.next <= s.replies.len(),
        stats.commits_with_authorship < stats.total_commits,
        left(s) > 0 ==> answer(s, 0) == Reply::Done(Ok(())),
    ensures
        ({
            let missing = (stats.total_commits - stats.commits_with_authorship) as nat;
            let run = print_missing_run(stats, s);
            &&& left(s) == 0 && missing == 1 ==> waits_for(
                run,
                RequestView::Stdout {
                    line: "  "@ + decimal(1) + " "@ + "commit"@ + " without Authorship Logs"@,
                },
            )
            &&& left(s) == 0 && missing > 1 ==> waits_for(
                run,
                RequestView::Stdout {
                    line: "  "@ + decimal(missing) + " "@ + "commits"@ + " without Authorship Logs"@,
                },
            )
            &&& left(s) > 0 ==> run == print_commits_run(
                stats.commits_without_authorship_with_authors,
                0,
                behind(s, 1),
            )
        }),
{
}

/// A name under `refs/` that is neither a branch here nor a branch of a remote is looked for as a
/// branch of the default remote; so is what stands for no branch of a remote.
pub proof fn law_fetch_source_of_other_names(name: Seq<char>, default_remote: Seq<char>)
    ensures
        !name.contains('/') ==> fetch_source("refs/remotes/"@ + name, default_remote) == (
            default_remote,
            "refs/remotes/"@ + name,
        ),
        !has_prefix("refs/"@ + name, "refs/heads/"@) && !has_prefix(
            "refs/"@ + name,
            "refs/remotes/"@,
        ) ==> fetch_source("refs/"@ + name, default_remote) == (
            default_remote,
            "refs/heads/"@ + ("refs/"@ + name),
        ),
{
    reveal_strlit("refs/remotes/");
    reveal_strlit("refs/");
    let p = "refs/remotes/"@;
    let remote = p + name;
    assert(remote.subrange(0, p.len() as int) =~= p);
    assert(remote.skip(p.len() as int) =~= name);
    if !name.contains('/') {
        law_cut(name, '/', Seq::empty());
    }
    let other = "refs/"@ + name;
    assert(other.subrange(0, 5) =~= "refs/"@);
}

/// Runs of lines are looked up one after the other, each as if it were the only one.
#[verifier::rlimit(30)]
pub proof fn law_runs_are_looked_up_in_order(
    file: Seq<char>,
    commits: Seq<CommitAuthorshipView>,
    hunks: Seq<BlameHunk>,
    i: int,
    done: Seq<BlamedSpanView>,
    s: Tape,
)
    requires
        0 <= i < hunks.len(),
    ensures
        ({
            let whole = spans_run(file, commits, hunks, i, done, s);
            let one = spans_run(file, commits, seq![hunks[i]], 0, Seq::empty(), s);
            match one.0 {
                Ok(spans) => whole == spans_run(
                    file,
                    commits,
                    hunks,
                    i + 1,
                    done + spans,
                    one.1,
                ),
                Err(stop) => whole == (Err::<Seq<BlamedSpanView>, StopView>(stop), one.1),
            }
        }),
{
    let hunk = hunks[i];
    let only = seq![hunk];
    assert(only[0] == hunk);
    let found: Run<bool> = if has_log(commits, hunk.commit_sha@) {
        any_ai_run(
            hunk.commit_sha@,
            file,
            hunk.orig_range.0 as int,
            hunk.orig_range.1 as int,
            s,
        )
    } else {
        (Ok(false), s)
    };
    if let (Ok(is_ai), s1) = found {
        let span = BlamedSpanView {
            first: hunk.range.0,
            last: hunk.range.1,
            commit_sha: hunk.commit_sha@,
            is_ai,
        };
        let first = Seq::<BlamedSpanView>::empty().push(span);
        assert(spans_run(file, commits, only, 1, first, s1) == (
            Ok::<Seq<BlamedSpanView>, StopView>(first),
            s1,
        ));
        assert(done.push(span) =~= done + first);
    }
}

/// Behind the statistics of a range, the commits without a log are told of, if there are any.
pub proof fn law_missing_logs_are_told_last(stats: RangeAuthorshipStatsView, s: Tape)
    requires
        0 <= s.next <= s.replies.len(),
        left(s) > 0 && answer(s, 0) == Reply::Done(Ok(())),
        stats.authorship_stats.commits_with_authorship > 0,
    ensures
        match terminal_run(stats.range_stats, true, behind(s, 1)) {
            (Ok(_), s1) => {
                &&& stats.authorship_stats.commits_with_authorship
                    == stats.authorship_stats.total_commits ==> print_range_run(stats, s) == (
                    Ok::<(), StopView>(()),
                    s1,
                )
                &&& stats.authorship_stats.commits_with_authorship
                    != stats.authorship_stats.total_commits ==> print_range_run(stats, s)
                    == print_missing_run(stats.authorship_stats, s1)
            },
            (Err(stop), s1) => print_range_run(stats, s) == (Err::<(), StopView>(stop), s1),
        },
{
}

} // verus!
