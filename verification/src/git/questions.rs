//! What git is asked about a repository, and what is made of its answers.
use crate::answers::{
    answer, behind, git_command, is_one_line, law_author_and_committer_of, law_find_commit,
    law_git_line, law_setting_is_read, left, lemma_behind, waits_for, wrote, wrote_signature,
};
use crate::assoc::has_key;
use crate::authorship::carrying::{name_question, type_question};
use crate::authorship::hanging::{committer_question, is_someone};
use crate::authorship::ranging::ended_well;
use crate::authorship::rebase_authorship::event_run;
use crate::authorship::squashing::wrote_text;
use crate::clock::instant_of;
use crate::git::diff::{added_lines, diff_fits};
use crate::git::repository::{
    byte_place, commit_files_run, commit_range_on_branch_run, commit_range_run, commit_run,
    diff_added_run, diff_workdir_run, distinct, entry_among, file_content_run, filled_lines,
    find_reference_run, full_name_run, get_path_run, git_date, head_run, inferred_refname_run,
    inferring_range_run, parent_args, parents_run, path_args, pre_command_head_run, preferred,
    qualified, range_commits_run, reference_run, references_run, remote_urls, resolve_author_run,
    rewrite_event_run, signature_date, target_ref_run, time_read, time_run, trimmed_lines,
    unless_empty, update_ref_run, upstream_remote_run, without_name, workdir_run, CommitRangeView,
    ReferenceView, RepositoryView, SignatureView, TimeView, TreeEntryView,
};
use crate::git::rewrite_log::RewriteLogEventView;
use crate::session::{Reply, RequestView, StopView, Tape};
use crate::text::{
    has_prefix, law_lines_are_read_back, law_trimmed_line, lines_of, non_empty, signed_decimal,
    trimmed, two_digits, utf8_lossy, utf8_text, words_of,
};
use vstd::prelude::*;
use vstd::utf8::encode_utf8;

verus! {

broadcast use vstd::seq::group_seq_axioms;

// ---------------------------------------------------------------------------------------------
// Lists
// ---------------------------------------------------------------------------------------------
proof fn lemma_non_empty_join(a: Seq<Seq<char>>, b: Seq<Seq<char>>)
    ensures
        non_empty(a + b) == non_empty(a) + non_empty(b),
    decreases b.len(),
{
    if b.len() == 0 {
        assert(a + b =~= a);
        assert(non_empty(a) + non_empty(b) =~= non_empty(a));
    } else {
        assert((a + b).drop_last() =~= a + b.drop_last());
        lemma_non_empty_join(a, b.drop_last());
        assert(non_empty(a + b) =~= non_empty(a) + non_empty(b));
    }
}

proof fn lemma_one_kept(line: Seq<char>)
    ensures
        non_empty(seq![line]) == (if line.len() > 0 {
            seq![line]
        } else {
            Seq::empty()
        }),
{
    assert(seq![line].drop_last() =~= Seq::<Seq<char>>::empty());
    assert(non_empty(seq![line].drop_last()) =~= Seq::<Seq<char>>::empty());
    assert(seq![line].last() == line);
    if line.len() > 0 {
        assert(non_empty(seq![line]) =~= seq![line]);
    }
}

/// A list that is written line by line is read line by line; lines without anything are passed over.
pub proof fn law_list_is_read(line: Seq<char>, rest: Seq<char>)
    requires
        is_one_line(line),
    ensures
        line.len() > 0 ==> trimmed_lines(line.push('\n') + rest) == seq![line] + trimmed_lines(rest),
        line.len() == 0 ==> trimmed_lines(line.push('\n') + rest) == trimmed_lines(rest),
        line.len() > 0 ==> filled_lines(line.push('\n') + rest) == seq![line] + filled_lines(rest),
        line.len() == 0 ==> filled_lines(line.push('\n') + rest) == filled_lines(rest),
        trimmed_lines(Seq::empty()).len() == 0,
        filled_lines(Seq::empty()).len() == 0,
{
    law_lines_are_read_back(line, rest);
    let trim = |l: Seq<char>| trimmed(l);
    let all = seq![line] + lines_of(rest);
    assert(lines_of(line.push('\n') + rest) == all);
    assert(all.map_values(trim) =~= seq![line] + lines_of(rest).map_values(trim));
    lemma_non_empty_join(seq![line], lines_of(rest).map_values(trim));
    lemma_non_empty_join(seq![line], lines_of(rest));
    lemma_one_kept(line);
    assert(Seq::<Seq<char>>::empty() + trimmed_lines(rest) =~= trimmed_lines(rest));
    assert(Seq::<Seq<char>>::empty() + filled_lines(rest) =~= filled_lines(rest));
    assert(Seq::<Seq<char>>::empty().map_values(trim) =~= Seq::<Seq<char>>::empty());
}

/// A name is left out of a list, wherever it stands, and the other names stay in their order.
pub proof fn law_name_is_left_out(one: Seq<Seq<char>>, other: Seq<Seq<char>>, name: Seq<char>)
    ensures
        without_name(one + other, name) == without_name(one, name) + without_name(other, name),
        without_name(seq![name], name).len() == 0,
        forall|n: Seq<char>| n != name ==> #[trigger] without_name(seq![n], name) == seq![n],
{
    lemma_without_join(one, other, name);
    assert forall|n: Seq<char>| #[trigger]
        without_name(seq![n], name) == (if n == name {
            Seq::<Seq<char>>::empty()
        } else {
            seq![n]
        }) by {
        assert(seq![n].drop_last() =~= Seq::<Seq<char>>::empty());
        assert(without_name(seq![n].drop_last(), name) =~= Seq::<Seq<char>>::empty());
        assert(seq![n].last() == n);
        if n != name {
            assert(without_name(seq![n], name) =~= seq![n]);
        }
    }
}

proof fn lemma_without_join(one: Seq<Seq<char>>, other: Seq<Seq<char>>, name: Seq<char>)
    ensures
        without_name(one + other, name) == without_name(one, name) + without_name(other, name),
    decreases other.len(),
{
    if other.len() == 0 {
        assert(one + other =~= one);
        assert(without_name(one, name) + without_name(other, name) =~= without_name(one, name));
    } else {
        assert((one + other).drop_last() =~= one + other.drop_last());
        lemma_without_join(one, other.drop_last(), name);
        assert(without_name(one + other, name) =~= without_name(one, name) + without_name(
            other,
            name,
        ));
    }
}

/// Of the lines that list the remotes with their addresses, each remote's first counts.
pub proof fn law_remote_urls(all: Seq<Seq<char>>, line: Seq<char>)
    ensures
        words_of(line).len() >= 2 && !has_key(remote_urls(all), words_of(line)[0]) ==> remote_urls(
            all.push(line),
        ) == remote_urls(all).push((words_of(line)[0], words_of(line)[1])),
        words_of(line).len() < 2 || has_key(remote_urls(all), words_of(line)[0]) ==> remote_urls(
            all.push(line),
        ) == remote_urls(all),
        remote_urls(Seq::empty()).len() == 0,
{
    assert(all.push(line).drop_last() =~= all);
}

/// Every parent of a commit is named behind a `-p`, in their order; and paths stand behind two
/// dashes, so that none is taken for anything else.
pub proof fn law_arguments(
    parents: Seq<Seq<char>>,
    parent: Seq<char>,
    paths: Seq<Seq<char>>,
)
    ensures
        parent_args(parents.push(parent)) == parent_args(parents).push("-p"@).push(parent),
        parent_args(Seq::empty()).len() == 0,
        path_args(Some(paths)).len() == paths.len() + 1,
        path_args(Some(paths))[0] == "--"@,
        path_args(Some(paths)).skip(1) == paths,
        path_args(None).len() == 0,
{
    assert(parents.push(parent).drop_last() =~= parents);
    assert(path_args(Some(paths)).skip(1) =~= paths);
}

/// A branch's full name is its name under `refs/heads/`, unless it is full already.
pub proof fn law_qualified(branch: Seq<char>)
    ensures
        has_prefix(branch, "refs/"@) ==> qualified(branch) == branch,
        !has_prefix(branch, "refs/"@) ==> qualified(branch) == "refs/heads/"@ + branch,
        has_prefix(qualified(branch), "refs/"@),
        qualified(qualified(branch)) == qualified(branch),
{
    reveal_strlit("refs/");
    reveal_strlit("refs/heads/");
    let full = "refs/heads/"@ + branch;
    assert(full.subrange(0, 5) =~= "refs/"@);
}

// ---------------------------------------------------------------------------------------------
// Trees
// ---------------------------------------------------------------------------------------------
proof fn lemma_byte_place(bytes: Seq<u8>, b: u8, k: int)
    requires
        0 <= k <= bytes.len(),
        forall|j: int| 0 <= j < k ==> #[trigger] bytes[j] != b,
        k < bytes.len() ==> bytes[k] == b,
    ensures
        byte_place(bytes, b) == k,
    decreases k,
{
    if k > 0 {
        assert(bytes[0] != b);
        lemma_byte_place(bytes.drop_first(), b, k - 1);
    }
}

/// An entry of a tree is read: its mode, its type and its name stand before a tab, and its path
/// behind it, up to a zero byte; among several for a path the last counts, and those for other paths
/// do not.
pub proof fn law_tree_entry_is_read(
    meta: Seq<u8>,
    path: Seq<u8>,
    rest: Seq<u8>,
    wanted: Seq<char>,
    found: Option<TreeEntryView>,
)
    requires
        !meta.contains(9u8),
        !meta.contains(0u8),
        !path.contains(0u8),
        words_of(utf8_lossy(meta)).len() >= 3,
    ensures
        ({
            let words = words_of(utf8_lossy(meta));
            let record = meta.push(9u8) + path;
            let entry = TreeEntryView {
                mode: words[0],
                object_type: words[1],
                oid: words[2],
                path: utf8_lossy(path),
            };
            &&& entry_among(record.push(0u8) + rest, wanted, found) == entry_among(
                rest,
                wanted,
                if utf8_lossy(path) == wanted {
                    Some(entry)
                } else {
                    found
                },
            )
            &&& entry_among(Seq::empty(), wanted, found) == found
        }),
{
    let record = meta.push(9u8) + path;
    let n = meta.len() as int;
    assert forall|j: int| 0 <= j < n implies #[trigger] record[j] != 9u8 by {
        assert(record[j] == meta[j]);
        assert(meta.contains(meta[j]));
    }
    assert(record[n] == 9u8);
    lemma_byte_place(record, 9u8, n);
    assert(record.take(n) =~= meta);
    assert(record.skip(n + 1) =~= path);
    let all = record.push(0u8) + rest;
    let end = record.len() as int;
    assert forall|j: int| 0 <= j < end implies #[trigger] all[j] != 0u8 by {
        assert(all[j] == record[j]);
        if j < n {
            assert(record[j] == meta[j]);
            assert(meta.contains(meta[j]));
        } else if j > n {
            assert(record[j] == path[j - n - 1]);
            assert(path.contains(path[j - n - 1]));
        }
    }
    assert(all[end] == 0u8);
    lemma_byte_place(all, 0u8, end);
    assert(all.take(end) =~= record);
    assert(all.skip(end + 1) =~= rest);
    assert(entry_among(Seq::empty(), wanted, found) == found) by {
        let none = Seq::<u8>::empty();
        lemma_byte_place(none, 0u8, 0);
    }
}

/// A path is looked up in a tree: git lists it there, without taking it for anything but a path.
pub proof fn law_path_is_looked_up(
    repo: RepositoryView,
    tree: Seq<char>,
    path: Seq<char>,
    s: Tape,
)
    requires
        0 <= s.next <= s.replies.len(),
    ensures
        ({
            let run = get_path_run(repo, tree, path, s);
            &&& left(s) == 0 ==> waits_for(
                run,
                git_command(
                    repo.args().push("ls-tree"@).push("-z"@).push(tree).push("--"@).push(path),
                ),
            )
            &&& left(s) > 0 && ended_well(answer(s, 0)) ==> match entry_among(
                answer(s, 0)->stdout@,
                path,
                None,
            ) {
                Some(entry) => run == (Ok::<TreeEntryView, StopView>(entry), behind(s, 1)),
                None => run.0 matches Err(StopView::Fail(_)),
            }
        }),
{
}

// ---------------------------------------------------------------------------------------------
// Names
// ---------------------------------------------------------------------------------------------
/// What `HEAD` stands for: the branch that git says, or `HEAD` itself where it stands for none.
pub proof fn law_head(repo: RepositoryView, refname: Seq<char>, s: Tape)
    requires
        0 <= s.next <= s.replies.len(),
    ensures
        ({
            let run = head_run(repo, s);
            &&& left(s) == 0 ==> waits_for(
                run,
                git_command(repo.args().push("symbolic-ref"@).push("HEAD"@)),
            )
            &&& left(s) > 0 && wrote(answer(s, 0), refname) ==> run == (
                Ok::<ReferenceView, StopView>(ReferenceView { repo, ref_name: refname }),
                behind(s, 1),
            )
            &&& left(s) > 0 && answer(s, 0) is Exit && !ended_well(answer(s, 0)) ==> run == (
                Ok::<ReferenceView, StopView>(ReferenceView { repo, ref_name: "HEAD"@ }),
                behind(s, 1),
            )
        }),
{
    if left(s) > 0 && wrote(answer(s, 0), refname) {
        law_trimmed_line(refname);
    }
}

/// What `HEAD` stood for before a command, and the commit that it pointed to, are asked for once.
pub proof fn law_head_before_a_command(
    repo: RepositoryView,
    refname: Seq<char>,
    oid: Seq<char>,
    s: Tape,
)
    requires
        0 <= s.next <= s.replies.len(),
        left(s) > 0 ==> wrote(answer(s, 0), refname),
        left(s) > 1 ==> wrote(answer(s, 1), oid),
    ensures
        ({
            let run = pre_command_head_run(repo, s);
            let unknown = repo.pre_command_base_commit is None && repo.pre_command_refname is None;
            &&& unknown && left(s) == 0 ==> waits_for(
                run,
                git_command(repo.args().push("symbolic-ref"@).push("HEAD"@)),
            )
            &&& unknown && left(s) == 1 ==> waits_for(
                run,
                git_command(repo.args().push("rev-parse"@).push(refname)),
            )
            &&& unknown && left(s) > 1 ==> run == (
                Ok::<RepositoryView, StopView>(
                    RepositoryView {
                        pre_command_base_commit: Some(oid),
                        pre_command_refname: Some(refname),
                        ..repo
                    },
                ),
                behind(s, 2),
            )
            &&& !unknown ==> run == (Ok::<RepositoryView, StopView>(repo), s)
        }),
{
    law_head(repo, refname, s);
    if left(s) > 0 {
        lemma_behind(s, 1);
        assert(left(s) > 1 ==> answer(behind(s, 1), 0) == answer(s, 1));
        law_git_line(behind(s, 1), repo.args().push("rev-parse"@).push(refname), oid);
    }
}

/// A range from one name to another: both are looked up, the start first, and where no branch is
/// named, it is the only one that points to the end, if there is only one.
pub proof fn law_range_is_looked_up(
    repo: RepositoryView,
    start: Seq<char>,
    end: Seq<char>,
    refname: Seq<char>,
    start_oid: Seq<char>,
    end_oid: Seq<char>,
    s: Tape,
)
    requires
        0 <= s.next <= s.replies.len(),
        left(s) > 0 ==> wrote(answer(s, 0), start_oid),
        left(s) > 1 ==> wrote(answer(s, 1), end_oid),
        left(s) > 2 ==> wrote_text(answer(s, 2), refname.push('\n')) && is_one_line(refname)
            && refname.len() > 0,
    ensures
        ({
            let given = inferring_range_run(repo, start, end, Some(refname), s);
            let inferred = inferring_range_run(repo, start, end, None, s);
            let plain = commit_range_run(repo, start, end, refname, s);
            let range = CommitRangeView { repo, start_oid, end_oid, refname };
            &&& left(s) == 0 ==> waits_for(given, name_question(repo, start)) && waits_for(
                inferred,
                name_question(repo, start),
            ) && waits_for(plain, name_question(repo, start))
            &&& left(s) == 1 ==> waits_for(given, name_question(repo, end)) && waits_for(
                inferred,
                name_question(repo, end),
            ) && waits_for(plain, name_question(repo, end))
            &&& left(s) > 1 ==> given == (Ok::<CommitRangeView, StopView>(range), behind(s, 2))
                && plain == (Ok::<CommitRangeView, StopView>(range), behind(s, 2))
            &&& left(s) == 2 ==> waits_for(
                inferred,
                git_command(
                    repo.args().push("for-each-ref"@).push("--points-at"@).push(end_oid).push(
                        "--format=%(refname)"@,
                    ),
                ),
            )
            &&& left(s) > 2 ==> inferred == (
                Ok::<CommitRangeView, StopView>(range),
                behind(s, 3),
            )
        }),
{
    law_git_line(s, repo.args().push("rev-parse"@).push("--verify"@).push(start), start_oid);
    if left(s) > 0 {
        lemma_behind(s, 1);
        assert(left(s) > 1 ==> answer(behind(s, 1), 0) == answer(s, 1));
        law_git_line(
            behind(s, 1),
            repo.args().push("rev-parse"@).push("--verify"@).push(end),
            end_oid,
        );
    }
    if left(s) > 2 {
        lemma_behind(s, 2);
        assert(answer(behind(s, 2), 0) == answer(s, 2));
        law_list_is_read(refname, Seq::empty());
        assert(refname.push('\n') + Seq::<char>::empty() =~= refname.push('\n'));
        assert(trimmed_lines(refname.push('\n')) =~= seq![refname]);
    }
}

/// The commits of a branch that are on no other: the branch's full name is asked for, and the names
/// of all branches; the log of the branch without the others, oldest first, is the range, from the
/// first commit listed to the last.
pub proof fn law_range_on_a_branch(
    repo: RepositoryView,
    branch: Seq<char>,
    name: Seq<char>,
    names: Seq<char>,
    list: Seq<char>,
    s: Tape,
)
    requires
        0 <= s.next <= s.replies.len(),
        name.len() > 0,
        left(s) > 0 ==> wrote(answer(s, 0), name),
        left(s) > 1 ==> wrote_text(answer(s, 1), names),
        left(s) > 2 ==> wrote_text(answer(s, 2), list) && filled_lines(list).len() > 0,
    ensures
        ({
            let run = commit_range_on_branch_run(repo, branch, s);
            let others = without_name(trimmed_lines(names), name);
            let log = repo.args().push("log"@).push("--format=%H"@).push("--reverse"@).push(
                "--ancestry-path"@,
            ).push(branch);
            &&& left(s) == 0 ==> waits_for(
                run,
                git_command(
                    repo.args().push("rev-parse"@).push("--verify"@).push(
                        "--symbolic-full-name"@,
                    ).push(branch),
                ),
            )
            &&& left(s) == 1 ==> waits_for(
                run,
                git_command(
                    repo.args().push("for-each-ref"@).push("--format=%(refname)"@).push(
                        "refs/heads"@,
                    ),
                ),
            )
            &&& left(s) == 2 && others.len() > 0 ==> waits_for(
                run,
                git_command(log.push("--not"@) + others),
            )
            &&& left(s) == 2 && others.len() == 0 ==> waits_for(run, git_command(log))
            &&& left(s) == 3 ==> waits_for(run, name_question(repo, filled_lines(list)[0]))
            &&& left(s) == 4 && (answer(s, 3) matches Reply::Exit { success, stdout, .. } && success
                && utf8_text(stdout@) is Some) ==> waits_for(
                run,
                name_question(repo, filled_lines(list).last()),
            )
        }),
{
    if left(s) > 0 {
        law_trimmed_line(name);
        assert(full_name_run(repo, branch, s) == (
            Ok::<Seq<char>, StopView>(name),
            behind(s, 1),
        ));
        lemma_behind(s, 1);
        assert(left(s) > 1 ==> answer(behind(s, 1), 0) == answer(s, 1));
    }
    if left(s) > 1 {
        lemma_behind(s, 2);
        assert(left(s) > 2 ==> answer(behind(s, 2), 0) == answer(s, 2));
    }
    if left(s) > 2 {
        lemma_behind(s, 3);
        assert(left(s) > 3 ==> answer(behind(s, 3), 0) == answer(s, 3));
    }
}

/// The remote that the current branch follows is the one that is configured for it.
pub proof fn law_upstream_remote(
    repo: RepositoryView,
    branch: Seq<char>,
    remote: Seq<char>,
    s: Tape,
)
    requires
        0 <= s.next <= s.replies.len(),
        left(s) > 0 ==> wrote(answer(s, 0), branch),
    ensures
        ({
            let run = upstream_remote_run(repo, s);
            &&& left(s) == 0 ==> waits_for(
                run,
                git_command(repo.args().push("branch"@).push("--show-current"@)),
            )
            &&& left(s) > 0 && branch.len() == 0 ==> run == (
                Ok::<Option<Seq<char>>, StopView>(None),
                behind(s, 1),
            )
            &&& left(s) == 1 && branch.len() > 0 ==> waits_for(
                run,
                git_command(
                    repo.args().push("config"@).push("--get"@).push(
                        "branch."@ + branch + ".remote"@,
                    ),
                ),
            )
            &&& left(s) > 1 && branch.len() > 0 && wrote(answer(s, 1), remote) ==> run == (
                Ok::<Option<Seq<char>>, StopView>(Some(remote)),
                behind(s, 2),
            )
        }),
{
    law_git_line(s, repo.args().push("branch"@).push("--show-current"@), branch);
    if left(s) > 0 {
        lemma_behind(s, 1);
        assert(left(s) > 1 ==> answer(behind(s, 1), 0) == answer(s, 1));
        law_setting_is_read(repo, "branch."@ + branch + ".remote"@, remote, behind(s, 1));
    }
}

/// Who is meant by an author: the name and email of whoever made the newest commit that git finds
/// for it; nobody where it finds none.
pub proof fn law_author_is_resolved(
    repo: RepositoryView,
    author: Seq<char>,
    oid: Seq<char>,
    who: Seq<char>,
    s: Tape,
)
    requires
        0 <= s.next <= s.replies.len(),
        left(s) > 0 ==> wrote(answer(s, 0), oid),
        left(s) > 1 ==> wrote(answer(s, 1), who),
    ensures
        ({
            let run = resolve_author_run(repo, author, s);
            &&& left(s) == 0 ==> waits_for(
                run,
                git_command(
                    repo.args().push("rev-list"@).push("--all"@).push("-i"@).push(
                        "--max-count=1"@,
                    ).push("--author="@ + author),
                ),
            )
            &&& left(s) > 0 && oid.len() == 0 ==> run == (
                Ok::<Option<Seq<char>>, StopView>(None),
                behind(s, 1),
            )
            &&& left(s) == 1 && oid.len() > 0 ==> waits_for(
                run,
                git_command(
                    repo.args().push("show"@).push("-s"@).push("--format=%an <%ae>"@).push(oid),
                ),
            )
            &&& left(s) > 1 && oid.len() > 0 && who.len() > 0 ==> run == (
                Ok::<Option<Seq<char>>, StopView>(Some(who)),
                behind(s, 2),
            )
        }),
{
    if left(s) > 0 {
        law_trimmed_line(oid);
        lemma_behind(s, 1);
        assert(left(s) > 1 ==> answer(behind(s, 1), 0) == answer(s, 1));
        law_git_line(
            behind(s, 1),
            repo.args().push("show"@).push("-s"@).push("--format=%an <%ae>"@).push(oid),
            who,
        );
    }
}

// ---------------------------------------------------------------------------------------------
// Changes to a repository
// ---------------------------------------------------------------------------------------------
/// The time of a commit as git takes it: seconds, and how far the clock is ahead of or behind
/// universal time, in hours and minutes of two digits each.
pub proof fn law_git_date(seconds: int, hours: nat, minutes: nat)
    requires
        minutes < 60,
    ensures
        git_date(TimeView { seconds, offset_minutes: (hours * 60 + minutes) as int })
            == signed_decimal(seconds) + " +"@ + two_digits(hours) + two_digits(minutes),
        hours + minutes > 0 ==> git_date(
            TimeView { seconds, offset_minutes: -(hours * 60 + minutes) as int },
        ) == signed_decimal(seconds) + " -"@ + two_digits(hours) + two_digits(minutes),
{
    let distance: nat = hours * 60 + minutes;
    assert(distance / 60 == hours);
    assert(distance % 60 == minutes);
}

/// A name is made for an object: `create` refuses where the name is taken, `update` does not.
pub proof fn law_reference_is_made(
    repo: RepositoryView,
    name: Seq<char>,
    id: Seq<char>,
    force: bool,
    message: Seq<char>,
    s: Tape,
)
    requires
        0 <= s.next <= s.replies.len(),
        trimmed(id) == id,
    ensures
        ({
            let run = reference_run(repo, name, id, force, message, s);
            let verb = if force {
                "update"@
            } else {
                "create"@
            };
            &&& left(s) == 0 ==> waits_for(
                run,
                RequestView::Git {
                    args: repo.args().push("update-ref"@).push("--stdin"@).push(
                        "--create-reflog"@,
                    ).push("-m"@).push(message),
                    env: Seq::empty(),
                    stdin: Some(encode_utf8(verb + " "@ + name + " "@ + id + "\n"@)),
                },
            )
            &&& left(s) > 0 && ended_well(answer(s, 0)) ==> run == (
                Ok::<ReferenceView, StopView>(ReferenceView { repo, ref_name: name }),
                behind(s, 1),
            )
        }),
{
}

/// A commit on a branch: the commit is made, with its tree, its parents in their order, and who
/// wrote and committed it; the branch's tip is asked for, which must be the first parent; and the
/// branch is moved to the commit, if the tip is then still the same. Without a branch, nothing is
/// moved.
pub proof fn law_commit_moves_its_branch(
    repo: RepositoryView,
    branch: Seq<char>,
    author: SignatureView,
    committer: SignatureView,
    message: Seq<char>,
    tree: Seq<char>,
    parents: Seq<Seq<char>>,
    oid: Seq<char>,
    tip: Seq<char>,
    s: Tape,
)
    requires
        0 <= s.next <= s.replies.len(),
        branch != "HEAD"@,
        trimmed(author.name) == author.name && trimmed(author.email) == author.email,
        trimmed(committer.name) == committer.name && trimmed(committer.email) == committer.email,
        is_someone(author),
        is_someone(committer),
        left(s) > 0 ==> wrote(answer(s, 0), oid),
        left(s) > 1 ==> (answer(s, 1) matches Reply::Exit { success, stdout, .. } && success
            && trimmed(utf8_lossy(stdout@)) == tip),
    ensures
        ({
            let run = commit_run(
                repo,
                Some(branch),
                author,
                committer,
                message,
                tree,
                parents,
                s,
            );
            let alone = commit_run(repo, None, author, committer, message, tree, parents, s);
            let made = RequestView::Git {
                args: repo.args().push("commit-tree"@).push(tree) + parent_args(parents),
                env: seq![
                    ("GIT_AUTHOR_NAME"@, author.name),
                    ("GIT_AUTHOR_EMAIL"@, author.email),
                    ("GIT_AUTHOR_DATE"@, signature_date(author)),
                    ("GIT_COMMITTER_NAME"@, committer.name),
                    ("GIT_COMMITTER_EMAIL"@, committer.email),
                    ("GIT_COMMITTER_DATE"@, signature_date(committer)),
                ],
                stdin: Some(encode_utf8(message)),
            };
            let on_tip = parents.len() > 0 && trimmed(parents[0]) == tip;
            &&& left(s) == 0 ==> waits_for(run, made) && waits_for(alone, made)
            &&& left(s) > 0 ==> alone == (Ok::<Seq<char>, StopView>(oid), behind(s, 1))
            &&& left(s) == 1 ==> waits_for(run, name_question(repo, branch))
            &&& left(s) > 1 && !on_tip ==> (run.0 matches Err(StopView::Fail(_)))
            &&& left(s) == 2 && on_tip ==> waits_for(
                run,
                git_command(
                    repo.args().push("update-ref"@).push("-m"@).push(message).push(branch).push(
                        oid,
                    ).push(tip),
                ),
            )
            &&& left(s) > 2 && on_tip && ended_well(answer(s, 2)) ==> run == (
                Ok::<Seq<char>, StopView>(oid),
                behind(s, 3),
            )
        }),
{
    if left(s) > 0 {
        law_trimmed_line(oid);
        lemma_behind(s, 1);
        assert(left(s) > 1 ==> answer(behind(s, 1), 0) == answer(s, 1));
    }
    if left(s) > 1 {
        lemma_behind(s, 2);
        assert(left(s) > 2 ==> answer(behind(s, 2), 0) == answer(s, 2));
    }
}

/// Nobody without a name or without an email writes or commits anything.
pub proof fn law_commit_needs_someone(
    repo: RepositoryView,
    update_ref: Option<Seq<char>>,
    author: SignatureView,
    committer: SignatureView,
    message: Seq<char>,
    tree: Seq<char>,
    parents: Seq<Seq<char>>,
    s: Tape,
)
    requires
        trimmed(author.name).len() == 0 || trimmed(author.email).len() == 0 || trimmed(
            committer.name,
        ).len() == 0 || trimmed(committer.email).len() == 0,
    ensures
        ({
            let run = commit_run(repo, update_ref, author, committer, message, tree, parents, s);
            (run.0 matches Err(StopView::Fail(_))) && run.1 == s
        }),
{
}

/// An event is written to the rewrite log first; then, unless that is not wanted, what it does to the
/// logs is done, and no failure of that is passed on.
pub proof fn law_rewrite_event_is_logged_first(
    repo: RepositoryView,
    event: RewriteLogEventView,
    author: Seq<char>,
    quiet: bool,
    apply: bool,
    s: Tape,
)
    requires
        0 <= s.next <= s.replies.len(),
    ensures
        ({
            let run = rewrite_event_run(repo, event, author, quiet, apply, s);
            let effects = event_run(repo, event, author, quiet, behind(s, 1));
            let logged = left(s) > 0 && answer(s, 0) == Reply::Done(Ok(()));
            &&& left(s) == 0 ==> waits_for(run, RequestView::AppendRewriteEvent { event })
            &&& logged && !apply ==> run == (Ok::<(), StopView>(()), behind(s, 1))
            &&& logged && apply ==> match effects.0 {
                Ok(_) => run.0 is Ok && run.1 == effects.1,
                Err(StopView::Fail(_)) => run.0 is Ok && run.1 == effects.1,
                Err(stop) => run.0 == Err::<(), StopView>(stop),
            }
            &&& left(s) > 0 && (answer(s, 0) matches Reply::Done(Err(_))) ==> (run.0 matches Err(
                StopView::Abort(_),
            ))
        }),
{
}

// ---------------------------------------------------------------------------------------------
// What commits hold
// ---------------------------------------------------------------------------------------------
/// What a file holds in a commit is what git shows of it there.
pub proof fn law_file_is_shown(
    repo: RepositoryView,
    file: Seq<char>,
    commit: Seq<char>,
    s: Tape,
)
    requires
        0 <= s.next <= s.replies.len(),
    ensures
        left(s) == 0 ==> waits_for(
            file_content_run(repo, file, commit, s),
            git_command(repo.args().push("show"@).push(commit + ":"@ + file)),
        ),
        left(s) > 0 && ended_well(answer(s, 0)) ==> file_content_run(repo, file, commit, s) == (
            Ok::<Seq<u8>, StopView>(answer(s, 0)->stdout@),
            behind(s, 1),
        ),
{
}

/// The files of a commit are those that git finds changed against its parent, or, where it has none,
/// against the tree without anything.
pub proof fn law_files_of_a_commit(
    repo: RepositoryView,
    commit: Seq<char>,
    pathspecs: Option<Seq<Seq<char>>>,
    parents: Seq<char>,
    list: Seq<char>,
    s: Tape,
)
    requires
        0 <= s.next <= s.replies.len(),
        left(s) > 0 ==> wrote(answer(s, 0), "commit"@),
        left(s) > 1 ==> wrote_text(answer(s, 1), parents),
        left(s) > 2 ==> wrote_text(answer(s, 2), list),
    ensures
        ({
            let run = commit_files_run(repo, commit, pathspecs, s);
            let start = repo.args().push("diff-tree"@).push("--no-commit-id"@).push(
                "--name-only"@,
            ).push("-r"@);
            &&& left(s) == 0 ==> waits_for(run, type_question(repo, commit))
            &&& left(s) == 1 ==> waits_for(
                run,
                git_command(
                    repo.args().push("show"@).push("-s"@).push("--format=%P"@).push(commit),
                ),
            )
            &&& left(s) == 2 && words_of(parents).len() > 0 ==> waits_for(
                run,
                git_command(start.push(commit) + path_args(pathspecs)),
            )
            &&& left(s) == 2 && words_of(parents).len() == 0 ==> waits_for(
                run,
                git_command(
                    start.push("4b825dc642cb6eb9a060e54bf8d69288fbee4904"@).push(commit)
                        + path_args(pathspecs),
                ),
            )
            &&& left(s) > 2 ==> run == (
                Ok::<Seq<Seq<char>>, StopView>(distinct(filled_lines(list))),
                behind(s, 3),
            )
        }),
{
    law_find_commit(repo, commit, s);
    if left(s) > 0 {
        lemma_behind(s, 1);
        assert(left(s) > 1 ==> answer(behind(s, 1), 0) == answer(s, 1));
    }
    if left(s) > 1 {
        lemma_behind(s, 2);
        assert(left(s) > 2 ==> answer(behind(s, 2), 0) == answer(s, 2));
    }
}

/// The lines that were added from one commit to another, or to the working directory, are those that
/// git's difference says, without any lines around them.
pub proof fn law_added_lines_are_asked_for(
    repo: RepositoryView,
    from: Seq<char>,
    to: Seq<char>,
    pathspecs: Option<Seq<Seq<char>>>,
    diff: Seq<char>,
    s: Tape,
)
    requires
        0 <= s.next <= s.replies.len(),
        left(s) > 0 ==> wrote_text(answer(s, 0), diff) && diff_fits(lines_of(diff)),
    ensures
        ({
            let between = diff_added_run(repo, from, to, pathspecs, s);
            let so_far = diff_workdir_run(repo, from, pathspecs, s);
            let start = repo.args().push("diff"@).push("-U0"@).push("--no-color"@).push(from);
            &&& left(s) == 0 ==> waits_for(
                between,
                git_command(start.push(to) + path_args(pathspecs)),
            ) && waits_for(so_far, git_command(start + path_args(pathspecs)))
            &&& left(s) > 0 ==> between == (
                Ok::<Seq<(Seq<char>, Seq<u32>)>, StopView>(added_lines(diff)),
                behind(s, 1),
            ) && so_far == between
        }),
{
}

/// The working directory is where git says it is, if that is a directory.
pub proof fn law_working_directory(repo: RepositoryView, path: Seq<char>, s: Tape)
    requires
        0 <= s.next <= s.replies.len(),
        repo.workdir_cache is None,
        left(s) > 0 ==> wrote(answer(s, 0), path),
    ensures
        ({
            let run = workdir_run(repo, s).0;
            &&& left(s) == 0 ==> waits_for(
                run,
                git_command(repo.args().push("rev-parse"@).push("--show-toplevel"@)),
            )
            &&& left(s) == 1 ==> waits_for(run, RequestView::IsDir { path })
            &&& left(s) > 1 && answer(s, 1) == Reply::Flag(true) ==> run == (
                Ok::<Seq<char>, StopView>(path),
                behind(s, 2),
            )
            &&& left(s) > 1 && answer(s, 1) == Reply::Flag(false) ==> (run.0 matches Err(
                StopView::Fail(_),
            ))
        }),
{
    law_git_line(s, repo.args().push("rev-parse"@).push("--show-toplevel"@), path);
    if left(s) > 0 {
        lemma_behind(s, 1);
        assert(left(s) > 1 ==> answer(behind(s, 1), 0) == answer(s, 1));
    }
}

/// A time is in seconds, and how far its clock is off is in whole minutes, towards none; a time that
/// cannot be read is the beginning of time.
pub proof fn law_time(seconds: i64, offset: i32)
    ensures
        ({
            let t = time_read(Some((seconds, offset)));
            &&& t.seconds == seconds
            &&& offset >= 0 ==> 60 * t.offset_minutes <= offset < 60 * t.offset_minutes + 60
            &&& offset < 0 ==> 60 * t.offset_minutes - 60 < offset <= 60 * t.offset_minutes
        }),
        time_read(None) == (TimeView { seconds: 0, offset_minutes: 0 }),
{
}

/// The branch of a range that is named by none: the only one that points to its end, and where there
/// is none or several, what `HEAD` stands for.
pub proof fn law_branch_is_inferred(
    repo: RepositoryView,
    oid: Seq<char>,
    list: Seq<char>,
    head: Seq<char>,
    s: Tape,
)
    requires
        0 <= s.next <= s.replies.len(),
        left(s) > 0 ==> wrote_text(answer(s, 0), list),
        left(s) > 1 ==> wrote(answer(s, 1), head),
    ensures
        ({
            let run = inferred_refname_run(repo, oid, s);
            let names = trimmed_lines(list);
            &&& left(s) == 0 ==> waits_for(
                run,
                git_command(
                    repo.args().push("for-each-ref"@).push("--points-at"@).push(oid).push(
                        "--format=%(refname)"@,
                    ),
                ),
            )
            &&& left(s) > 0 && names.len() == 1 ==> run == (
                Ok::<Seq<char>, StopView>(names[0]),
                behind(s, 1),
            )
            &&& left(s) == 1 && names.len() != 1 ==> waits_for(
                run,
                git_command(repo.args().push("symbolic-ref"@).push("HEAD"@)),
            )
            &&& left(s) > 1 && names.len() != 1 ==> run == (
                Ok::<Seq<char>, StopView>(head),
                behind(s, 2),
            )
        }),
{
    if left(s) > 0 {
        lemma_behind(s, 1);
        assert(left(s) > 1 ==> answer(behind(s, 1), 0) == answer(s, 1));
        law_head(repo, head, behind(s, 1));
    }
}

/// A branch that is not there yet is made at the commit; `HEAD` stands for the branch that it points
/// to.
pub proof fn law_new_branch_is_made(
    repo: RepositoryView,
    branch: Seq<char>,
    message: Seq<char>,
    oid: Seq<char>,
    parents: Seq<Seq<char>>,
    head: Seq<char>,
    s: Tape,
)
    requires
        0 <= s.next <= s.replies.len(),
    ensures
        ({
            let run = update_ref_run(repo, branch, message, oid, parents, s);
            let missing = left(s) > 0 && answer(s, 0) is Exit && !ended_well(answer(s, 0));
            &&& left(s) == 0 ==> waits_for(run, name_question(repo, branch))
            &&& left(s) == 1 && missing ==> waits_for(
                run,
                git_command(
                    repo.args().push("update-ref"@).push("-m"@).push(message).push(branch).push(
                        oid,
                    ),
                ),
            )
            &&& branch != "HEAD"@ ==> target_ref_run(repo, branch, s) == (
                Ok::<Seq<char>, StopView>(branch),
                s,
            )
            &&& left(s) > 0 && wrote(answer(s, 0), head) ==> target_ref_run(repo, "HEAD"@, s) == (
                Ok::<Seq<char>, StopView>(head),
                behind(s, 1),
            )
        }),
{
    law_head(repo, head, s);
}

/// Lists that git gives: the parents of a commit, the commits of a range, the names of all
/// references. Where git gives none of the first two, they are empty.
pub proof fn law_lists_are_asked_for(
    repo: RepositoryView,
    oid: Seq<char>,
    range: CommitRangeView,
    list: Seq<char>,
    s: Tape,
)
    requires
        0 <= s.next <= s.replies.len(),
        range.repo == repo,
    ensures
        ({
            let parents = parents_run(repo, oid, s);
            let commits = range_commits_run(range, s);
            let names = references_run(repo, s);
            let listed = left(s) > 0 && wrote_text(answer(s, 0), list);
            let refused = left(s) > 0 && answer(s, 0) is Exit && !ended_well(answer(s, 0));
            &&& left(s) == 0 ==> waits_for(
                parents,
                git_command(repo.args().push("show"@).push("-s"@).push("--format=%P"@).push(oid)),
            ) && waits_for(
                commits,
                git_command(
                    repo.args().push("rev-list"@).push(range.start_oid + ".."@ + range.end_oid),
                ),
            ) && waits_for(
                names,
                git_command(repo.args().push("for-each-ref"@).push("--format=%(refname)"@)),
            )
            &&& listed ==> parents == (
                Ok::<Seq<Seq<char>>, StopView>(words_of(list)),
                behind(s, 1),
            ) && commits == (Ok::<Seq<Seq<char>>, StopView>(trimmed_lines(list)), behind(s, 1))
                && names == commits
            &&& refused ==> parents == (
                Ok::<Seq<Seq<char>>, StopView>(Seq::empty()),
                behind(s, 1),
            ) && commits == parents && (names.0 matches Err(StopView::Fail(_)))
        }),
{
}

/// A branch's full name is what git says, and what its name would make it where git says nothing.
pub proof fn law_full_name(repo: RepositoryView, branch: Seq<char>, name: Seq<char>, s: Tape)
    requires
        0 <= s.next <= s.replies.len(),
    ensures
        ({
            let run = full_name_run(repo, branch, s);
            &&& left(s) > 0 && wrote(answer(s, 0), name) && name.len() > 0 ==> run == (
                Ok::<Seq<char>, StopView>(name),
                behind(s, 1),
            )
            &&& left(s) > 0 && (wrote(answer(s, 0), name) && name.len() == 0 || answer(s, 0) is Exit
                && !ended_well(answer(s, 0))) ==> run == (
                Ok::<Seq<char>, StopView>(
                    if has_prefix(branch, "refs/"@) {
                        branch
                    } else {
                        "refs/heads/"@ + branch
                    },
                ),
                behind(s, 1),
            )
        }),
{
    if left(s) > 0 && wrote(answer(s, 0), name) {
        law_trimmed_line(name);
    }
}

/// A reference is there where git shows it.
pub proof fn law_reference_is_found(repo: RepositoryView, name: Seq<char>, s: Tape)
    requires
        0 <= s.next <= s.replies.len(),
    ensures
        ({
            let run = find_reference_run(repo, name, s);
            &&& left(s) == 0 ==> waits_for(
                run,
                git_command(
                    repo.args().push("show-ref"@).push("--verify"@).push("-s"@).push(name),
                ),
            )
            &&& left(s) > 0 && ended_well(answer(s, 0)) ==> run == (
                Ok::<ReferenceView, StopView>(ReferenceView { repo, ref_name: name }),
                behind(s, 1),
            )
            &&& left(s) > 0 && answer(s, 0) is Exit && !ended_well(answer(s, 0)) ==> (run.0
                matches Err(StopView::Fail(_)))
        }),
{
}

/// The time of a commit is that at which it was committed; and a signature's date, as git takes it,
/// is its time.
pub proof fn law_time_of_a_commit(
    repo: RepositoryView,
    oid: Seq<char>,
    committer: SignatureView,
    seconds: i64,
    offset: i32,
    s: Tape,
)
    requires
        0 <= s.next <= s.replies.len(),
        instant_of(committer.time_iso8601) == Some((seconds, offset)),
    ensures
        left(s) == 0 ==> waits_for(time_run(repo, oid, s), committer_question(repo, oid)),
        left(s) > 0 && wrote_signature(answer(s, 0), committer) ==> (time_run(repo, oid, s).0 matches Ok(
            t,
        ) && t == time_read(Some((seconds, offset)))),
        signature_date(committer) == git_date(time_read(Some((seconds, offset)))),
{
    law_author_and_committer_of(repo, oid, committer, s);
}

/// A name or an email that is empty is none.
pub proof fn law_empty_is_none(text: Seq<char>)
    ensures
        text.len() == 0 <==> unless_empty(text) is None,
        text.len() > 0 ==> unless_empty(text) == Some(text),
{
}

/// A record of a tree without a mode, a type and a name is passed over.
pub proof fn law_other_records_are_passed_over(
    record: Seq<u8>,
    path: Seq<char>,
    found: Option<TreeEntryView>,
)
    ensures
        words_of(utf8_lossy(record.take(byte_place(record, 9)))).len() < 3 ==> preferred(
            found,
            record,
            path,
        ) == found,
        record.len() == 0 ==> preferred(found, record, path) == found,
{
}

} // verus!
