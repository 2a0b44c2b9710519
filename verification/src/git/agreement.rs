//! What the answers to several questions about a repository say together, where git's own answers
//! are about one and the same repository.
use crate::error::GitAiErrorView;
use crate::git::repository::{
    blob_content_run, blob_run, config_get_run, config_set_run, diff_added_run, diff_workdir_run,
    find_run, length_run, merge_favor_ours_run, parent_count_run, parent_run, parents_run,
    path_args, range_commits_run, tree_run, trimmed_lines, CommitRangeView, ObjectView,
    RepositoryView,
};
use crate::session::{git_run, git_text, git_try, text_or_empty, StopView, Tape};
use crate::text::{
    decimal, law_decimal_is_read, law_line_end_is_trimmed, law_trimmed_line,
    law_words_are_not_white, trimmed, utf8_text, words_of,
};
use vstd::prelude::*;

verus! {

broadcast use vstd::seq::group_seq_axioms;

/// The command wrote one line.
pub open spec fn wrote_line(bytes: Seq<u8>, line: Seq<char>) -> bool {
    utf8_text(bytes) == Some(line.push('\n'))
}

/// What is asked for the number of commits of a range.
pub open spec fn count_args(range: CommitRangeView) -> Seq<Seq<char>> {
    range.repo.args().push("rev-list"@).push("--count"@).push(
        range.start_oid + ".."@ + range.end_oid,
    )
}

/// What is asked for the commits of a range.
pub open spec fn list_args(range: CommitRangeView) -> Seq<Seq<char>> {
    range.repo.args().push("rev-list"@).push(range.start_oid + ".."@ + range.end_oid)
}

/// The length of a range is the number of commits that it yields. Git is asked for each, and gives
/// as the number how many commits it lists, or fails both times; the length is then zero.
pub proof fn law_length_counts_the_commits(range: CommitRangeView, s: Tape, t: Tape)
    requires
        match (git_try(s, count_args(range)).0, git_try(t, list_args(range)).0) {
            (Ok(Ok(count)), Ok(Ok(list))) => {
                let n = trimmed_lines(text_or_empty(list)).len();
                n <= usize::MAX && wrote_line(count, decimal(n))
            },
            (Ok(Err(_)), Ok(Err(_))) => true,
            _ => false,
        },
    ensures
        length_run(range, s).0 matches Ok(n) && range_commits_run(range, t).0 matches Ok(commits)
            && n == commits.len(),
        git_try(s, count_args(range)).0 matches Ok(Err(_)) ==> length_run(range, s).0 == Ok::<
            nat,
            StopView,
        >(0),
{
    if let (Ok(Ok(count)), Ok(Ok(list))) = (
        git_try(s, count_args(range)).0,
        git_try(t, list_args(range)).0,
    ) {
        let n = trimmed_lines(text_or_empty(list)).len();
        law_decimal_is_read(n, usize::MAX as nat);
        law_line_end_is_trimmed(decimal(n));
    }
}

/// What is asked for the parents of a commit.
pub open spec fn parents_args(repo: RepositoryView, oid: Seq<char>) -> Seq<Seq<char>> {
    repo.args().push("show"@).push("-s"@).push("--format=%P"@).push(oid)
}

/// What is asked for parent `i` of a commit.
pub open spec fn parent_args(repo: RepositoryView, oid: Seq<char>, i: nat) -> Seq<Seq<char>> {
    repo.args().push("rev-parse"@).push("--verify"@).push(oid + "^"@ + decimal(i + 1))
}

/// Parent `i` of a commit is the one at place `i` of its parents, and there is none at or behind
/// their number. Git lists the parents, and then gives the one asked for or fails where there is
/// none.
pub proof fn law_parent_is_among_the_parents(
    repo: RepositoryView,
    oid: Seq<char>,
    i: nat,
    s: Tape,
    t: Tape,
)
    requires
        git_try(t, parents_args(repo, oid)).0 matches Ok(Ok(list)) && match git_try(
            s,
            parent_args(repo, oid, i),
        ).0 {
            Ok(Ok(bytes)) => i < words_of(text_or_empty(list)).len() && wrote_line(
                bytes,
                words_of(text_or_empty(list))[i as int],
            ),
            Ok(Err(_)) => i >= words_of(text_or_empty(list)).len(),
            Err(_) => false,
        },
    ensures
        parents_run(repo, oid, t).0 matches Ok(parents) && parent_count_run(repo, oid, t).0
            == Ok::<nat, StopView>(parents.len()) && match parent_run(
            repo,
            oid,
            i,
            s,
        ).0 {
            Ok(parent) => i < parents.len() && parent == (ObjectView {
                repo,
                oid: parents[i as int],
            }),
            Err(_) => i >= parents.len(),
        },
{
    if let Ok(Ok(list)) = git_try(t, parents_args(repo, oid)).0 {
        let parents = words_of(text_or_empty(list));
        assert(parents_run(repo, oid, t).0->Ok_0 == parents);
        if i < parents.len() {
            law_words_are_not_white(text_or_empty(list), i as int);
            law_line_end_is_trimmed(parents[i as int]);
        }
    }
}

/// No object is found as two things: by what git says of its type, at most one of a commit, a blob
/// and a tree is found.
pub proof fn law_an_object_is_of_one_type(repo: RepositoryView, oid: Seq<char>, s: Tape)
    ensures
        find_run(repo, "commit"@, oid, s).0 is Ok ==> find_run(repo, "blob"@, oid, s).0 is Err
            && find_run(repo, "tree"@, oid, s).0 is Err,
        find_run(repo, "blob"@, oid, s).0 is Ok ==> find_run(repo, "tree"@, oid, s).0 is Err,
{
    reveal_strlit("commit");
    reveal_strlit("blob");
    reveal_strlit("tree");
    assert("commit"@[0] == 'c' && "blob"@[0] == 'b' && "tree"@[0] == 't');
}

/// The tree of a commit is found again as that tree, where git says that it is one.
pub proof fn law_tree_of_a_commit_is_found(
    repo: RepositoryView,
    oid: Seq<char>,
    s: Tape,
    t: Tape,
)
    requires
        tree_run(repo, oid, s).0 matches Ok(tree) && git_try(
            t,
            repo.args().push("cat-file"@).push("-t"@).push(tree.oid),
        ).0 matches Ok(Ok(bytes)) && wrote_line(bytes, "tree"@),
    ensures
        tree_run(repo, oid, s).0 matches Ok(tree) && find_run(repo, "tree"@, tree.oid, t).0 == Ok::<
            ObjectView,
            StopView,
        >(tree),
{
    reveal_strlit("tree");
    law_line_end_is_trimmed("tree"@);
}

/// What is asked for the difference to the working directory.
pub open spec fn workdir_args(
    repo: RepositoryView,
    from_ref: Seq<char>,
    pathspecs: Option<Seq<Seq<char>>>,
) -> Seq<Seq<char>> {
    repo.args().push("diff"@).push("-U0"@).push("--no-color"@).push(from_ref) + path_args(pathspecs)
}

/// What is asked for the difference to HEAD.
pub open spec fn head_args(
    repo: RepositoryView,
    from_ref: Seq<char>,
    pathspecs: Option<Seq<Seq<char>>>,
) -> Seq<Seq<char>> {
    repo.args().push("diff"@).push("-U0"@).push("--no-color"@).push(from_ref).push("HEAD"@)
        + path_args(pathspecs)
}

/// Where the working directory is clean, so that git writes the same difference to it as to HEAD,
/// the lines added in the working directory are those added up to HEAD.
pub proof fn law_clean_workdir_adds_what_head_adds(
    repo: RepositoryView,
    from_ref: Seq<char>,
    pathspecs: Option<Seq<Seq<char>>>,
    s: Tape,
    t: Tape,
)
    requires
        git_text(s, workdir_args(repo, from_ref, pathspecs)).0 is Ok,
        git_text(s, workdir_args(repo, from_ref, pathspecs)).0 == git_text(
            t,
            head_args(repo, from_ref, pathspecs),
        ).0,
    ensures
        diff_workdir_run(repo, from_ref, pathspecs, s).0 == diff_added_run(
            repo,
            from_ref,
            "HEAD"@,
            pathspecs,
            t,
        ).0,
{
}

/// A setting that was written is read back, where git then gives the value that it was told. The
/// value has no white space at its ends, which is not kept in reading.
pub proof fn law_setting_is_read_back(
    repo: RepositoryView,
    key: Seq<char>,
    value: Seq<char>,
    s: Tape,
)
    requires
        trimmed(value) == value,
        config_set_run(repo, key, value, s).0 is Ok,
        git_try(
            config_set_run(repo, key, value, s).1,
            repo.args().push("config"@).push("--get"@).push(key),
        ).0 matches Ok(Ok(bytes)) && wrote_line(bytes, value),
    ensures
        config_get_run(repo, key, config_set_run(repo, key, value, s).1).0 == Ok::<
            Option<Seq<char>>,
            StopView,
        >(Some(value)),
{
    law_trimmed_line(value);
}

/// Git keeps blobs under names that their contents give them: it answers with the name of the
/// bytes that it is told to store, says of that name that it is a blob, and gives the bytes back.
pub open spec fn keeps_blob(
    repo: RepositoryView,
    name_of: spec_fn(Seq<u8>) -> Seq<char>,
    data: Seq<u8>,
    s: Tape,
) -> bool {
    let stored = git_run(
        s,
        repo.args().push("hash-object"@).push("-w"@).push("--stdin"@),
        Seq::empty(),
        Some(data),
    );
    let typed = git_try(
        stored.1,
        repo.args().push("cat-file"@).push("-t"@).push(name_of(data)),
    );
    let read = git_try(
        typed.1,
        repo.args().push("cat-file"@).push("blob"@).push(name_of(data)),
    );
    &&& trimmed(name_of(data)) == name_of(data)
    &&& stored.0 matches Ok(Ok(bytes)) && wrote_line(bytes, name_of(data))
    &&& typed.0 matches Ok(Ok(bytes)) && wrote_line(bytes, "blob"@)
    &&& read.0 == Ok::<Result<Seq<u8>, GitAiErrorView>, StopView>(Ok(data))
}

/// Bytes that were stored as a blob are found under the name that was given for them, and are read
/// back byte for byte, whatever they are.
pub proof fn law_blob_is_read_back(
    repo: RepositoryView,
    name_of: spec_fn(Seq<u8>) -> Seq<char>,
    data: Seq<u8>,
    s: Tape,
)
    requires
        keeps_blob(repo, name_of, data, s),
    ensures
        blob_run(repo, data, s).0 == Ok::<Seq<char>, StopView>(name_of(data)),
        ({
            let (stored, s1) = blob_run(repo, data, s);
            let (found, s2) = find_run(repo, "blob"@, stored->Ok_0, s1);
            &&& found == Ok::<ObjectView, StopView>(ObjectView { repo, oid: stored->Ok_0 })
            &&& blob_content_run(repo, stored->Ok_0, s2).0 == Ok::<Seq<u8>, StopView>(data)
        }),
{
    reveal_strlit("blob");
    law_trimmed_line(name_of(data));
    law_line_end_is_trimmed("blob"@);
}

/// Equal bytes are stored under equal names.
pub proof fn law_equal_blobs_have_equal_names(
    repo: RepositoryView,
    name_of: spec_fn(Seq<u8>) -> Seq<char>,
    one: Seq<u8>,
    other: Seq<u8>,
    s: Tape,
    t: Tape,
)
    requires
        one == other,
        keeps_blob(repo, name_of, one, s),
        keeps_blob(repo, name_of, other, t),
    ensures
        blob_run(repo, one, s).0 == blob_run(repo, other, t).0,
{
    law_blob_is_read_back(repo, name_of, one, s);
    law_blob_is_read_back(repo, name_of, other, t);
}

/// What is asked for a merge that favors ours.
pub open spec fn merge_args(
    repo: RepositoryView,
    base: Seq<char>,
    ours: Seq<char>,
    theirs: Seq<char>,
) -> Seq<Seq<char>> {
    repo.args().push("merge-tree"@).push("--write-tree"@).push("--merge-base="@ + base).push(
        "-X"@,
    ).push("ours"@).push(ours).push(theirs)
}

/// A merge of which one side is the base itself gives the tree of the other side, where git writes
/// the same tree for the merge as for that side's commit.
pub proof fn law_merge_with_the_base_gives_the_other_side(
    repo: RepositoryView,
    base: Seq<char>,
    ours: Seq<char>,
    theirs: Seq<char>,
    side: Seq<char>,
    tree: Seq<char>,
    s: Tape,
    t: Tape,
)
    requires
        (theirs == base && side == ours) || (ours == base && side == theirs),
        trimmed(tree) == tree,
        git_try(s, merge_args(repo, base, ours, theirs)).0 matches Ok(Ok(bytes)) && wrote_line(
            bytes,
            tree,
        ),
        git_try(
            t,
            repo.args().push("rev-parse"@).push("--verify"@).push(side + "^{tree}"@),
        ).0 matches Ok(Ok(bytes)) && wrote_line(bytes, tree),
    ensures
        tree_run(repo, side, t).0 matches Ok(found) && merge_favor_ours_run(
            repo,
            base,
            ours,
            theirs,
            s,
        ).0 == Ok::<Seq<char>, StopView>(found.oid),
{
    law_trimmed_line(tree);
}

} // verus!
