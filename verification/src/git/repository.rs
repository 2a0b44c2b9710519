//! A repository, and what is read from it and written to it through git.
use crate::assoc::{find, has_key};
use crate::authorship::rebase_authorship::{event_run, rewrite_authorship_if_needed};
use crate::clock::{instant_of, minutes, read_instant, whole_minutes};
use crate::error::{clone_texts, generic, GitAiError, GitAiErrorView};
use crate::git::diff::{added_lines, diff_fits, try_parse_diff_added_lines};
use crate::git::rewrite_log::{RewriteLogEvent, RewriteLogEventView};
use crate::session::{
    aborted, as_text, as_trimmed, asked_done, asked_flag, caught, catch, exec_git, exec_git_stdin,
    exec_git_stdin_with_env, failed, git_bytes, git_line, git_output, git_output_line,
    git_output_text, git_run, git_text, git_try, lenient_text, must, or_fail, output_text, seen,
    text_or_empty, word, Request, RequestView, Run, Session, Stop, StopView, Tape,
};
use crate::text::{
    decimal, decimal_text, from_utf8_lossy, has_prefix, join2, join3, lines, lines_of, non_empty,
    parse_number, parsed, same, signed_decimal, signed_decimal_text, split_at_char, split_char,
    split_whitespace, starts_with, trim, trimmed, two_digits, two_digits_text, utf8_lossy,
    words_of,
};
use vstd::prelude::*;
use vstd::slice::slice_subrange;
use vstd::utf8::encode_utf8;

verus! {

broadcast use vstd::seq::group_seq_axioms;

// ---------------------------------------------------------------------------------------------
// The types
// ---------------------------------------------------------------------------------------------
/// A repository.
#[derive(Debug)]
pub struct Repository {
    global_args: Vec<String>,
    git_dir: String,
    pub pre_command_base_commit: Option<String>,
    pub pre_command_refname: Option<String>,
    workdir_cache: Option<Result<String, GitAiError>>,
}

/// What a `Repository` holds.
pub struct RepositoryView {
    /// The arguments that every git command for this repository starts with.
    pub global_args: Seq<Seq<char>>,
    pub git_dir: Seq<char>,
    pub pre_command_base_commit: Option<Seq<char>>,
    pub pre_command_refname: Option<Seq<char>>,
    /// The working directory, or why there is none, once it has been asked for.
    pub workdir_cache: Option<Result<Seq<char>, GitAiErrorView>>,
}

impl DeepView for Repository {
    type V = RepositoryView;

    closed spec fn deep_view(&self) -> RepositoryView {
        RepositoryView {
            global_args: self.global_args.deep_view(),
            git_dir: self.git_dir@,
            pre_command_base_commit: self.pre_command_base_commit.deep_view(),
            pre_command_refname: self.pre_command_refname.deep_view(),
            workdir_cache: match self.workdir_cache {
                Some(Ok(path)) => Some(Ok(path@)),
                Some(Err(e)) => Some(Err(e.deep_view())),
                None => None,
            },
        }
    }
}

impl Clone for Repository {
    fn clone(&self) -> (r: Self)
        ensures
            r.deep_view() == self.deep_view(),
    {
        Repository {
            global_args: clone_texts(&self.global_args),
            git_dir: self.git_dir.clone(),
            pre_command_base_commit: self.pre_command_base_commit.clone(),
            pre_command_refname: self.pre_command_refname.clone(),
            workdir_cache: match &self.workdir_cache {
                Some(Ok(path)) => Some(Ok(path.clone())),
                Some(Err(e)) => Some(Err(e.clone())),
                None => None,
            },
        }
    }
}

/// What an object, a commit, a tree or a blob of a repository is known by.
pub struct ObjectView {
    pub repo: RepositoryView,
    pub oid: Seq<char>,
}

/// An object of any type.
pub struct Object<'a> {
    repo: &'a Repository,
    oid: String,
}

impl<'a> DeepView for Object<'a> {
    type V = ObjectView;

    closed spec fn deep_view(&self) -> ObjectView {
        ObjectView { repo: self.repo.deep_view(), oid: self.oid@ }
    }
}

/// A commit.
pub struct Commit<'a> {
    repo: &'a Repository,
    oid: String,
}

impl<'a> DeepView for Commit<'a> {
    type V = ObjectView;

    closed spec fn deep_view(&self) -> ObjectView {
        ObjectView { repo: self.repo.deep_view(), oid: self.oid@ }
    }
}

/// Owned version of Commit that can be sent across async boundaries
pub struct OwnedCommit {
    repo: Repository,
    oid: String,
}

impl DeepView for OwnedCommit {
    type V = ObjectView;

    closed spec fn deep_view(&self) -> ObjectView {
        ObjectView { repo: self.repo.deep_view(), oid: self.oid@ }
    }
}

impl Clone for OwnedCommit {
    fn clone(&self) -> (r: Self)
        ensures
            r.deep_view() == self.deep_view(),
    {
        OwnedCommit { repo: self.repo.clone(), oid: self.oid.clone() }
    }
}

/// A tree.
pub struct Tree<'a> {
    repo: &'a Repository,
    oid: String,
}

impl<'a> DeepView for Tree<'a> {
    type V = ObjectView;

    closed spec fn deep_view(&self) -> ObjectView {
        ObjectView { repo: self.repo.deep_view(), oid: self.oid@ }
    }
}

/// A blob.
pub struct Blob<'a> {
    repo: &'a Repository,
    oid: String,
}

impl<'a> DeepView for Blob<'a> {
    type V = ObjectView;

    closed spec fn deep_view(&self) -> ObjectView {
        ObjectView { repo: self.repo.deep_view(), oid: self.oid@ }
    }
}

/// An entry of a tree.
pub struct TreeEntry<'a> {
    #[allow(dead_code)]
    repo: &'a Repository,
    // Object id (SHA-1/oid) that this tree entry points to
    oid: String,
    // One of: blob, tree, commit (gitlink)
    #[allow(dead_code)]
    object_type: String,
    // File mode as provided by git ls-tree (e.g. 100644, 100755, 120000, 040000)
    #[allow(dead_code)]
    mode: String,
    // Full path relative to the root of the tree used for lookup
    #[allow(dead_code)]
    path: String,
}

/// What a `TreeEntry` says of its object.
pub struct TreeEntryView {
    pub oid: Seq<char>,
    pub object_type: Seq<char>,
    pub mode: Seq<char>,
    pub path: Seq<char>,
}

impl<'a> DeepView for TreeEntry<'a> {
    type V = TreeEntryView;

    closed spec fn deep_view(&self) -> TreeEntryView {
        TreeEntryView {
            oid: self.oid@,
            object_type: self.object_type@,
            mode: self.mode@,
            path: self.path@,
        }
    }
}

/// A reference, by its name.
pub struct Reference<'a> {
    repo: &'a Repository,
    ref_name: String,
}

/// What a `Reference` is known by.
pub struct ReferenceView {
    pub repo: RepositoryView,
    pub ref_name: Seq<char>,
}

impl<'a> DeepView for Reference<'a> {
    type V = ReferenceView;

    closed spec fn deep_view(&self) -> ReferenceView {
        ReferenceView { repo: self.repo.deep_view(), ref_name: self.ref_name@ }
    }
}

/// The commits from one commit, without it, to another.
#[derive(Debug)]
pub struct CommitRange<'a> {
    repo: &'a Repository,
    pub start_oid: String,
    pub end_oid: String,
    pub refname: String,
}

/// What a `CommitRange` holds.
pub struct CommitRangeView {
    pub repo: RepositoryView,
    pub start_oid: Seq<char>,
    pub end_oid: Seq<char>,
    pub refname: Seq<char>,
}

impl<'a> DeepView for CommitRange<'a> {
    type V = CommitRangeView;

    closed spec fn deep_view(&self) -> CommitRangeView {
        CommitRangeView {
            repo: self.repo.deep_view(),
            start_oid: self.start_oid@,
            end_oid: self.end_oid@,
            refname: self.refname@,
        }
    }
}

/// Who did something, and when.
pub struct Signature<'a> {
    #[allow(dead_code)]
    repo: &'a Repository,
    name: String,
    email: String,
    time_iso8601: String,
}

/// What a `Signature` says.
pub struct SignatureView {
    pub name: Seq<char>,
    pub email: Seq<char>,
    pub time_iso8601: Seq<char>,
}

impl<'a> DeepView for Signature<'a> {
    type V = SignatureView;

    closed spec fn deep_view(&self) -> SignatureView {
        SignatureView { name: self.name@, email: self.email@, time_iso8601: self.time_iso8601@ }
    }
}

/// A time with the offset of its time zone.
pub struct Time {
    seconds: i64,
    offset_minutes: i32,
}

/// What a `Time` holds.
pub struct TimeView {
    pub seconds: int,
    pub offset_minutes: int,
}

impl DeepView for Time {
    type V = TimeView;

    closed spec fn deep_view(&self) -> TimeView {
        TimeView { seconds: self.seconds as int, offset_minutes: self.offset_minutes as int }
    }
}

/// What is left to go through: the repository and names of commits or references in it.
pub struct RestView {
    pub repo: RepositoryView,
    pub rest: Seq<Seq<char>>,
}

spec fn rest_of(oids: Vec<String>, index: usize) -> Seq<Seq<char>> {
    if index <= oids@.len() {
        oids.deep_view().skip(index as int)
    } else {
        Seq::empty()
    }
}

/// The commits of a range, one after the other.
pub struct CommitRangeIterator<'a> {
    repo: &'a Repository,
    commit_oids: Vec<String>,
    index: usize,
}

impl<'a> DeepView for CommitRangeIterator<'a> {
    type V = RestView;

    closed spec fn deep_view(&self) -> RestView {
        RestView { repo: self.repo.deep_view(), rest: rest_of(self.commit_oids, self.index) }
    }
}

/// The parents of a commit, one after the other.
pub struct Parents<'a> {
    repo: &'a Repository,
    parent_oids: Vec<String>,
    index: usize,
}

impl<'a> DeepView for Parents<'a> {
    type V = RestView;

    closed spec fn deep_view(&self) -> RestView {
        RestView { repo: self.repo.deep_view(), rest: rest_of(self.parent_oids, self.index) }
    }
}

/// References of a repository, one after the other.
pub struct References<'a> {
    repo: &'a Repository,
    refs: Vec<String>,
    index: usize,
}

impl<'a> DeepView for References<'a> {
    type V = RestView;

    closed spec fn deep_view(&self) -> RestView {
        RestView { repo: self.repo.deep_view(), rest: rest_of(self.refs, self.index) }
    }
}

// ---------------------------------------------------------------------------------------------
// Commands
// ---------------------------------------------------------------------------------------------
/// The arguments that a git command starts with: the global ones, and `--no-pager` behind them
/// where it is not among them.
pub open spec fn exec_args(global_args: Seq<Seq<char>>) -> Seq<Seq<char>> {
    if global_args.contains("--no-pager"@) {
        global_args
    } else {
        global_args.push("--no-pager"@)
    }
}

impl RepositoryView {
    /// The arguments that a git command for this repository starts with.
    pub open spec fn args(self) -> Seq<Seq<char>> {
        exec_args(self.global_args)
    }
}

/// `--no-pager` is among the arguments that a git command starts with, and the global arguments
/// stand before all others.
pub proof fn law_exec_args(global_args: Seq<Seq<char>>)
    ensures
        exec_args(global_args).contains("--no-pager"@),
        exec_args(global_args).take(global_args.len() as int) == global_args,
        exec_args(exec_args(global_args)) == exec_args(global_args),
{
    let args = exec_args(global_args);
    if !global_args.contains("--no-pager"@) {
        assert(args[global_args.len() as int] == "--no-pager"@);
    }
    assert(args.take(global_args.len() as int) =~= global_args);
}

/// A name of an object of the repository.
pub open spec fn as_object(repo: RepositoryView, run: Run<Seq<char>>) -> Run<ObjectView> {
    match run {
        (Ok(oid), s) => (Ok(ObjectView { repo, oid }), s),
        (Err(stop), s) => (Err(stop), s),
    }
}

/// `git rev-parse --verify` of a revision.
pub open spec fn rev_parse_run(repo: RepositoryView, revision: Seq<char>, s: Tape) -> Run<
    Seq<char>,
> {
    git_line(s, repo.args().push("rev-parse"@).push("--verify"@).push(revision))
}

/// The lines of a text without white space at their ends, without those that are then empty.
pub open spec fn trimmed_lines(text: Seq<char>) -> Seq<Seq<char>> {
    non_empty(lines_of(text).map_values(|line: Seq<char>| trimmed(line)))
}

/// The lines of a text without white space at their ends, without those that are then empty.
pub fn read_trimmed_lines(text: &str) -> (r: Vec<String>)
    ensures
        r.deep_view() == trimmed_lines(text@),
{
    let all = lines(text);
    let ghost parts = lines_of(text@).map_values(|line: Seq<char>| trimmed(line));
    let mut r: Vec<String> = Vec::new();
    let mut i: usize = 0;
    assert(parts.take(0) =~= Seq::empty());
    assert(r.deep_view() =~= Seq::empty());
    while i < all.len()
        invariant
            i <= all@.len(),
            all.deep_view() == lines_of(text@),
            parts == lines_of(text@).map_values(|line: Seq<char>| trimmed(line)),
            r.deep_view() == non_empty(parts.take(i as int)),
        decreases all@.len() - i,
    {
        assert(lines_of(text@)[i as int] == all@[i as int]@);
        let line = trim(all[i].as_str());
        assert(parts.take(i + 1).drop_last() =~= parts.take(i as int));
        assert(parts.take(i + 1).last() == line@);
        let ghost before = r.deep_view();
        if !line.as_str().is_empty() {
            r.push(line);
            assert(r.deep_view() =~= before.push(line@));
        }
        i = i + 1;
    }
    assert(parts.take(i as int) =~= parts);
    r
}

/// The lines of a text that are not empty.
pub open spec fn filled_lines(text: Seq<char>) -> Seq<Seq<char>> {
    non_empty(lines_of(text))
}

/// The lines of a text that are not empty.
pub fn read_filled_lines(text: &str) -> (r: Vec<String>)
    ensures
        r.deep_view() == filled_lines(text@),
{
    let all = lines(text);
    let ghost parts = lines_of(text@);
    let mut r: Vec<String> = Vec::new();
    let mut i: usize = 0;
    assert(parts.take(0) =~= Seq::empty());
    assert(r.deep_view() =~= Seq::empty());
    while i < all.len()
        invariant
            i <= all@.len(),
            all.deep_view() == lines_of(text@),
            parts == lines_of(text@),
            r.deep_view() == non_empty(parts.take(i as int)),
        decreases all@.len() - i,
    {
        assert(parts[i as int] == all@[i as int]@);
        assert(parts.take(i + 1).drop_last() =~= parts.take(i as int));
        let ghost before = r.deep_view();
        if !all[i].as_str().is_empty() {
            r.push(all[i].clone());
            assert(r.deep_view() =~= before.push(parts[i as int]));
        }
        i = i + 1;
    }
    assert(parts.take(i as int) =~= parts);
    r
}

fn no_names() -> (r: Vec<String>)
    ensures
        r.deep_view() == Seq::<Seq<char>>::empty(),
{
    let r: Vec<String> = Vec::new();
    assert(r.deep_view() =~= Seq::<Seq<char>>::empty());
    r
}

fn extend(args: &mut Vec<String>, more: &Vec<String>)
    ensures
        final(args).deep_view() == old(args).deep_view() + more.deep_view(),
{
    let ghost before = args.deep_view();
    let mut i: usize = 0;
    assert(before + more.deep_view().take(0) =~= before);
    while i < more.len()
        invariant
            i <= more@.len(),
            args.deep_view() == before + more.deep_view().take(i as int),
        decreases more@.len() - i,
    {
        word(args, more[i].as_str());
        assert(before + more.deep_view().take(i + 1) =~= (before + more.deep_view().take(
            i as int,
        )).push(more@[i as int]@));
        i = i + 1;
    }
    assert(more.deep_view().take(i as int) =~= more.deep_view());
}

// ---------------------------------------------------------------------------------------------
// Objects
// ---------------------------------------------------------------------------------------------
impl<'a> Object<'a> {
    pub fn id(&self) -> (r: String)
        ensures
            r@ == self.deep_view().oid,
    {
        self.oid.clone()
    }

    // Recursively peel an object until a commit is found.
    pub fn peel_to_commit(&self, session: &mut Session) -> (r: Result<Commit<'a>, Stop>)
        ensures
            (seen(r), final(session)@) == as_object(
                self.deep_view().repo,
                rev_parse_run(
                    self.deep_view().repo,
                    self.deep_view().oid + "^{commit}"@,
                    old(session)@,
                ),
            ),
    {
        let revision = join2(self.oid.as_str(), "^{commit}");
        let oid = self.repo.rev_parse(revision.as_str(), session)?;
        Ok(Commit { repo: self.repo, oid })
    }
}

/// What `git show -s` writes of a commit in a format.
pub open spec fn show_run(
    repo: RepositoryView,
    format: Seq<char>,
    oid: Seq<char>,
    s: Tape,
) -> Run<Seq<char>> {
    git_text(
        s,
        repo.args().push("show"@).push("-s"@).push("--no-notes"@).push("--encoding=UTF-8"@).push(
            format,
        ).push(oid),
    )
}

/// Line `i` without white space at its ends; no text where there is no such line.
pub open spec fn trimmed_line(all: Seq<Seq<char>>, i: int) -> Seq<char> {
    if i < all.len() {
        trimmed(all[i])
    } else {
        Seq::empty()
    }
}

/// A name, an e-mail address and a time, one on each line.
pub open spec fn signature_of(text: Seq<char>) -> SignatureView {
    SignatureView {
        name: trimmed_line(lines_of(text), 0),
        email: trimmed_line(lines_of(text), 1),
        time_iso8601: trimmed_line(lines_of(text), 2),
    }
}

/// The signature that git writes of a commit in a format.
pub open spec fn signature_run(
    repo: RepositoryView,
    format: Seq<char>,
    oid: Seq<char>,
    s: Tape,
) -> Run<SignatureView> {
    match show_run(repo, format, oid, s) {
        (Ok(text), s1) => (Ok(signature_of(text)), s1),
        (Err(stop), s1) => (Err(stop), s1),
    }
}

/// The author of a commit.
pub open spec fn author_run(repo: RepositoryView, oid: Seq<char>, s: Tape) -> Run<SignatureView> {
    signature_run(repo, "--format=%an%n%ae%n%aI"@, oid, s)
}

/// The committer of a commit.
pub open spec fn committer_run(repo: RepositoryView, oid: Seq<char>, s: Tape) -> Run<
    SignatureView,
> {
    signature_run(repo, "--format=%cn%n%ce%n%cI"@, oid, s)
}

/// The time that was read: that in UTC with the offset in whole minutes, or the start of 1970.
pub open spec fn time_read(read: Option<(i64, i32)>) -> TimeView {
    match read {
        Some((seconds, offset)) => TimeView {
            seconds: seconds as int,
            offset_minutes: whole_minutes(offset as int),
        },
        None => TimeView { seconds: 0, offset_minutes: 0 },
    }
}

/// The names that a git command writes, or none where it fails.
pub open spec fn names_run(
    s: Tape,
    args: Seq<Seq<char>>,
    names: spec_fn(Seq<char>) -> Seq<Seq<char>>,
) -> Run<Seq<Seq<char>>> {
    match git_try(s, args) {
        (Ok(Ok(out)), s1) => (Ok(names(text_or_empty(out))), s1),
        (Ok(Err(_)), s1) => (Ok(Seq::empty()), s1),
        (Err(stop), s1) => (Err(stop), s1),
    }
}

/// The parents of a commit.
pub open spec fn parents_run(repo: RepositoryView, oid: Seq<char>, s: Tape) -> Run<Seq<Seq<char>>> {
    names_run(
        s,
        repo.args().push("show"@).push("-s"@).push("--format=%P"@).push(oid),
        |text: Seq<char>| words_of(text),
    )
}

pub open spec fn as_rest(repo: RepositoryView, run: Run<Seq<Seq<char>>>) -> Run<RestView> {
    match run {
        (Ok(rest), s) => (Ok(RestView { repo, rest }), s),
        (Err(stop), s) => (Err(stop), s),
    }
}

/// The number of parents of a commit.
pub open spec fn parent_count_run(repo: RepositoryView, oid: Seq<char>, s: Tape) -> Run<nat> {
    match parents_run(repo, oid, s) {
        (Ok(oids), s1) => (Ok(oids.len()), s1),
        (Err(stop), s1) => (Err(stop), s1),
    }
}

/// What a function gave back that counts.
pub open spec fn seen_count(r: Result<usize, Stop>) -> Result<nat, StopView> {
    match r {
        Ok(n) => Ok(n as nat),
        Err(stop) => Err(stop.deep_view()),
    }
}

impl OwnedCommit {
    pub fn id(&self) -> (r: String)
        ensures
            r@ == self.deep_view().oid,
    {
        self.oid.clone()
    }

    pub fn repo(&self) -> (r: &Repository)
        ensures
            r.deep_view() == self.deep_view().repo,
    {
        &self.repo
    }

    pub fn summary(&self, session: &mut Session) -> (r: Result<String, Stop>)
        ensures
            (seen(r), final(session)@) == git_line(
                old(session)@,
                self.deep_view().repo.args().push("show"@).push("-s"@).push("--format=%s"@).push(
                    self.deep_view().oid,
                ),
            ),
    {
        let mut args = self.repo.global_args_for_exec();
        word(&mut args, "show");
        word(&mut args, "-s");
        word(&mut args, "--format=%s");
        word(&mut args, self.oid.as_str());
        git_output_line(session, args)
    }
}

impl<'a> Commit<'a> {
    pub fn id(&self) -> (r: String)
        ensures
            r@ == self.deep_view().oid,
    {
        self.oid.clone()
    }

    /// Create an owned commit with a cloned repository for async processing
    pub fn to_owned_commit(&self) -> (r: OwnedCommit)
        ensures
            r.deep_view() == self.deep_view(),
    {
        OwnedCommit { repo: self.repo.clone(), oid: self.oid.clone() }
    }

    pub fn tree(&self, session: &mut Session) -> (r: Result<Tree<'a>, Stop>)
        ensures
            (seen(r), final(session)@) == tree_run(
                self.deep_view().repo,
                self.deep_view().oid,
                old(session)@,
            ),
    {
        let revision = join2(self.oid.as_str(), "^{tree}");
        let oid = self.repo.rev_parse(revision.as_str(), session)?;
        Ok(Tree { repo: self.repo, oid })
    }

    pub fn parent(&self, i: usize, session: &mut Session) -> (r: Result<Commit<'a>, Stop>)
        requires
            i < usize::MAX,
        ensures
            (seen(r), final(session)@) == parent_run(
                self.deep_view().repo,
                self.deep_view().oid,
                i as nat,
                old(session)@,
            ),
    {
        // libgit2 uses 0-based indexing; Git's rev syntax uses 1-based parent selectors.
        let selector = decimal_text((i + 1) as u128);
        let revision = join3(self.oid.as_str(), "^", selector.as_str());
        let oid = self.repo.rev_parse(revision.as_str(), session)?;
        Ok(Commit { repo: self.repo, oid })
    }

    // Return an iterator over the parents of this commit.
    pub fn parents(&self, session: &mut Session) -> (r: Result<Parents<'a>, Stop>)
        ensures
            (seen(r), final(session)@) == as_rest(
                self.deep_view().repo,
                parents_run(self.deep_view().repo, self.deep_view().oid, old(session)@),
            ),
    {
        // Use `git show -s --format=%P <oid>` to get whitespace-separated parent OIDs
        let mut args = self.repo.global_args_for_exec();
        word(&mut args, "show");
        word(&mut args, "-s");
        word(&mut args, "--format=%P");
        word(&mut args, self.oid.as_str());
        let parent_oids: Vec<String> = match exec_git(session, args)? {
            Ok(out) => {
                let text = lenient_text(out);
                split_whitespace(text.as_str())
            },
            Err(_) => no_names(),
        };
        let r = Parents { repo: self.repo, parent_oids, index: 0 };
        assert(r.deep_view().rest =~= parent_oids.deep_view());
        Ok(r)
    }

    // Get the number of parents of this commit.
    // Use the parents iterator to return an iterator over all parents.
    pub fn parent_count(&self, session: &mut Session) -> (r: Result<usize, Stop>)
        ensures
            (seen_count(r), final(session)@) == parent_count_run(
                self.deep_view().repo,
                self.deep_view().oid,
                old(session)@,
            ),
    {
        let parents = self.parents(session)?;
        Ok(parents.count())
    }

    // Get the short “summary” of the git commit message. The returned message is the summary of
    // the commit, comprising the first paragraph of the message with whitespace trimmed and
    // squashed.
    pub fn summary(&self, session: &mut Session) -> (r: Result<String, Stop>)
        ensures
            (seen(r), final(session)@) == as_trimmed(
                show_run(
                    self.deep_view().repo,
                    "--format=%s"@,
                    self.deep_view().oid,
                    old(session)@,
                ),
            ),
    {
        let text = self.show("--format=%s", session)?;
        Ok(trim(text.as_str()))
    }

    fn show(&self, format: &str, session: &mut Session) -> (r: Result<String, Stop>)
        ensures
            (seen(r), final(session)@) == show_run(
                self.deep_view().repo,
                format@,
                self.deep_view().oid,
                old(session)@,
            ),
    {
        let mut args = self.repo.global_args_for_exec();
        word(&mut args, "show");
        word(&mut args, "-s");
        word(&mut args, "--no-notes");
        word(&mut args, "--encoding=UTF-8");
        word(&mut args, format);
        word(&mut args, self.oid.as_str());
        git_output_text(session, args)
    }

    fn signature(&self, format: &str, session: &mut Session) -> (r: Result<Signature<'a>, Stop>)
        ensures
            (seen(r), final(session)@) == signature_run(
                self.deep_view().repo,
                format@,
                self.deep_view().oid,
                old(session)@,
            ),
    {
        let text = self.show(format, session)?;
        let all = lines(text.as_str());
        Ok(
            Signature {
                repo: self.repo,
                name: trim_line(&all, 0),
                email: trim_line(&all, 1),
                time_iso8601: trim_line(&all, 2),
            },
        )
    }

    // Get the author of this commit.
    pub fn author(&self, session: &mut Session) -> (r: Result<Signature<'a>, Stop>)
        ensures
            (seen(r), final(session)@) == author_run(
                self.deep_view().repo,
                self.deep_view().oid,
                old(session)@,
            ),
    {
        self.signature("--format=%an%n%ae%n%aI", session)
    }

    // Get the committer of this commit.
    pub fn committer(&self, session: &mut Session) -> (r: Result<Signature<'a>, Stop>)
        ensures
            (seen(r), final(session)@) == committer_run(
                self.deep_view().repo,
                self.deep_view().oid,
                old(session)@,
            ),
    {
        self.signature("--format=%cn%n%ce%n%cI", session)
    }

    // Get the commit time (i.e. committer time) of a commit.
    // The first element of the tuple is the time, in seconds, since the epoch. The second element is the offset, in minutes, of the time zone of the committer’s preferred time zone.
    pub fn time(&self, session: &mut Session) -> (r: Result<Time, Stop>)
        ensures
            (seen(r), final(session)@) == time_run(
                self.deep_view().repo,
                self.deep_view().oid,
                old(session)@,
            ),
    {
        let signature = self.committer(session)?;
        Ok(signature.when())
    }
}

fn trim_line(all: &Vec<String>, i: usize) -> (r: String)
    ensures
        r@ == trimmed_line(all.deep_view(), i as int),
{
    if i < all.len() {
        trim(all[i].as_str())
    } else {
        String::new()
    }
}

/// The tree of a commit.
pub open spec fn tree_run(repo: RepositoryView, oid: Seq<char>, s: Tape) -> Run<ObjectView> {
    as_object(repo, rev_parse_run(repo, oid + "^{tree}"@, s))
}

/// A parent of a commit, counted from zero.
pub open spec fn parent_run(repo: RepositoryView, oid: Seq<char>, i: nat, s: Tape) -> Run<
    ObjectView,
> {
    as_object(repo, rev_parse_run(repo, oid + "^"@ + decimal(i + 1), s))
}

/// The time at which a commit was made.
pub open spec fn time_run(repo: RepositoryView, oid: Seq<char>, s: Tape) -> Run<TimeView> {
    match committer_run(repo, oid, s) {
        (Ok(signature), s1) => (Ok(time_read(instant_of(signature.time_iso8601))), s1),
        (Err(stop), s1) => (Err(stop), s1),
    }
}

impl Time {
    /// The time that was read, in seconds since 1970 and seconds ahead of UTC.
    pub fn from_instant(read: Option<(i64, i32)>) -> (r: Time)
        ensures
            r.deep_view() == time_read(read),
    {
        match read {
            Some((seconds, offset)) => Time { seconds, offset_minutes: minutes(offset) },
            None => Time { seconds: 0, offset_minutes: 0 },
        }
    }

    pub fn seconds(&self) -> (r: i64)
        ensures
            r == self.deep_view().seconds,
    {
        self.seconds
    }

    pub fn offset_minutes(&self) -> (r: i32)
        ensures
            r == self.deep_view().offset_minutes,
    {
        self.offset_minutes
    }
}

/// A text, if it is not empty.
pub open spec fn unless_empty(s: Seq<char>) -> Option<Seq<char>> {
    if s.len() == 0 {
        None
    } else {
        Some(s)
    }
}

impl<'a> Signature<'a> {
    pub fn name(&self) -> (r: Option<&str>)
        ensures
            r.deep_view() == unless_empty(self.deep_view().name),
    {
        if self.name.as_str().is_empty() {
            None
        } else {
            Some(self.name.as_str())
        }
    }

    pub fn email(&self) -> (r: Option<&str>)
        ensures
            r.deep_view() == unless_empty(self.deep_view().email),
    {
        if self.email.as_str().is_empty() {
            None
        } else {
            Some(self.email.as_str())
        }
    }

    pub fn when(&self) -> (r: Time)
        ensures
            r.deep_view() == time_read(instant_of(self.deep_view().time_iso8601)),
    {
        Time::from_instant(read_instant(self.time_iso8601.as_str()))
    }
}

// ---------------------------------------------------------------------------------------------
// Trees and blobs
// ---------------------------------------------------------------------------------------------
/// The place of the first `b`, or the number of bytes where there is none.
pub open spec fn byte_place(bytes: Seq<u8>, b: u8) -> int
    decreases bytes.len(),
{
    if bytes.len() == 0 || bytes[0] == b {
        0
    } else {
        1 + byte_place(bytes.drop_first(), b)
    }
}

/// What a record of `git ls-tree -z` says, `<mode> <type> <object>\t<path>`; nothing where it does
/// not give all of the first three.
pub open spec fn tree_record(record: Seq<u8>) -> Option<TreeEntryView> {
    let tab = byte_place(record, 9);
    let meta = words_of(utf8_lossy(record.take(tab)));
    if meta.len() < 3 {
        None
    } else {
        Some(
            TreeEntryView {
                mode: meta[0],
                object_type: meta[1],
                oid: meta[2],
                path: utf8_lossy(
                    if tab < record.len() {
                        record.skip(tab + 1)
                    } else {
                        Seq::empty()
                    },
                ),
            },
        )
    }
}

/// The entry for `path` after one more record: that of the record, where it has just that path.
pub open spec fn preferred(
    found: Option<TreeEntryView>,
    record: Seq<u8>,
    path: Seq<char>,
) -> Option<TreeEntryView> {
    if record.len() == 0 {
        found
    } else {
        match tree_record(record) {
            Some(entry) => if entry.path == path {
                Some(entry)
            } else {
                found
            },
            None => found,
        }
    }
}

/// The entry for `path` among the records, which NUL bytes end.
pub open spec fn entry_among(
    bytes: Seq<u8>,
    path: Seq<char>,
    found: Option<TreeEntryView>,
) -> Option<TreeEntryView>
    decreases bytes.len(),
{
    let end = byte_place(bytes, 0);
    if 0 <= end < bytes.len() {
        entry_among(bytes.skip(end + 1), path, preferred(found, bytes.take(end), path))
    } else {
        preferred(found, bytes, path)
    }
}

/// The entry of a tree for a path: a file, or a directory with its own tree.
pub open spec fn get_path_run(
    repo: RepositoryView,
    oid: Seq<char>,
    path: Seq<char>,
    s: Tape,
) -> Run<TreeEntryView> {
    match git_bytes(
        s,
        repo.args().push("ls-tree"@).push("-z"@).push(oid).push("--"@).push(path),
    ) {
        (Ok(bytes), s1) => match entry_among(bytes, path, None) {
            Some(entry) => (Ok(entry), s1),
            None => failed(GitAiErrorView::Generic("Path not found in tree: "@ + path), s1),
        },
        (Err(stop), s1) => (Err(stop), s1),
    }
}

fn find_byte(bytes: &[u8], b: u8) -> (r: usize)
    ensures
        r == byte_place(bytes@, b),
        r <= bytes@.len(),
{
    let mut i: usize = 0;
    let n: usize = bytes.len();
    assert(bytes@.skip(0) =~= bytes@);
    while i < n && bytes[i] != b
        invariant
            i <= n,
            n == bytes@.len(),
            byte_place(bytes@, b) == i + byte_place(bytes@.skip(i as int), b),
        decreases n - i,
    {
        assert(bytes@.skip(i as int).drop_first() =~= bytes@.skip(i + 1));
        i = i + 1;
    }
    i
}

impl<'a> TreeEntry<'a> {
    // Get the id of the object pointed by the entry
    pub fn id(&self) -> (r: String)
        ensures
            r@ == self.deep_view().oid,
    {
        self.oid.clone()
    }
}

impl<'a> Tree<'a> {
    // Get the id of the tree
    pub fn id(&self) -> (r: String)
        ensures
            r@ == self.deep_view().oid,
    {
        self.oid.clone()
    }

    pub fn clone(&self) -> (r: Tree<'a>)
        ensures
            r.deep_view() == self.deep_view(),
    {
        Tree { repo: self.repo, oid: self.oid.clone() }
    }

    fn read_record(&self, record: &[u8]) -> (r: Option<TreeEntry<'a>>)
        ensures
            r.deep_view() == tree_record(record@),
    {
        let n: usize = record.len();
        let tab: usize = find_byte(record, 9);
        let head = slice_subrange(record, 0, tab);
        assert(head@ =~= record@.take(tab as int));
        let meta = split_whitespace(from_utf8_lossy(head).as_str());
        let ghost texts = meta.deep_view();
        if meta.len() < 3 {
            return None;
        }
        assert(texts[0] == meta@[0]@ && texts[1] == meta@[1]@ && texts[2] == meta@[2]@);
        let tail = if tab < n {
            slice_subrange(record, tab + 1, n)
        } else {
            slice_subrange(record, n, n)
        };
        assert(tail@ =~= if tab < record@.len() {
            record@.skip(tab + 1)
        } else {
            Seq::empty()
        });
        Some(
            TreeEntry {
                repo: self.repo,
                mode: meta[0].clone(),
                object_type: meta[1].clone(),
                oid: meta[2].clone(),
                path: from_utf8_lossy(tail),
            },
        )
    }

    fn prefer(&self, found: Option<TreeEntry<'a>>, record: &[u8], path: &str) -> (r: Option<
        TreeEntry<'a>,
    >)
        ensures
            r.deep_view() == preferred(found.deep_view(), record@, path@),
    {
        if record.len() == 0 {
            return found;
        }
        match self.read_record(record) {
            Some(entry) => {
                if same(entry.path.as_str(), path) {
                    Some(entry)
                } else {
                    found
                }
            },
            None => found,
        }
    }

    // Retrieve a tree entry contained in a tree or in any of its subtrees, given its relative path.
    pub fn get_path(&self, path: &str, session: &mut Session) -> (r: Result<TreeEntry<'a>, Stop>)
        ensures
            (seen(r), final(session)@) == get_path_run(
                self.deep_view().repo,
                self.deep_view().oid,
                path@,
                old(session)@,
            ),
    {
        // Use `git ls-tree -z <tree-oid> -- <path>` to get exactly the entry for the path, in
        // whatever subtree it is: not what a directory holds, but the directory.
        // -z ensures NUL-terminated records
        let mut args = self.repo.global_args_for_exec();
        word(&mut args, "ls-tree");
        word(&mut args, "-z");
        word(&mut args, self.oid.as_str());
        word(&mut args, "--");
        word(&mut args, path);
        let out = git_output(session, args)?;
        let bytes = out.as_slice();
        let n: usize = bytes.len();
        let mut found: Option<TreeEntry<'a>> = None;
        let mut from: usize = 0;
        let mut more: bool = true;
        assert(bytes@.skip(0) =~= bytes@);
        // Each record: "<mode> <type> <object>\t<file>\0"
        // We expect at most one record for an exact path query.
        while more
            invariant
                from <= n,
                n == bytes@.len(),
                more ==> entry_among(bytes@.skip(from as int), path@, found.deep_view())
                    == entry_among(bytes@, path@, None),
                !more ==> found.deep_view() == entry_among(bytes@, path@, None),
            decreases
                n - from,
                (if more {
                    1int
                } else {
                    0int
                }),
        {
            let ghost rest = bytes@.skip(from as int);
            let left = slice_subrange(bytes, from, n);
            assert(left@ =~= rest);
            let end: usize = find_byte(left, 0);
            if end < left.len() {
                let record = slice_subrange(left, 0, end);
                assert(record@ =~= rest.take(end as int));
                found = self.prefer(found, record, path);
                from = from + end + 1;
                assert(bytes@.skip(from as int) =~= rest.skip(end + 1));
            } else {
                found = self.prefer(found, left, path);
                more = false;
            }
        }
        match found {
            Some(entry) => Ok(entry),
            None => Err(
                Stop::Fail(
                    GitAiError::Generic(join2("Path not found in tree: ", path)),
                ),
            ),
        }
    }
}

impl<'a> Blob<'a> {
    pub fn id(&self) -> (r: String)
        ensures
            r@ == self.deep_view().oid,
    {
        self.oid.clone()
    }

    // Get the content of this blob.
    pub fn content<'s>(&self, session: &mut Session<'s>) -> (r: Result<&'s Vec<u8>, Stop>)
        ensures
            (crate::session::seen_bytes(r), final(session)@) == blob_content_run(
                self.deep_view().repo,
                self.deep_view().oid,
                old(session)@,
            ),
    {
        let mut args = self.repo.global_args_for_exec();
        word(&mut args, "cat-file");
        word(&mut args, "blob");
        word(&mut args, self.oid.as_str());
        git_output(session, args)
    }
}

// ---------------------------------------------------------------------------------------------
// References
// ---------------------------------------------------------------------------------------------
/// What a reference points at.
pub open spec fn target_run(repo: RepositoryView, ref_name: Seq<char>, s: Tape) -> Run<Seq<char>> {
    git_line(s, repo.args().push("rev-parse"@).push(ref_name))
}

impl<'a> Reference<'a> {
    pub fn name(&self) -> (r: Option<&str>)
        ensures
            r matches Some(name) && name@ == self.deep_view().ref_name,
    {
        Some(self.ref_name.as_str())
    }

    pub fn is_branch(&self) -> (r: bool)
        ensures
            r == has_prefix(self.deep_view().ref_name, "refs/heads/"@),
    {
        starts_with(self.ref_name.as_str(), "refs/heads/")
    }

    pub fn shorthand(&self, session: &mut Session) -> (r: Result<String, Stop>)
        ensures
            (seen(r), final(session)@) == git_line(
                old(session)@,
                self.deep_view().repo.args().push("rev-parse"@).push("--abbrev-ref"@).push(
                    self.deep_view().ref_name,
                ),
            ),
    {
        let mut args = self.repo.global_args_for_exec();
        word(&mut args, "rev-parse");
        word(&mut args, "--abbrev-ref");
        word(&mut args, self.ref_name.as_str());
        git_output_line(session, args)
    }

    pub fn target(&self, session: &mut Session) -> (r: Result<String, Stop>)
        ensures
            (seen(r), final(session)@) == target_run(
                self.deep_view().repo,
                self.deep_view().ref_name,
                old(session)@,
            ),
    {
        let mut args = self.repo.global_args_for_exec();
        word(&mut args, "rev-parse");
        word(&mut args, self.ref_name.as_str());
        git_output_line(session, args)
    }

    // Peel a reference to a blob
    // This method recursively peels the reference until it reaches a blob.
    pub fn peel_to_blob(&self, session: &mut Session) -> (r: Result<Blob<'a>, Stop>)
        ensures
            (seen(r), final(session)@) == as_object(
                self.deep_view().repo,
                rev_parse_run(
                    self.deep_view().repo,
                    self.deep_view().ref_name + "^{blob}"@,
                    old(session)@,
                ),
            ),
    {
        let revision = join2(self.ref_name.as_str(), "^{blob}");
        let oid = self.repo.rev_parse(revision.as_str(), session)?;
        Ok(Blob { repo: self.repo, oid })
    }

    // Peel a reference to a commit This method recursively peels the reference until it reaches a commit.
    pub fn peel_to_commit(&self, session: &mut Session) -> (r: Result<Commit<'a>, Stop>)
        ensures
            (seen(r), final(session)@) == as_object(
                self.deep_view().repo,
                rev_parse_run(
                    self.deep_view().repo,
                    self.deep_view().ref_name + "^{commit}"@,
                    old(session)@,
                ),
            ),
    {
        let revision = join2(self.ref_name.as_str(), "^{commit}");
        let oid = self.repo.rev_parse(revision.as_str(), session)?;
        Ok(Commit { repo: self.repo, oid })
    }
}

// ---------------------------------------------------------------------------------------------
// Going through commits and references
// ---------------------------------------------------------------------------------------------
fn advance(oids: &Vec<String>, index: usize) -> (r: Option<String>)
    ensures
        match r {
            Some(oid) => rest_of(*oids, index).len() > 0 && oid@ == rest_of(*oids, index)[0] && index
                < usize::MAX && rest_of(*oids, (index + 1) as usize) == rest_of(
                *oids,
                index,
            ).drop_first(),
            None => rest_of(*oids, index).len() == 0,
        },
{
    if index >= oids.len() {
        return None;
    }
    assert(rest_of(*oids, (index + 1) as usize) =~= rest_of(*oids, index).drop_first());
    Some(oids[index].clone())
}

impl<'a> Parents<'a> {
    /// The next parent.
    pub fn next(&mut self) -> (r: Option<Commit<'a>>)
        ensures
            match r {
                Some(commit) => old(self).deep_view().rest.len() > 0 && commit.deep_view() == (
                ObjectView {
                    repo: old(self).deep_view().repo,
                    oid: old(self).deep_view().rest[0],
                }) && final(self).deep_view() == (RestView {
                    rest: old(self).deep_view().rest.drop_first(),
                    ..old(self).deep_view()
                }),
                None => old(self).deep_view().rest.len() == 0 && final(self).deep_view() == old(
                    self,
                ).deep_view(),
            },
    {
        let oid = advance(&self.parent_oids, self.index)?;
        self.index = self.index + 1;
        Some(Commit { repo: self.repo, oid })
    }

    /// How many parents are left.
    pub fn count(self) -> (r: usize)
        ensures
            r == self.deep_view().rest.len(),
    {
        if self.index <= self.parent_oids.len() {
            self.parent_oids.len() - self.index
        } else {
            0
        }
    }
}

impl<'a> References<'a> {
    /// The next reference.
    pub fn next(&mut self) -> (r: Option<Result<Reference<'a>, GitAiError>>)
        ensures
            match r {
                Some(Ok(reference)) => old(self).deep_view().rest.len() > 0 && reference.deep_view()
                    == (ReferenceView {
                    repo: old(self).deep_view().repo,
                    ref_name: old(self).deep_view().rest[0],
                }) && final(self).deep_view() == (RestView {
                    rest: old(self).deep_view().rest.drop_first(),
                    ..old(self).deep_view()
                }),
                Some(Err(_)) => false,
                None => old(self).deep_view().rest.len() == 0 && final(self).deep_view() == old(
                    self,
                ).deep_view(),
            },
    {
        let ref_name = advance(&self.refs, self.index)?;
        self.index = self.index + 1;
        Some(Ok(Reference { repo: self.repo, ref_name }))
    }
}

impl<'a> CommitRangeIterator<'a> {
    /// The next commit.
    pub fn next(&mut self) -> (r: Option<Commit<'a>>)
        ensures
            match r {
                Some(commit) => old(self).deep_view().rest.len() > 0 && commit.deep_view() == (
                ObjectView {
                    repo: old(self).deep_view().repo,
                    oid: old(self).deep_view().rest[0],
                }) && final(self).deep_view() == (RestView {
                    rest: old(self).deep_view().rest.drop_first(),
                    ..old(self).deep_view()
                }),
                None => old(self).deep_view().rest.len() == 0 && final(self).deep_view() == old(
                    self,
                ).deep_view(),
            },
    {
        let oid = advance(&self.commit_oids, self.index)?;
        self.index = self.index + 1;
        Some(Commit { repo: self.repo, oid })
    }

    /// The ids of the commits that are left.
    pub fn ids(self) -> (r: Vec<String>)
        ensures
            r.deep_view() == self.deep_view().rest,
    {
        let ghost rest = self.deep_view().rest;
        let mut left = self;
        let mut ids: Vec<String> = Vec::new();
        assert(ids.deep_view() + rest =~= rest);
        loop
            invariant
                ids.deep_view() + left.deep_view().rest == rest,
                rest == self.deep_view().rest,
            decreases left.deep_view().rest.len(),
        {
            let ghost done = ids.deep_view();
            let ghost before = left.deep_view().rest;
            match left.next() {
                Some(commit) => {
                    word(&mut ids, commit.id().as_str());
                    assert(ids.deep_view() + before.drop_first() =~= done + before);
                },
                None => {
                    assert(done + before =~= done);
                    return ids;
                },
            }
        }
    }
}

impl Repository {
    // Util for preparing global args for execution
    pub fn global_args_for_exec(&self) -> (r: Vec<String>)
        ensures
            r.deep_view() == self.deep_view().args(),
    {
        let mut args = clone_texts(&self.global_args);
        let ghost texts = args.deep_view();
        let mut i: usize = 0;
        while i < args.len()
            invariant
                i <= args@.len(),
                args.deep_view() == texts,
                texts == self.deep_view().global_args,
                forall|j: int| 0 <= j < i ==> #[trigger] texts[j] != "--no-pager"@,
            decreases args@.len() - i,
        {
            assert(texts[i as int] == args@[i as int]@);
            if same(args[i].as_str(), "--no-pager") {
                return args;
            }
            i = i + 1;
        }
        word(&mut args, "--no-pager");
        args
    }

    pub(crate) fn rev_parse(&self, revision: &str, session: &mut Session) -> (r: Result<String, Stop>)
        ensures
            (seen(r), final(session)@) == rev_parse_run(
                self.deep_view(),
                revision@,
                old(session)@,
            ),
    {
        let mut args = self.global_args_for_exec();
        word(&mut args, "rev-parse");
        word(&mut args, "--verify");
        word(&mut args, revision);
        git_output_line(session, args)
    }
}

// ---------------------------------------------------------------------------------------------
// Ranges of commits
// ---------------------------------------------------------------------------------------------
/// A range between two revisions.
pub open spec fn commit_range_run(
    repo: RepositoryView,
    start: Seq<char>,
    end: Seq<char>,
    refname: Seq<char>,
    s: Tape,
) -> Run<CommitRangeView> {
    match rev_parse_run(repo, start, s) {
        (Ok(start_oid), s1) => match rev_parse_run(repo, end, s1) {
            (Ok(end_oid), s2) => (Ok(CommitRangeView { repo, start_oid, end_oid, refname }), s2),
            (Err(stop), s2) => (Err(stop), s2),
        },
        (Err(stop), s1) => (Err(stop), s1),
    }
}

/// The reference that HEAD names, or HEAD itself where it names none.
pub open spec fn head_run(repo: RepositoryView, s: Tape) -> Run<ReferenceView> {
    match git_try(s, repo.args().push("symbolic-ref"@).push("HEAD"@)) {
        (Ok(Ok(out)), s1) => match as_trimmed(as_text((Ok(out), s1))) {
            (Ok(ref_name), s2) => (Ok(ReferenceView { repo, ref_name }), s2),
            (Err(stop), s2) => (Err(stop), s2),
        },
        (Ok(Err(_)), s1) => (Ok(ReferenceView { repo, ref_name: "HEAD"@ }), s1),
        (Err(stop), s1) => (Err(stop), s1),
    }
}

/// The one reference that points at a commit, or what HEAD names where there is not just one.
pub open spec fn inferred_refname_run(repo: RepositoryView, oid: Seq<char>, s: Tape) -> Run<
    Seq<char>,
> {
    match names_run(
        s,
        repo.args().push("for-each-ref"@).push("--points-at"@).push(oid).push(
            "--format=%(refname)"@,
        ),
        |text: Seq<char>| trimmed_lines(text),
    ) {
        (Ok(refs), s1) => if refs.len() == 1 {
            (Ok(refs[0]), s1)
        } else {
            match caught(head_run(repo, s1)) {
                (Ok(Ok(head)), s2) => (Ok(head.ref_name), s2),
                (Ok(Err(_)), s2) => (Ok("HEAD"@), s2),
                (Err(stop), s2) => (Err(stop), s2),
            }
        },
        (Err(stop), s1) => (Err(stop), s1),
    }
}

/// A range between two revisions on a reference that is given or inferred.
pub open spec fn inferring_range_run(
    repo: RepositoryView,
    start: Seq<char>,
    end: Seq<char>,
    refname: Option<Seq<char>>,
    s: Tape,
) -> Run<CommitRangeView> {
    match rev_parse_run(repo, start, s) {
        (Ok(start_oid), s1) => match rev_parse_run(repo, end, s1) {
            (Ok(end_oid), s2) => match refname {
                Some(refname) => (
                    Ok(CommitRangeView { repo, start_oid, end_oid, refname }),
                    s2,
                ),
                None => match inferred_refname_run(repo, end_oid, s2) {
                    (Ok(refname), s3) => (
                        Ok(CommitRangeView { repo, start_oid, end_oid, refname }),
                        s3,
                    ),
                    (Err(stop), s3) => (Err(stop), s3),
                },
            },
            (Err(stop), s2) => (Err(stop), s2),
        },
        (Err(stop), s1) => (Err(stop), s1),
    }
}

/// Nothing where one commit is an ancestor of another; otherwise a failure with a message.
pub open spec fn ancestor_run(
    repo: RepositoryView,
    one: Seq<char>,
    other: Seq<char>,
    message: Seq<char>,
    s: Tape,
) -> Run<()> {
    match git_try(s, repo.args().push("merge-base"@).push("--is-ancestor"@).push(one).push(other)) {
        (Ok(Ok(_)), s1) => (Ok(()), s1),
        (Ok(Err(_)), s1) => failed(GitAiErrorView::Generic(message), s1),
        (Err(stop), s1) => (Err(stop), s1),
    }
}

/// Nothing where both ends of a range are commits on its reference and the first is an ancestor
/// of the second; otherwise a failure that says which of this does not hold.
pub open spec fn is_valid_run(range: CommitRangeView, s: Tape) -> Run<()> {
    match find_run(range.repo, "commit"@, range.start_oid, s) {
        (Ok(_), s1) => match find_run(range.repo, "commit"@, range.end_oid, s1) {
            (Ok(_), s2) => match ancestor_run(
                range.repo,
                range.start_oid,
                range.refname,
                "Commit "@ + range.start_oid + " is not reachable from refname "@ + range.refname,
                s2,
            ) {
                (Ok(_), s3) => match ancestor_run(
                    range.repo,
                    range.end_oid,
                    range.refname,
                    "Commit "@ + range.end_oid + " is not reachable from refname "@ + range.refname,
                    s3,
                ) {
                    (Ok(_), s4) => ancestor_run(
                        range.repo,
                        range.start_oid,
                        range.end_oid,
                        "Commit "@ + range.start_oid + " is not an ancestor of "@ + range.end_oid,
                        s4,
                    ),
                    (Err(stop), s4) => (Err(stop), s4),
                },
                (Err(stop), s3) => (Err(stop), s3),
            },
            (Err(stop), s2) => (Err(stop), s2),
        },
        (Err(stop), s1) => (Err(stop), s1),
    }
}

/// The number of commits of a range as git counts them; zero where it does not.
pub open spec fn length_run(range: CommitRangeView, s: Tape) -> Run<nat> {
    match git_try(
        s,
        range.repo.args().push("rev-list"@).push("--count"@).push(
            range.start_oid + ".."@ + range.end_oid,
        ),
    ) {
        (Ok(Ok(out)), s1) => (
            Ok(
                match parsed(trimmed(text_or_empty(out)), usize::MAX as nat) {
                    Some(n) => n,
                    None => 0,
                },
            ),
            s1,
        ),
        (Ok(Err(_)), s1) => (Ok(0), s1),
        (Err(stop), s1) => (Err(stop), s1),
    }
}

/// The commits of a range as git lists them; none where it does not.
pub open spec fn range_commits_run(range: CommitRangeView, s: Tape) -> Run<Seq<Seq<char>>> {
    names_run(
        s,
        range.repo.args().push("rev-list"@).push(range.start_oid + ".."@ + range.end_oid),
        |text: Seq<char>| trimmed_lines(text),
    )
}

impl<'a> CommitRange<'a> {
    pub fn new(
        repo: &'a Repository,
        start_oid: String,
        end_oid: String,
        refname: String,
        session: &mut Session,
    ) -> (r: Result<CommitRange<'a>, Stop>)
        ensures
            (seen(r), final(session)@) == commit_range_run(
                repo.deep_view(),
                start_oid@,
                end_oid@,
                refname@,
                old(session)@,
            ),
    {
        // Resolve start_oid and end_oid to actual commit SHAs
        let resolved_start = repo.revparse_single(start_oid.as_str(), session)?.oid;
        let resolved_end = repo.revparse_single(end_oid.as_str(), session)?.oid;
        Ok(CommitRange { repo, start_oid: resolved_start, end_oid: resolved_end, refname })
    }

    /// Create a new CommitRange with automatic refname inference.
    /// If refname is None, tries to find a single ref pointing to end_oid.
    /// If exactly one ref is found, uses that. Otherwise falls back to current HEAD.
    pub fn new_infer_refname(
        repo: &'a Repository,
        start_oid: String,
        end_oid: String,
        refname: Option<String>,
        session: &mut Session,
    ) -> (r: Result<CommitRange<'a>, Stop>)
        ensures
            (seen(r), final(session)@) == inferring_range_run(
                repo.deep_view(),
                start_oid@,
                end_oid@,
                refname.deep_view(),
                old(session)@,
            ),
    {
        // Resolve start_oid and end_oid to actual commit SHAs
        let resolved_start = repo.revparse_single(start_oid.as_str(), session)?.oid;
        let resolved_end = repo.revparse_single(end_oid.as_str(), session)?.oid;
        let inferred_refname = match refname {
            Some(name) => name,
            None => infer_refname(repo, resolved_end.as_str(), session)?,
        };
        Ok(
            CommitRange {
                repo,
                start_oid: resolved_start,
                end_oid: resolved_end,
                refname: inferred_refname,
            },
        )
    }

    pub fn repo(&self) -> (r: &'a Repository)
        ensures
            r.deep_view() == self.deep_view().repo,
    {
        self.repo
    }

    /// The commit before the first of the range.
    pub fn start_text(&self) -> (r: &str)
        ensures
            r@ == self.deep_view().start_oid,
    {
        self.start_oid.as_str()
    }

    /// The last commit of the range.
    pub fn end_text(&self) -> (r: &str)
        ensures
            r@ == self.deep_view().end_oid,
    {
        self.end_oid.as_str()
    }

    /// The reference that the range is on.
    pub fn refname_text(&self) -> (r: &str)
        ensures
            r@ == self.deep_view().refname,
    {
        self.refname.as_str()
    }

    pub fn is_valid(&self, session: &mut Session) -> (r: Result<(), Stop>)
        ensures
            (seen(r), final(session)@) == is_valid_run(self.deep_view(), old(session)@),
    {
        // Check that both commits exist
        self.repo.find_commit(self.start_oid.clone(), session)?;
        self.repo.find_commit(self.end_oid.clone(), session)?;
        // Check that both commits exist on the refname
        let message = join2(
            join3(
                "Commit ",
                self.start_oid.as_str(),
                " is not reachable from refname ",
            ).as_str(),
            self.refname.as_str(),
        );
        self.repo.check_ancestor(
            self.start_oid.as_str(),
            self.refname.as_str(),
            message,
            session,
        )?;
        let message = join2(
            join3("Commit ", self.end_oid.as_str(), " is not reachable from refname ").as_str(),
            self.refname.as_str(),
        );
        self.repo.check_ancestor(self.end_oid.as_str(), self.refname.as_str(), message, session)?;
        // Check that start is an ancestor of end (direct path between them)
        let message = join2(
            join3("Commit ", self.start_oid.as_str(), " is not an ancestor of ").as_str(),
            self.end_oid.as_str(),
        );
        self.repo.check_ancestor(self.start_oid.as_str(), self.end_oid.as_str(), message, session)
    }

    pub fn length(&self, session: &mut Session) -> (r: Result<usize, Stop>)
        ensures
            (seen_count(r), final(session)@) == length_run(self.deep_view(), old(session)@),
    {
        // Use git rev-list --count to get the number of commits between start and end
        // Format: start_oid..end_oid means commits reachable from end_oid but not from start_oid
        let mut args = self.repo.global_args_for_exec();
        word(&mut args, "rev-list");
        word(&mut args, "--count");
        word(&mut args, join3(self.start_oid.as_str(), "..", self.end_oid.as_str()).as_str());
        match exec_git(session, args)? {
            Ok(out) => {
                let text = lenient_text(out);
                match parse_number(trim(text.as_str()).as_str(), usize::MAX as u64) {
                    Some(n) => Ok(n as usize),
                    None => Ok(0),
                }
            },
            // If they don't share lineage or error occurs, return 0
            Err(_) => Ok(0),
        }
    }

    /// The commits of the range, one after the other.
    pub fn into_iter(self, session: &mut Session) -> (r: Result<CommitRangeIterator<'a>, Stop>)
        ensures
            (seen(r), final(session)@) == as_rest(
                self.deep_view().repo,
                range_commits_run(self.deep_view(), old(session)@),
            ),
    {
        // Use git rev-list to get all commits between start and end
        // Format: start_oid..end_oid means commits reachable from end_oid but not from start_oid
        let mut args = self.repo.global_args_for_exec();
        word(&mut args, "rev-list");
        word(&mut args, join3(self.start_oid.as_str(), "..", self.end_oid.as_str()).as_str());
        let commit_oids: Vec<String> = match exec_git(session, args)? {
            Ok(out) => {
                let text = lenient_text(out);
                read_trimmed_lines(text.as_str())
            },
            // If they don't share lineage or error occurs, return empty
            Err(_) => no_names(),
        };
        let r = CommitRangeIterator { repo: self.repo, commit_oids, index: 0 };
        assert(r.deep_view().rest =~= commit_oids.deep_view());
        Ok(r)
    }
}

fn infer_refname(repo: &Repository, oid: &str, session: &mut Session) -> (r: Result<String, Stop>)
    ensures
        (seen(r), final(session)@) == inferred_refname_run(repo.deep_view(), oid@, old(session)@),
{
    // Try to find refs pointing to resolved end_oid
    let mut args = repo.global_args_for_exec();
    word(&mut args, "for-each-ref");
    word(&mut args, "--points-at");
    word(&mut args, oid);
    word(&mut args, "--format=%(refname)");
    let refs = match exec_git(session, args)? {
        Ok(out) => {
            let text = lenient_text(out);
            read_trimmed_lines(text.as_str())
        },
        Err(_) => no_names(),
    };
    let ghost names = refs.deep_view();
    // If exactly one ref found, use it
    if refs.len() == 1 {
        assert(names[0] == refs@[0]@);
        Ok(refs[0].clone())
    } else {
        // Fall back to current HEAD
        match catch(repo.head(session))? {
            Ok(head_ref) => Ok(head_ref.ref_name),
            Err(_) => Ok("HEAD".to_string()),
        }
    }
}

/// The type of an object.
pub open spec fn object_type_run(repo: RepositoryView, oid: Seq<char>, s: Tape) -> Run<Seq<char>> {
    git_line(s, repo.args().push("cat-file"@).push("-t"@).push(oid))
}

// ---------------------------------------------------------------------------------------------
// Repositories
// ---------------------------------------------------------------------------------------------
/// The object with an id, which has to be of a type.
pub open spec fn find_run(
    repo: RepositoryView,
    object_type: Seq<char>,
    oid: Seq<char>,
    s: Tape,
) -> Run<ObjectView> {
    match object_type_run(repo, oid, s) {
        (Ok(typ), s1) => if typ == object_type {
            (Ok(ObjectView { repo, oid }), s1)
        } else {
            failed(
                GitAiErrorView::Generic(
                    "Object is not a "@ + object_type + ": "@ + oid + " (type: "@ + typ + ")"@,
                ),
                s1,
            )
        },
        (Err(stop), s1) => (Err(stop), s1),
    }
}

/// The repository with what HEAD was before a command, where that was not known and can be found.
pub open spec fn pre_command_head_run(repo: RepositoryView, s: Tape) -> Run<RepositoryView> {
    if repo.pre_command_base_commit is Some || repo.pre_command_refname is Some {
        (Ok(repo), s)
    } else {
        match caught(head_run(repo, s)) {
            (Ok(Ok(head)), s1) => match caught(target_run(repo, head.ref_name, s1)) {
                (Ok(Ok(target)), s2) => (
                    Ok(
                        RepositoryView {
                            pre_command_base_commit: Some(target),
                            pre_command_refname: Some(head.ref_name),
                            ..repo
                        },
                    ),
                    s2,
                ),
                (Ok(Err(_)), s2) => (Ok(repo), s2),
                (Err(stop), s2) => (Err(stop), s2),
            },
            (Ok(Err(_)), s1) => (Ok(repo), s1),
            (Err(stop), s1) => (Err(stop), s1),
        }
    }
}

/// The path that a git command writes, which has to be a directory.
pub open spec fn directory_run(s: Tape, args: Seq<Seq<char>>) -> Run<Seq<char>> {
    match git_line(s, args) {
        (Ok(path), s1) => match asked_flag(s1, RequestView::IsDir { path }) {
            (Ok(true), s2) => (Ok(path), s2),
            (Ok(false), s2) => failed(
                GitAiErrorView::Generic("Git directory does not exist: "@ + path),
                s2,
            ),
            (Err(stop), s2) => (Err(stop), s2),
        },
        (Err(stop), s1) => (Err(stop), s1),
    }
}

fn find_directory(args: Vec<String>, session: &mut Session) -> (r: Result<String, Stop>)
    ensures
        (seen(r), final(session)@) == directory_run(old(session)@, args.deep_view()),
{
    let path = git_output_line(session, args)?;
    if session.ask_flag(Request::IsDir { path: path.clone() })? {
        Ok(path)
    } else {
        Err(
            Stop::Fail(
                GitAiError::Generic(join2("Git directory does not exist: ", path.as_str())),
            ),
        )
    }
}

/// The working directory, found once; what was found the first time is what later calls return.
pub open spec fn workdir_run(repo: RepositoryView, s: Tape) -> (Run<Seq<char>>, RepositoryView) {
    match repo.workdir_cache {
        Some(Ok(path)) => ((Ok(path), s), repo),
        Some(Err(e)) => (failed(e, s), repo),
        None => match directory_run(s, repo.args().push("rev-parse"@).push("--show-toplevel"@)) {
            (Ok(path), s1) => (
                (Ok(path), s1),
                RepositoryView { workdir_cache: Some(Ok(path)), ..repo },
            ),
            (Err(StopView::Fail(e)), s1) => (
                failed(e, s1),
                RepositoryView { workdir_cache: Some(Err(e)), ..repo },
            ),
            (Err(stop), s1) => ((Err(stop), s1), repo),
        },
    }
}

/// Asking for the working directory again gives the same answer and asks git nothing.
pub proof fn law_workdir_once(repo: RepositoryView, s: Tape, later: Tape)
    requires
        workdir_run(repo, s).0.0 is Ok || workdir_run(repo, s).0.0->Err_0 is Fail,
    ensures
        workdir_run(workdir_run(repo, s).1, later) == (
            (workdir_run(repo, s).0.0, later),
            workdir_run(repo, s).1,
        ),
{
}

/// The names of the remotes, none where git names none.
pub open spec fn remotes_run(repo: RepositoryView, s: Tape) -> Run<Seq<Seq<char>>> {
    match git_line(s, repo.args().push("remote"@)) {
        (Ok(text), s1) => (
            Ok(
                if text.len() == 0 {
                    Seq::empty()
                } else {
                    split_at_char(text, '\n')
                },
            ),
            s1,
        ),
        (Err(stop), s1) => (Err(stop), s1),
    }
}

/// Each remote once, with the first URL given for it, from lines that start with a name and a URL.
pub open spec fn remote_urls(all: Seq<Seq<char>>) -> Seq<(Seq<char>, Seq<char>)>
    decreases all.len(),
{
    if all.len() == 0 {
        Seq::empty()
    } else {
        let before = remote_urls(all.drop_last());
        let words = words_of(all.last());
        if words.len() >= 2 && !has_key(before, words[0]) {
            before.push((words[0], words[1]))
        } else {
            before
        }
    }
}

/// No remote is listed twice.
pub proof fn law_remote_urls_once(all: Seq<Seq<char>>)
    ensures
        crate::assoc::keys_unique(remote_urls(all)),
    decreases all.len(),
{
    if all.len() > 0 {
        law_remote_urls_once(all.drop_last());
        let before = remote_urls(all.drop_last());
        let words = words_of(all.last());
        crate::assoc::lemma_place_bounds(before, words[0]);
    }
}

/// The remotes with their URLs.
pub open spec fn remotes_with_urls_run(repo: RepositoryView, s: Tape) -> Run<
    Seq<(Seq<char>, Seq<char>)>,
> {
    match git_line(s, repo.args().push("remote"@).push("-v"@)) {
        (Ok(text), s1) => (Ok(remote_urls(split_at_char(text, '\n'))), s1),
        (Err(stop), s1) => (Err(stop), s1),
    }
}

/// `origin` where there is such a remote, otherwise the first.
pub open spec fn default_remote(remotes: Seq<Seq<char>>) -> Option<Seq<char>> {
    if remotes.len() == 0 {
        None
    } else if remotes.contains("origin"@) {
        Some("origin"@)
    } else {
        Some(remotes[0])
    }
}

/// A configured value, or none where git ends with exit code 1.
pub open spec fn config_get_run(repo: RepositoryView, key: Seq<char>, s: Tape) -> Run<
    Option<Seq<char>>,
> {
    match git_try(s, repo.args().push("config"@).push("--get"@).push(key)) {
        (Ok(Ok(out)), s1) => match as_trimmed(as_text((Ok(out), s1))) {
            (Ok(value), s2) => (Ok(Some(value)), s2),
            (Err(stop), s2) => (Err(stop), s2),
        },
        (Ok(Err(GitAiErrorView::GitCliError { code: Some(1), .. })), s1) => (Ok(None), s1),
        (Ok(Err(e)), s1) => failed(e, s1),
        (Err(stop), s1) => (Err(stop), s1),
    }
}

pub open spec fn config_set_run(
    repo: RepositoryView,
    key: Seq<char>,
    value: Seq<char>,
    s: Tape,
) -> Run<()> {
    match git_bytes(s, repo.args().push("config"@).push("set"@).push(key).push(value)) {
        (Ok(_), s1) => (Ok(()), s1),
        (Err(stop), s1) => (Err(stop), s1),
    }
}

/// Bytes are stored as a blob.
pub open spec fn blob_run(repo: RepositoryView, data: Seq<u8>, s: Tape) -> Run<Seq<char>> {
    as_trimmed(
        as_text(
            or_fail(
                git_run(
                    s,
                    repo.args().push("hash-object"@).push("-w"@).push("--stdin"@),
                    Seq::empty(),
                    Some(data),
                ),
            ),
        ),
    )
}

/// The content of a blob.
pub open spec fn blob_content_run(repo: RepositoryView, oid: Seq<char>, s: Tape) -> Run<Seq<u8>> {
    git_bytes(s, repo.args().push("cat-file"@).push("blob"@).push(oid))
}

/// A new reference.
pub open spec fn reference_run(
    repo: RepositoryView,
    name: Seq<char>,
    id: Seq<char>,
    force: bool,
    log_message: Seq<char>,
    s: Tape,
) -> Run<ReferenceView> {
    let verb = if force {
        "update"@
    } else {
        "create"@
    };
    let line = verb + " "@ + name + " "@ + trimmed(id) + "\n"@;
    match or_fail(
        git_run(
            s,
            repo.args().push("update-ref"@).push("--stdin"@).push("--create-reflog"@).push(
                "-m"@,
            ).push(log_message),
            Seq::empty(),
            Some(encode_utf8(line)),
        ),
    ) {
        (Ok(_), s1) => (Ok(ReferenceView { repo, ref_name: name }), s1),
        (Err(stop), s1) => (Err(stop), s1),
    }
}

pub open spec fn find_reference_run(repo: RepositoryView, name: Seq<char>, s: Tape) -> Run<
    ReferenceView,
> {
    match git_bytes(
        s,
        repo.args().push("show-ref"@).push("--verify"@).push("-s"@).push(name),
    ) {
        (Ok(_), s1) => (Ok(ReferenceView { repo, ref_name: name }), s1),
        (Err(stop), s1) => (Err(stop), s1),
    }
}

/// A merge base of two commits.
pub open spec fn merge_base_run(repo: RepositoryView, one: Seq<char>, two: Seq<char>, s: Tape) -> Run<
    Seq<char>,
> {
    git_line(s, repo.args().push("merge-base"@).push(one).push(two))
}

/// The tree that a merge gives in which conflicts are resolved in favour of the second commit.
pub open spec fn merge_favor_ours_run(
    repo: RepositoryView,
    base: Seq<char>,
    ours: Seq<char>,
    theirs: Seq<char>,
    s: Tape,
) -> Run<Seq<char>> {
    git_line(
        s,
        repo.args().push("merge-tree"@).push("--write-tree"@).push("--merge-base="@ + base).push(
            "-X"@,
        ).push("ours"@).push(ours).push(theirs),
    )
}

impl Repository {
    pub fn require_pre_command_head(&mut self, session: &mut Session) -> (r: Result<(), Stop>)
        ensures
            match r {
                Ok(()) => pre_command_head_run(old(self).deep_view(), old(session)@) == (
                    Ok::<RepositoryView, StopView>(final(self).deep_view()),
                    final(session)@,
                ),
                Err(stop) => pre_command_head_run(old(self).deep_view(), old(session)@) == (
                    Err::<RepositoryView, StopView>(stop.deep_view()),
                    final(session)@,
                ) && final(self).deep_view() == old(self).deep_view(),
            },
    {
        if self.pre_command_base_commit.is_some() || self.pre_command_refname.is_some() {
            return Ok(());
        }
        // Safely handle empty repositories

        let found: Option<(String, String)> = match catch(self.head(session))? {
            Ok(head_ref) => match catch(head_ref.target(session))? {
                Ok(target) => Some((target, head_ref.ref_name)),
                Err(_) => None,
            },
            Err(_) => None,
        };
        if let Some((target, refname)) = found {
            self.pre_command_base_commit = Some(target);
            self.pre_command_refname = Some(refname);
        }
        Ok(())
    }

    fn check_ancestor(
        &self,
        one: &str,
        other: &str,
        message: String,
        session: &mut Session,
    ) -> (r: Result<(), Stop>)
        ensures
            (seen(r), final(session)@) == ancestor_run(
                self.deep_view(),
                one@,
                other@,
                message@,
                old(session)@,
            ),
    {
        // Use git merge-base --is-ancestor <commit> <refname>
        let mut args = self.global_args_for_exec();
        word(&mut args, "merge-base");
        word(&mut args, "--is-ancestor");
        word(&mut args, one);
        word(&mut args, other);
        match exec_git(session, args)? {
            Ok(_) => Ok(()),
            Err(_) => Err(Stop::Fail(GitAiError::Generic(message))),
        }
    }

    // Retrieve and resolve the reference pointed at by HEAD.
    // If HEAD is a symbolic ref, return the refname (e.g., "refs/heads/main").
    // Otherwise, return "HEAD".
    pub fn head<'a>(&'a self, session: &mut Session) -> (r: Result<Reference<'a>, Stop>)
        ensures
            (seen(r), final(session)@) == head_run(self.deep_view(), old(session)@),
    {
        let mut args = self.global_args_for_exec();
        word(&mut args, "symbolic-ref");
        word(&mut args, "HEAD");
        match exec_git(session, args)? {
            Ok(out) => {
                let refname = output_text(out)?;
                Ok(Reference { repo: self, ref_name: trim(refname.as_str()) })
            },
            Err(_) => Ok(Reference { repo: self, ref_name: "HEAD".to_string() }),
        }
    }

    // Returns the path to the .git folder for normal repositories or the repository itself for bare repositories.
    pub fn path(&self) -> (r: &str)
        ensures
            r@ == self.deep_view().git_dir,
    {
        self.git_dir.as_str()
    }

    // Get the path of the working directory for this repository.
    pub fn workdir(&mut self, session: &mut Session) -> (r: Result<String, Stop>)
        ensures
            ((seen(r), final(session)@), final(self).deep_view()) == workdir_run(
                old(self).deep_view(),
                old(session)@,
            ),
    {
        match &self.workdir_cache {
            Some(Ok(path)) => {
                return Ok(path.clone());
            },
            Some(Err(e)) => {
                return Err(Stop::Fail(e.clone()));
            },
            None => {},
        }
        let mut args = self.global_args_for_exec();
        word(&mut args, "rev-parse");
        word(&mut args, "--show-toplevel");
        match find_directory(args, session) {
            Ok(path) => {
                self.workdir_cache = Some(Ok(path.clone()));
                Ok(path)
            },
            Err(Stop::Fail(e)) => {
                self.workdir_cache = Some(Err(e.clone()));
                Err(Stop::Fail(e))
            },
            Err(stop) => Err(stop),
        }
    }

    // List all remotes for a given repository
    pub fn remotes(&self, session: &mut Session) -> (r: Result<Vec<String>, Stop>)
        ensures
            (seen(r), final(session)@) == remotes_run(self.deep_view(), old(session)@),
    {
        let mut args = self.global_args_for_exec();
        word(&mut args, "remote");
        let remotes = git_output_line(session, args)?;
        proof {
            reveal_strlit("");
        }
        if same(remotes.as_str(), "") {
            let none: Vec<String> = Vec::new();
            assert(none.deep_view() =~= Seq::empty());
            return Ok(none);
        }
        assert(remotes@.len() > 0) by {
            if remotes@.len() == 0 {
                assert(remotes@ =~= ""@);
            }
        }
        Ok(split_char(remotes.as_str(), '\n'))
    }

    // List all remotes with their URLs as tuples (name, url)
    pub fn remotes_with_urls(&self, session: &mut Session) -> (r: Result<
        Vec<(String, String)>,
        Stop,
    >)
        ensures
            (seen(r), final(session)@) == remotes_with_urls_run(self.deep_view(), old(session)@),
    {
        let mut args = self.global_args_for_exec();
        word(&mut args, "remote");
        word(&mut args, "-v");
        let text = git_output_line(session, args)?;
        let all = split_char(text.as_str(), '\n');
        let ghost texts = all.deep_view();
        let mut remotes: Vec<(String, String)> = Vec::new();
        let mut i: usize = 0;
        assert(texts.take(0) =~= Seq::empty());
        assert(remotes.deep_view() =~= Seq::empty());
        while i < all.len()
            invariant
                i <= all@.len(),
                texts == all.deep_view(),
                remotes.deep_view() == remote_urls(texts.take(i as int)),
            decreases all@.len() - i,
        {
            assert(texts.take(i + 1).drop_last() =~= texts.take(i as int));
            assert(texts.take(i + 1).last() == all@[i as int]@);
            let parts = split_whitespace(all[i].as_str());
            let ghost words = parts.deep_view();
            let ghost before = remotes.deep_view();
            if parts.len() >= 2 {
                assert(words[0] == parts@[0]@ && words[1] == parts@[1]@);
                // Only add each remote once (git remote -v shows fetch and push)
                if find(&remotes, parts[0].as_str()).is_none() {
                    remotes.push((parts[0].clone(), parts[1].clone()));
                    assert(remotes.deep_view() =~= before.push((words[0], words[1])));
                }
            }
            i = i + 1;
        }
        assert(texts.take(i as int) =~= texts);
        Ok(remotes)
    }

    pub fn config_get_str(&self, key: &str, session: &mut Session) -> (r: Result<
        Option<String>,
        Stop,
    >)
        ensures
            (seen(r), final(session)@) == config_get_run(self.deep_view(), key@, old(session)@),
    {
        let mut args = self.global_args_for_exec();
        word(&mut args, "config");
        word(&mut args, "--get");
        word(&mut args, key);
        match exec_git(session, args)? {
            Ok(out) => {
                let value = output_text(out)?;
                Ok(Some(trim(value.as_str())))
            },
            Err(GitAiError::GitCliError { code: Some(1), .. }) => Ok(None),
            Err(e) => Err(Stop::Fail(e)),
        }
    }

    pub fn config_set_str(&self, key: &str, value: &str, session: &mut Session) -> (r: Result<
        (),
        Stop,
    >)
        ensures
            (seen(r), final(session)@) == config_set_run(
                self.deep_view(),
                key@,
                value@,
                old(session)@,
            ),
    {
        let mut args = self.global_args_for_exec();
        word(&mut args, "config");
        word(&mut args, "set");
        word(&mut args, key);
        word(&mut args, value);
        git_output(session, args)?;
        Ok(())
    }

    // Write an in-memory buffer to the ODB as a blob.
    // The Oid returned can in turn be passed to find_blob to get a handle to the blob.
    pub fn blob(&self, data: Vec<u8>, session: &mut Session) -> (r: Result<String, Stop>)
        ensures
            (seen(r), final(session)@) == blob_run(self.deep_view(), data@, old(session)@),
    {
        let mut args = self.global_args_for_exec();
        word(&mut args, "hash-object");
        word(&mut args, "-w");
        word(&mut args, "--stdin");
        let out = exec_git_stdin(session, args, data)?;
        let oid = output_text(out)?;
        Ok(trim(oid.as_str()))
    }

    // Create a new direct reference. This function will return an error if a reference already exists with the given name unless force is true, in which case it will be overwritten.
    pub fn reference<'a>(
        &'a self,
        name: &str,
        id: String,
        force: bool,
        log_message: &str,
        session: &mut Session,
    ) -> (r: Result<Reference<'a>, Stop>)
        ensures
            (seen(r), final(session)@) == reference_run(
                self.deep_view(),
                name@,
                id@,
                force,
                log_message@,
                old(session)@,
            ),
    {
        let mut args = self.global_args_for_exec();
        word(&mut args, "update-ref");
        word(&mut args, "--stdin");
        word(&mut args, "--create-reflog");
        word(&mut args, "-m");
        word(&mut args, log_message);
        let verb = if force {
            "update"
        } else {
            "create"
        };
        let start = join3(verb, " ", name);
        let line = join2(
            join3(start.as_str(), " ", trim(id.as_str()).as_str()).as_str(),
            "\n",
        );
        exec_git_stdin(session, args, line.as_str().as_bytes_vec())?;
        Ok(Reference { repo: self, ref_name: name.to_string() })
    }

    pub fn remote_head(&self, remote_name: &str, session: &mut Session) -> (r: Result<String, Stop>)
        ensures
            (seen(r), final(session)@) == git_line(
                old(session)@,
                self.deep_view().args().push("symbolic-ref"@).push(
                    "refs/remotes/"@ + remote_name@ + "/HEAD"@,
                ).push("--short"@),
            ),
    {
        let mut args = self.global_args_for_exec();
        word(&mut args, "symbolic-ref");
        word(&mut args, join3("refs/remotes/", remote_name, "/HEAD").as_str());
        word(&mut args, "--short");
        git_output_line(session, args)
    }

    // Lookup a reference to one of the objects in a repository. Requires full ref name.
    pub fn find_reference<'a>(&'a self, name: &str, session: &mut Session) -> (r: Result<
        Reference<'a>,
        Stop,
    >)
        ensures
            (seen(r), final(session)@) == find_reference_run(
                self.deep_view(),
                name@,
                old(session)@,
            ),
    {
        let mut args = self.global_args_for_exec();
        word(&mut args, "show-ref");
        word(&mut args, "--verify");
        word(&mut args, "-s");
        word(&mut args, name);
        git_output(session, args)?;
        Ok(Reference { repo: self, ref_name: name.to_string() })
    }

    // Find a merge base between two commits
    pub fn merge_base(&self, one: &str, two: &str, session: &mut Session) -> (r: Result<
        String,
        Stop,
    >)
        ensures
            (seen(r), final(session)@) == merge_base_run(
                self.deep_view(),
                one@,
                two@,
                old(session)@,
            ),
    {
        let mut args = self.global_args_for_exec();
        word(&mut args, "merge-base");
        word(&mut args, one);
        word(&mut args, two);
        git_output_line(session, args)
    }

    /// Perform a 3-way merge and return the merged tree OID.
    ///
    /// Uses `git merge-tree --write-tree` and resolves conflicts by favoring "ours".
    pub fn merge_commits_favor_ours(
        &self,
        base_commit: &Commit<'_>,
        ours_commit: &Commit<'_>,
        theirs_commit: &Commit<'_>,
        session: &mut Session,
    ) -> (r: Result<String, Stop>)
        ensures
            (seen(r), final(session)@) == merge_favor_ours_run(
                self.deep_view(),
                base_commit.deep_view().oid,
                ours_commit.deep_view().oid,
                theirs_commit.deep_view().oid,
                old(session)@,
            ),
    {
        let mut args = self.global_args_for_exec();
        word(&mut args, "merge-tree");
        word(&mut args, "--write-tree");
        word(&mut args, join2("--merge-base=", base_commit.oid.as_str()).as_str());
        word(&mut args, "-X");
        word(&mut args, "ours");
        word(&mut args, ours_commit.oid.as_str());
        word(&mut args, theirs_commit.oid.as_str());
        git_output_line(session, args)
    }

    // Find a single object, as specified by a revision string.
    pub fn revparse_single<'a>(&'a self, spec: &str, session: &mut Session) -> (r: Result<
        Object<'a>,
        Stop,
    >)
        ensures
            (seen(r), final(session)@) == as_object(
                self.deep_view(),
                rev_parse_run(self.deep_view(), spec@, old(session)@),
            ),
    {
        let oid = self.rev_parse(spec, session)?;
        Ok(Object { repo: self, oid })
    }

    // Internal util to get the git object type for a given OID
    fn object_type(&self, oid: &str, session: &mut Session) -> (r: Result<String, Stop>)
        ensures
            (seen(r), final(session)@) == object_type_run(self.deep_view(), oid@, old(session)@),
    {
        let mut args = self.global_args_for_exec();
        word(&mut args, "cat-file");
        word(&mut args, "-t");
        word(&mut args, oid);
        git_output_line(session, args)
    }

    fn check_type(&self, object_type: &str, oid: &str, session: &mut Session) -> (r: Result<
        (),
        Stop,
    >)
        ensures
            match find_run(self.deep_view(), object_type@, oid@, old(session)@) {
                (Ok(object), s1) => r is Ok && final(session)@ == s1 && object == (ObjectView {
                    repo: self.deep_view(),
                    oid: oid@,
                }),
                (Err(stop), s1) => r is Err && r->Err_0.deep_view() == stop && final(session)@
                    == s1,
            },
    {
        let typ = self.object_type(oid, session)?;
        if same(typ.as_str(), object_type) {
            Ok(())
        } else {
            let start = join3("Object is not a ", object_type, ": ");
            let middle = join3(start.as_str(), oid, " (type: ");
            let message = join3(middle.as_str(), typ.as_str(), ")");
            Err(Stop::Fail(GitAiError::Generic(message)))
        }
    }

    // Lookup a reference to one of the commits in a repository.
    pub fn find_commit<'a>(&'a self, oid: String, session: &mut Session) -> (r: Result<
        Commit<'a>,
        Stop,
    >)
        ensures
            (seen(r), final(session)@) == find_run(
                self.deep_view(),
                "commit"@,
                oid@,
                old(session)@,
            ),
    {
        self.check_type("commit", oid.as_str(), session)?;
        Ok(Commit { repo: self, oid })
    }

    // Lookup a reference to one of the objects in a repository.
    pub fn find_blob<'a>(&'a self, oid: String, session: &mut Session) -> (r: Result<
        Blob<'a>,
        Stop,
    >)
        ensures
            (seen(r), final(session)@) == find_run(self.deep_view(), "blob"@, oid@, old(session)@),
    {
        self.check_type("blob", oid.as_str(), session)?;
        Ok(Blob { repo: self, oid })
    }

    // Lookup a reference to one of the objects in a repository.
    pub fn find_tree<'a>(&'a self, oid: String, session: &mut Session) -> (r: Result<
        Tree<'a>,
        Stop,
    >)
        ensures
            (seen(r), final(session)@) == find_run(self.deep_view(), "tree"@, oid@, old(session)@),
    {
        self.check_type("tree", oid.as_str(), session)?;
        Ok(Tree { repo: self, oid })
    }
}

// ---------------------------------------------------------------------------------------------
// The commits of a branch
// ---------------------------------------------------------------------------------------------
/// The full name of a branch, by its own words.
pub open spec fn qualified(branch: Seq<char>) -> Seq<char> {
    if has_prefix(branch, "refs/"@) {
        branch
    } else {
        "refs/heads/"@ + branch
    }
}

fn qualify(branch: &str) -> (r: String)
    ensures
        r@ == qualified(branch@),
{
    if starts_with(branch, "refs/") {
        branch.to_string()
    } else {
        join2("refs/heads/", branch)
    }
}

/// The full name of a branch, by git's words where it has some.
pub open spec fn full_name_run(repo: RepositoryView, branch: Seq<char>, s: Tape) -> Run<Seq<char>> {
    match git_try(
        s,
        repo.args().push("rev-parse"@).push("--verify"@).push("--symbolic-full-name"@).push(branch),
    ) {
        (Ok(Ok(out)), s1) => {
            let name = trimmed(text_or_empty(out));
            if name.len() == 0 {
                (Ok(qualified(branch)), s1)
            } else {
                (Ok(name), s1)
            }
        },
        (Ok(Err(_)), s1) => (Ok(qualified(branch)), s1),
        (Err(stop), s1) => (Err(stop), s1),
    }
}

/// The names without those that are `name`.
pub open spec fn without_name(names: Seq<Seq<char>>, name: Seq<char>) -> Seq<Seq<char>>
    decreases names.len(),
{
    if names.len() == 0 {
        names
    } else if names.last() == name {
        without_name(names.drop_last(), name)
    } else {
        without_name(names.drop_last(), name).push(names.last())
    }
}

fn drop_name(names: &Vec<String>, name: &str) -> (r: Vec<String>)
    ensures
        r.deep_view() == without_name(names.deep_view(), name@),
{
    let ghost all = names.deep_view();
    let mut r: Vec<String> = Vec::new();
    let mut i: usize = 0;
    assert(r.deep_view() =~= all.take(0));
    while i < names.len()
        invariant
            i <= names@.len(),
            all == names.deep_view(),
            r.deep_view() == without_name(all.take(i as int), name@),
        decreases names@.len() - i,
    {
        let ghost before = r.deep_view();
        assert(all.take(i + 1).drop_last() =~= all.take(i as int));
        assert(all.take(i + 1).last() == names@[i as int]@);
        if !same(names[i].as_str(), name) {
            r.push(names[i].clone());
            assert(r.deep_view() =~= before.push(names@[i as int]@));
        }
        i = i + 1;
    }
    assert(all.take(i as int) =~= all);
    r
}

/// The range of the commits that `git log` writes, oldest first.
pub open spec fn logged_range_run(
    repo: RepositoryView,
    branch: Seq<char>,
    others: Seq<Seq<char>>,
    s: Tape,
) -> Run<CommitRangeView> {
    let log = repo.args().push("log"@).push("--format=%H"@).push("--reverse"@).push(
        "--ancestry-path"@,
    ).push(branch);
    match git_try(
        s,
        if others.len() > 0 {
            log.push("--not"@) + others
        } else {
            log
        },
    ) {
        (Ok(Ok(out)), s1) => match crate::text::utf8_text(out) {
            Some(text) => {
                let commits = filled_lines(text);
                if commits.len() == 0 {
                    failed(
                        GitAiErrorView::Generic(
                            "No commits found on branch "@ + branch + " unique to this branch"@,
                        ),
                        s1,
                    )
                } else {
                    commit_range_run(repo, commits[0], commits.last(), branch, s1)
                }
            },
            None => failed(
                GitAiErrorView::Caused(
                    "Failed to parse log output: "@,
                    Box::new(GitAiErrorView::FromUtf8Error),
                ),
                s1,
            ),
        },
        (Ok(Err(e)), s1) => failed(
            GitAiErrorView::Caused(
                "Failed to get commit log for "@ + branch + ": "@,
                Box::new(e),
            ),
            s1,
        ),
        (Err(stop), s1) => (Err(stop), s1),
    }
}

/// The range from the first to the last of the commits that only this branch has.
pub open spec fn commit_range_on_branch_run(repo: RepositoryView, branch: Seq<char>, s: Tape) -> Run<
    CommitRangeView,
> {
    match full_name_run(repo, branch, s) {
        (Ok(name), s1) => match git_text(
            s1,
            repo.args().push("for-each-ref"@).push("--format=%(refname)"@).push("refs/heads"@),
        ) {
            (Ok(text), s2) => logged_range_run(
                repo,
                branch,
                without_name(trimmed_lines(text), name),
                s2,
            ),
            (Err(stop), s2) => (Err(stop), s2),
        },
        (Err(stop), s1) => (Err(stop), s1),
    }
}

// ---------------------------------------------------------------------------------------------
// Making commits
// ---------------------------------------------------------------------------------------------
/// A time as git takes it: the seconds since 1970, and the offset as a sign, hours and minutes.
pub open spec fn git_date(t: TimeView) -> Seq<char> {
    let distance: nat = if t.offset_minutes >= 0 {
        t.offset_minutes as nat
    } else {
        (-t.offset_minutes) as nat
    };
    signed_decimal(t.seconds) + (if t.offset_minutes >= 0 {
        " +"@
    } else {
        " -"@
    }) + two_digits(distance / 60) + two_digits(distance % 60)
}

/// A time as git takes it.
pub fn git_date_text(t: &Time) -> (r: String)
    ensures
        r@ == git_date(t.deep_view()),
{
    let offset: i64 = t.offset_minutes as i64;
    let (sign, distance): (&str, i64) = if offset >= 0 {
        (" +", offset)
    } else {
        (" -", -offset)
    };
    let d: u64 = distance as u64;
    let start = join2(signed_decimal_text(t.seconds).as_str(), sign);
    join3(
        start.as_str(),
        two_digits_text((d / 60) as u128).as_str(),
        two_digits_text((d % 60) as u128).as_str(),
    )
}

/// The date of a signature as git takes it.
pub open spec fn signature_date(signature: SignatureView) -> Seq<char> {
    git_date(time_read(instant_of(signature.time_iso8601)))
}

/// What `git commit-tree` is told of the author and the committer.
pub open spec fn commit_env(author: SignatureView, committer: SignatureView) -> Seq<
    (Seq<char>, Seq<char>),
> {
    seq![
        ("GIT_AUTHOR_NAME"@, trimmed(author.name)),
        ("GIT_AUTHOR_EMAIL"@, trimmed(author.email)),
        ("GIT_AUTHOR_DATE"@, signature_date(author)),
        ("GIT_COMMITTER_NAME"@, trimmed(committer.name)),
        ("GIT_COMMITTER_EMAIL"@, trimmed(committer.email)),
        ("GIT_COMMITTER_DATE"@, signature_date(committer)),
    ]
}

/// The arguments that name the parents of a new commit.
pub open spec fn parent_args(parents: Seq<Seq<char>>) -> Seq<Seq<char>>
    decreases parents.len(),
{
    if parents.len() == 0 {
        Seq::empty()
    } else {
        parent_args(parents.drop_last()).push("-p"@).push(parents.last())
    }
}

/// What a reference points at now, if it is there.
pub open spec fn tip_run(repo: RepositoryView, target: Seq<char>, s: Tape) -> Run<
    Option<Seq<char>>,
> {
    match git_try(s, repo.args().push("rev-parse"@).push("--verify"@).push(target)) {
        (Ok(Ok(out)), s1) => (Ok(Some(trimmed(utf8_lossy(out)))), s1),
        (Ok(Err(_)), s1) => (Ok(None), s1),
        (Err(stop), s1) => (Err(stop), s1),
    }
}

/// Why a reference with this tip may not be moved to a commit with these parents.
pub open spec fn tip_refusal(
    tip: Option<Seq<char>>,
    parents: Seq<Seq<char>>,
    target: Seq<char>,
) -> Option<Seq<char>> {
    match tip {
        Some(tip) => if parents.len() == 0 {
            Some("Ref exists but no parents were provided"@)
        } else if trimmed(parents[0]) != tip {
            Some(
                "First parent ("@ + parents[0] + ") != current tip ("@ + tip + ") of "@ + target,
            )
        } else {
            None
        },
        None => None,
    }
}

/// A reference is moved to a new commit, unless it is there and not at the commit's first parent.
pub open spec fn update_ref_run(
    repo: RepositoryView,
    target: Seq<char>,
    message: Seq<char>,
    new_commit: Seq<char>,
    parents: Seq<Seq<char>>,
    s: Tape,
) -> Run<()> {
    match tip_run(repo, target, s) {
        (Ok(tip), s1) => match tip_refusal(tip, parents, target) {
            Some(refusal) => failed(GitAiErrorView::Generic(refusal), s1),
            None => {
                let update = repo.args().push("update-ref"@).push("-m"@).push(message).push(
                    target,
                ).push(new_commit);
                match git_bytes(
                    s1,
                    match tip {
                        Some(tip) => update.push(tip),
                        None => update,
                    },
                ) {
                    (Ok(_), s2) => (Ok(()), s2),
                    (Err(stop), s2) => (Err(stop), s2),
                }
            },
        },
        (Err(stop), s1) => (Err(stop), s1),
    }
}

/// The reference that is to be moved: what HEAD names, where HEAD is asked for.
pub open spec fn target_ref_run(repo: RepositoryView, update_ref: Seq<char>, s: Tape) -> Run<
    Seq<char>,
> {
    if update_ref == "HEAD"@ {
        match head_run(repo, s) {
            (Ok(head), s1) => (Ok(head.ref_name), s1),
            (Err(stop), s1) => (Err(stop), s1),
        }
    } else {
        (Ok(update_ref), s)
    }
}

/// A new commit.
pub open spec fn commit_run(
    repo: RepositoryView,
    update_ref: Option<Seq<char>>,
    author: SignatureView,
    committer: SignatureView,
    message: Seq<char>,
    tree: Seq<char>,
    parents: Seq<Seq<char>>,
    s: Tape,
) -> Run<Seq<char>> {
    if trimmed(author.name).len() == 0 || trimmed(author.email).len() == 0 {
        failed(GitAiErrorView::Generic("Missing author name or email"@), s)
    } else if trimmed(committer.name).len() == 0 || trimmed(committer.email).len() == 0 {
        failed(GitAiErrorView::Generic("Missing committer name or email"@), s)
    } else {
        match as_trimmed(
            as_text(
                or_fail(
                    git_run(
                        s,
                        repo.args().push("commit-tree"@).push(tree) + parent_args(parents),
                        commit_env(author, committer),
                        Some(encode_utf8(message)),
                    ),
                ),
            ),
        ) {
            (Ok(new_commit), s1) => match update_ref {
                Some(update_ref) => match target_ref_run(repo, update_ref, s1) {
                    (Ok(target), s2) => match update_ref_run(
                        repo,
                        target,
                        message,
                        new_commit,
                        parents,
                        s2,
                    ) {
                        (Ok(_), s3) => (Ok(new_commit), s3),
                        (Err(stop), s3) => (Err(stop), s3),
                    },
                    (Err(stop), s2) => (Err(stop), s2),
                },
                None => (Ok(new_commit), s1),
            },
            (Err(stop), s1) => (Err(stop), s1),
        }
    }
}

/// The ids of commits.
pub open spec fn commit_ids(commits: Seq<&Commit<'_>>) -> Seq<Seq<char>> {
    Seq::new(commits.len(), |i: int| commits[i].deep_view().oid)
}

fn identity(name: &str, value: String) -> (r: (String, String))
    ensures
        r.deep_view() == (name@, value@),
{
    (name.to_string(), value)
}

fn build_commit_env(author: &Signature<'_>, committer: &Signature<'_>) -> (r: Vec<(String, String)>)
    ensures
        r.deep_view() == commit_env(author.deep_view(), committer.deep_view()),
{
    let mut env: Vec<(String, String)> = Vec::new();
    env.push(identity("GIT_AUTHOR_NAME", trim(author.name.as_str())));
    env.push(identity("GIT_AUTHOR_EMAIL", trim(author.email.as_str())));
    env.push(identity("GIT_AUTHOR_DATE", git_date_text(&author.when())));
    env.push(identity("GIT_COMMITTER_NAME", trim(committer.name.as_str())));
    env.push(identity("GIT_COMMITTER_EMAIL", trim(committer.email.as_str())));
    env.push(identity("GIT_COMMITTER_DATE", git_date_text(&committer.when())));
    assert(env.deep_view() =~= commit_env(author.deep_view(), committer.deep_view()));
    env
}

impl Repository {
    pub fn commit_range_on_branch<'a>(
        &'a self,
        branch_refname: &str,
        session: &mut Session,
    ) -> (r: Result<CommitRange<'a>, Stop>)
        ensures
            (seen(r), final(session)@) == commit_range_on_branch_run(
                self.deep_view(),
                branch_refname@,
                old(session)@,
            ),
    {
        // Normalize the provided branch ref to fully qualified using rev-parse
        let fq_branch = self.full_branch_name(branch_refname, session)?;
        // List all local branches
        let mut refs_args = self.global_args_for_exec();
        word(&mut refs_args, "for-each-ref");
        word(&mut refs_args, "--format=%(refname)");
        word(&mut refs_args, "refs/heads");
        let refs_str = git_output_text(session, refs_args)?;
        let all_branches = read_trimmed_lines(refs_str.as_str());
        let other_branches = drop_name(&all_branches, fq_branch.as_str());
        // Build: git log --format=%H --reverse --ancestry-path <branch> --not <other branches>
        let mut log_args = self.global_args_for_exec();
        word(&mut log_args, "log");
        word(&mut log_args, "--format=%H");
        word(&mut log_args, "--reverse");
        word(&mut log_args, "--ancestry-path");
        word(&mut log_args, branch_refname);
        if other_branches.len() > 0 {
            word(&mut log_args, "--not");
            extend(&mut log_args, &other_branches);
        }
        let log_output = match exec_git(session, log_args)? {
            Ok(out) => out,
            Err(e) => {
                let message = join3("Failed to get commit log for ", branch_refname, ": ");
                return Err(Stop::Fail(GitAiError::Caused(message, Box::new(e))));
            },
        };
        let log_str = match crate::text::from_utf8(log_output) {
            Some(text) => text,
            None => {
                let message = "Failed to parse log output: ".to_string();
                let cause = GitAiError::FromUtf8Error;
                assert(cause.deep_view() == GitAiErrorView::FromUtf8Error);
                return Err(Stop::Fail(GitAiError::Caused(message, Box::new(cause))));
            },
        };
        let commits = read_filled_lines(log_str.as_str());
        let ghost oids = commits.deep_view();
        let n: usize = commits.len();
        if n == 0 {
            return Err(
                Stop::Fail(
                    GitAiError::Generic(
                        join3(
                            "No commits found on branch ",
                            branch_refname,
                            " unique to this branch",
                        ),
                    ),
                ),
            );
        }
        assert(oids[0] == commits@[0]@ && oids.last() == commits@[n - 1]@);
        CommitRange::new(
            self,
            commits[0].clone(),
            commits[n - 1].clone(),
            branch_refname.to_string(),
            session,
        )
    }

    fn full_branch_name(&self, branch: &str, session: &mut Session) -> (r: Result<String, Stop>)
        ensures
            (seen(r), final(session)@) == full_name_run(self.deep_view(), branch@, old(session)@),
    {
        let mut args = self.global_args_for_exec();
        word(&mut args, "rev-parse");
        word(&mut args, "--verify");
        word(&mut args, "--symbolic-full-name");
        word(&mut args, branch);
        match exec_git(session, args)? {
            Ok(out) => {
                let text = lenient_text(out);
                let name = trim(text.as_str());
                if name.as_str().is_empty() {
                    Ok(qualify(branch))
                } else {
                    Ok(name)
                }
            },
            Err(_) => Ok(qualify(branch)),
        }
    }

    fn current_tip(&self, target: &str, session: &mut Session) -> (r: Result<Option<String>, Stop>)
        ensures
            (seen(r), final(session)@) == tip_run(self.deep_view(), target@, old(session)@),
    {
        // Capture current tip if any: rev-parse --verify <target_ref>
        let mut args = self.global_args_for_exec();
        word(&mut args, "rev-parse");
        word(&mut args, "--verify");
        word(&mut args, target);
        match exec_git(session, args)? {
            Ok(out) => {
                let text = from_utf8_lossy(out.as_slice());
                Ok(Some(trim(text.as_str())))
            },
            Err(_) => Ok(None),
        }
    }

    fn move_ref(
        &self,
        target_ref: &str,
        message: &str,
        new_commit: &str,
        parents: &[&Commit<'_>],
        session: &mut Session,
    ) -> (r: Result<(), Stop>)
        ensures
            (seen(r), final(session)@) == update_ref_run(
                self.deep_view(),
                target_ref@,
                message@,
                new_commit@,
                commit_ids(parents@),
                old(session)@,
            ),
    {
        let old_tip = self.current_tip(target_ref, session)?;
        // Enforce first-parent matches current tip if ref exists
        if let Some(tip) = &old_tip {
            if parents.len() == 0 {
                return Err(Stop::Fail(generic("Ref exists but no parents were provided")));
            }
            let first_parent = parents[0].id();
            assert(commit_ids(parents@)[0] == first_parent@);
            if !same(trim(first_parent.as_str()).as_str(), tip.as_str()) {
                let start = join3("First parent (", first_parent.as_str(), ") != current tip (");
                let middle = join3(start.as_str(), tip.as_str(), ") of ");
                let refusal = join2(middle.as_str(), target_ref);
                return Err(Stop::Fail(GitAiError::Generic(refusal)));
            }
        }
        // Update the ref atomically (include OLD_TIP for CAS if present)

        let mut args = self.global_args_for_exec();
        word(&mut args, "update-ref");
        word(&mut args, "-m");
        word(&mut args, message);
        word(&mut args, target_ref);
        word(&mut args, new_commit);
        if let Some(tip) = &old_tip {
            word(&mut args, tip.as_str());
        }
        git_output(session, args)?;
        Ok(())
    }

    // Create new commit in the repository If the update_ref is not None, name of the reference that will be updated to point to this commit. If the reference is not direct, it will be resolved to a direct reference. Use “HEAD” to update the HEAD of the current branch and make it point to this commit. If the reference doesn’t exist yet, it will be created. If it does exist, the first parent must be the tip of this branch.
    pub fn commit(
        &self,
        update_ref: Option<&str>,
        author: &Signature<'_>,
        committer: &Signature<'_>,
        message: &str,
        tree: &Tree<'_>,
        parents: &[&Commit<'_>],
        session: &mut Session,
    ) -> (r: Result<String, Stop>)
        ensures
            (seen(r), final(session)@) == commit_run(
                self.deep_view(),
                update_ref.deep_view(),
                author.deep_view(),
                committer.deep_view(),
                message@,
                tree.deep_view().oid,
                commit_ids(parents@),
                old(session)@,
            ),
    {
        // Validate identities
        if crate::text::is_blank(author.name.as_str()) || crate::text::is_blank(
            author.email.as_str(),
        ) {
            return Err(Stop::Fail(generic("Missing author name or email")));
        }
        if crate::text::is_blank(committer.name.as_str()) || crate::text::is_blank(
            committer.email.as_str(),
        ) {
            return Err(Stop::Fail(generic("Missing committer name or email")));
        }
        // Build env for commit-tree

        let env = build_commit_env(author, committer);
        // 1) Create the commit object via commit-tree, piping message on stdin
        let mut ct_args = self.global_args_for_exec();
        word(&mut ct_args, "commit-tree");
        word(&mut ct_args, tree.oid.as_str());
        let ghost start = ct_args.deep_view();
        let ghost ids = commit_ids(parents@);
        let mut i: usize = 0;
        let n: usize = parents.len();
        assert(start + parent_args(ids.take(0)) =~= start);
        while i < n
            invariant
                i <= n,
                n == parents@.len(),
                ids == commit_ids(parents@),
                ct_args.deep_view() == start + parent_args(ids.take(i as int)),
            decreases n - i,
        {
            let p = parents[i];
            word(&mut ct_args, "-p");
            word(&mut ct_args, p.oid.as_str());
            assert(ids.take(i + 1).drop_last() =~= ids.take(i as int));
            assert(ids.take(i + 1).last() == p.deep_view().oid);
            assert(ct_args.deep_view() =~= start + parent_args(ids.take(i + 1)));
            i = i + 1;
        }
        assert(ids.take(i as int) =~= ids);
        let ct_out = exec_git_stdin_with_env(session, ct_args, env, message.as_bytes_vec())?;
        let ct_text = output_text(ct_out)?;
        let new_commit = trim(ct_text.as_str());
        // 2) Optionally update a ref with CAS semantics
        if let Some(update_ref_name) = update_ref {
            // Resolve target ref (HEAD may be symbolic)
            let target_ref = if same(update_ref_name, "HEAD") {
                // If HEAD is symbolic this returns e.g. refs/heads/main; otherwise "HEAD"
                self.head(session)?.ref_name
            } else {
                update_ref_name.to_string()
            };
            self.move_ref(target_ref.as_str(), message, new_commit.as_str(), parents, session)?;
        }
        Ok(new_commit)
    }
}

// ---------------------------------------------------------------------------------------------
// Remotes, authors, files and diffs
// ---------------------------------------------------------------------------------------------
/// The default remote.
pub open spec fn default_remote_run(repo: RepositoryView, s: Tape) -> Run<Option<Seq<char>>> {
    match remotes_run(repo, s) {
        (Ok(remotes), s1) => (Ok(default_remote(remotes)), s1),
        (Err(stop), s1) => (Err(stop), s1),
    }
}

/// The remote that is configured for the current branch.
pub open spec fn upstream_remote_run(repo: RepositoryView, s: Tape) -> Run<Option<Seq<char>>> {
    match git_line(s, repo.args().push("branch"@).push("--show-current"@)) {
        (Ok(branch), s1) => if branch.len() == 0 {
            (Ok(None), s1)
        } else {
            config_get_run(repo, "branch."@ + branch + ".remote"@, s1)
        },
        (Err(stop), s1) => (Err(stop), s1),
    }
}

/// The first commit by an author, or none where there is none or git ends with exit code 1.
pub open spec fn commit_by_run(repo: RepositoryView, author: Seq<char>, s: Tape) -> Run<
    Option<Seq<char>>,
> {
    match git_try(
        s,
        repo.args().push("rev-list"@).push("--all"@).push("-i"@).push("--max-count=1"@).push(
            "--author="@ + author,
        ),
    ) {
        (Ok(Ok(out)), s1) => match as_trimmed(as_text((Ok(out), s1))) {
            (Ok(oid), s2) => (Ok(unless_empty(oid)), s2),
            (Err(stop), s2) => (Err(stop), s2),
        },
        (Ok(Err(GitAiErrorView::GitCliError { code: Some(1), .. })), s1) => (Ok(None), s1),
        (Ok(Err(e)), s1) => failed(e, s1),
        (Err(stop), s1) => (Err(stop), s1),
    }
}

/// The name and e-mail address of the author of the first commit by an author.
pub open spec fn resolve_author_run(repo: RepositoryView, author: Seq<char>, s: Tape) -> Run<
    Option<Seq<char>>,
> {
    match commit_by_run(repo, author, s) {
        (Ok(Some(oid)), s1) => match git_line(
            s1,
            repo.args().push("show"@).push("-s"@).push("--format=%an <%ae>"@).push(oid),
        ) {
            (Ok(line), s2) => (Ok(unless_empty(line)), s2),
            (Err(stop), s2) => (Err(stop), s2),
        },
        (Ok(None), s1) => (Ok(None), s1),
        (Err(stop), s1) => (Err(stop), s1),
    }
}

/// All references.
pub open spec fn references_run(repo: RepositoryView, s: Tape) -> Run<Seq<Seq<char>>> {
    match git_text(s, repo.args().push("for-each-ref"@).push("--format=%(refname)"@)) {
        (Ok(text), s1) => (Ok(trimmed_lines(text)), s1),
        (Err(stop), s1) => (Err(stop), s1),
    }
}

/// The content of a file at a commit.
pub open spec fn file_content_run(
    repo: RepositoryView,
    file: Seq<char>,
    commit: Seq<char>,
    s: Tape,
) -> Run<Seq<u8>> {
    git_bytes(s, repo.args().push("show"@).push(commit + ":"@ + file))
}

/// Each text once, at the place where it first stands.
pub open spec fn distinct(texts: Seq<Seq<char>>) -> Seq<Seq<char>>
    decreases texts.len(),
{
    if texts.len() == 0 {
        texts
    } else {
        let before = distinct(texts.drop_last());
        if before.contains(texts.last()) {
            before
        } else {
            before.push(texts.last())
        }
    }
}

/// Says whether a text is among others.
pub fn is_among(texts: &Vec<String>, text: &str) -> (r: bool)
    ensures
        r == texts.deep_view().contains(text@),
{
    let ghost all = texts.deep_view();
    let mut i: usize = 0;
    while i < texts.len()
        invariant
            i <= texts@.len(),
            all == texts.deep_view(),
            forall|j: int| 0 <= j < i ==> #[trigger] all[j] != text@,
        decreases texts@.len() - i,
    {
        assert(all[i as int] == texts@[i as int]@);
        if same(texts[i].as_str(), text) {
            return true;
        }
        i = i + 1;
    }
    false
}

/// Adds a text that is not there yet.
pub fn add_distinct(texts: &mut Vec<String>, text: &str)
    ensures
        final(texts).deep_view() == (if old(texts).deep_view().contains(text@) {
            old(texts).deep_view()
        } else {
            old(texts).deep_view().push(text@)
        }),
{
    if !is_among(texts, text) {
        word(texts, text);
    }
}

/// Each text once.
pub fn keep_distinct(texts: &Vec<String>) -> (r: Vec<String>)
    ensures
        r.deep_view() == distinct(texts.deep_view()),
{
    let ghost all = texts.deep_view();
    let mut r: Vec<String> = Vec::new();
    let mut i: usize = 0;
    assert(r.deep_view() =~= all.take(0));
    while i < texts.len()
        invariant
            i <= texts@.len(),
            all == texts.deep_view(),
            r.deep_view() == distinct(all.take(i as int)),
        decreases texts@.len() - i,
    {
        assert(all.take(i + 1).drop_last() =~= all.take(i as int));
        assert(all.take(i + 1).last() == texts@[i as int]@);
        add_distinct(&mut r, texts[i].as_str());
        i = i + 1;
    }
    assert(all.take(i as int) =~= all);
    r
}

/// Keeping each text once loses none and repeats none.
pub proof fn law_distinct(texts: Seq<Seq<char>>)
    ensures
        distinct(texts).no_duplicates(),
        forall|t: Seq<char>| #[trigger] distinct(texts).contains(t) <==> texts.contains(t),
    decreases texts.len(),
{
    if texts.len() > 0 {
        let d = texts.drop_last();
        law_distinct(d);
        let before = distinct(d);
        assert forall|t: Seq<char>| #[trigger]
            distinct(texts).contains(t) <==> texts.contains(t) by {
            if texts.contains(t) {
                let k = choose|k: int| 0 <= k < texts.len() && texts[k] == t;
                if k < d.len() {
                    assert(d[k] == t);
                    assert(before.contains(t));
                    let m = choose|m: int| 0 <= m < before.len() && before[m] == t;
                    assert(distinct(texts)[m] == t);
                } else if !before.contains(t) {
                    assert(distinct(texts)[before.len() as int] == t);
                }
            }
            if distinct(texts).contains(t) {
                let k = choose|k: int| 0 <= k < distinct(texts).len() && distinct(texts)[k] == t;
                if k < before.len() {
                    assert(before[k] == t);
                    assert(before.contains(t));
                    let m = choose|m: int| 0 <= m < d.len() && d[m] == t;
                    assert(texts[m] == t);
                } else {
                    assert(texts[texts.len() - 1] == t);
                }
            }
        }
    }
}

/// The arguments that limit a command to paths.
pub open spec fn path_args(pathspecs: Option<Seq<Seq<char>>>) -> Seq<Seq<char>> {
    match pathspecs {
        Some(paths) => seq!["--"@] + paths,
        None => Seq::empty(),
    }
}

fn add_paths(args: &mut Vec<String>, pathspecs: Option<&Vec<String>>)
    ensures
        final(args).deep_view() == old(args).deep_view() + path_args(pathspecs.deep_view()),
{
    let ghost before = args.deep_view();
    match pathspecs {
        Some(paths) => {
            word(args, "--");
            extend(args, paths);
            assert(args.deep_view() =~= before + (seq!["--"@] + paths.deep_view()));
        },
        None => {
            assert(before + Seq::<Seq<char>>::empty() =~= before);
        },
    }
}

/// The id of the tree without entries.
pub open spec fn empty_tree() -> Seq<char> {
    "4b825dc642cb6eb9a060e54bf8d69288fbee4904"@
}

/// The files that a commit changed.
pub open spec fn commit_files_run(
    repo: RepositoryView,
    commit: Seq<char>,
    pathspecs: Option<Seq<Seq<char>>>,
    s: Tape,
) -> Run<Seq<Seq<char>>> {
    match find_run(repo, "commit"@, commit, s) {
        (Ok(_), s1) => match parent_count_run(repo, commit, s1) {
            (Ok(count), s2) => {
                let start = repo.args().push("diff-tree"@).push("--no-commit-id"@).push(
                    "--name-only"@,
                ).push("-r"@);
                let compared = if count == 0 {
                    start.push(empty_tree())
                } else {
                    start
                };
                match git_text(s2, compared.push(commit) + path_args(pathspecs)) {
                    (Ok(text), s3) => (Ok(distinct(filled_lines(text))), s3),
                    (Err(stop), s3) => (Err(stop), s3),
                }
            },
            (Err(stop), s2) => (Err(stop), s2),
        },
        (Err(stop), s1) => (Err(stop), s1),
    }
}

/// The lines that a diff adds, by file. Where the line numbers of the diff do not fit, the program
/// is given up.
pub open spec fn diff_lines_run(s: Tape, args: Seq<Seq<char>>) -> Run<
    Seq<(Seq<char>, Seq<u32>)>,
> {
    match git_text(s, args) {
        (Ok(text), s1) => if diff_fits(lines_of(text)) {
            (Ok(added_lines(text)), s1)
        } else {
            aborted("attempt to add with overflow"@, s1)
        },
        (Err(stop), s1) => (Err(stop), s1),
    }
}

fn diff_lines(args: Vec<String>, session: &mut Session) -> (r: Result<
    Vec<(String, Vec<u32>)>,
    Stop,
>)
    ensures
        (seen(r), final(session)@) == diff_lines_run(old(session)@, args.deep_view()),
{
    let text = git_output_text(session, args)?;
    match try_parse_diff_added_lines(text.as_str()) {
        Some(added) => Ok(added),
        None => Err(Stop::Abort("attempt to add with overflow".to_string())),
    }
}

/// The lines added between two revisions.
pub open spec fn diff_added_run(
    repo: RepositoryView,
    from_ref: Seq<char>,
    to_ref: Seq<char>,
    pathspecs: Option<Seq<Seq<char>>>,
    s: Tape,
) -> Run<Seq<(Seq<char>, Seq<u32>)>> {
    diff_lines_run(
        s,
        repo.args().push("diff"@).push("-U0"@).push("--no-color"@).push(from_ref).push(to_ref)
            + path_args(pathspecs),
    )
}

/// The lines added between a revision and the working directory.
pub open spec fn diff_workdir_run(
    repo: RepositoryView,
    from_ref: Seq<char>,
    pathspecs: Option<Seq<Seq<char>>>,
    s: Tape,
) -> Run<Seq<(Seq<char>, Seq<u32>)>> {
    diff_lines_run(
        s,
        repo.args().push("diff"@).push("-U0"@).push("--no-color"@).push(from_ref) + path_args(
            pathspecs,
        ),
    )
}

impl Repository {
    // Non-standard method of getting a 'default' remote
    pub fn get_default_remote(&self, session: &mut Session) -> (r: Result<Option<String>, Stop>)
        ensures
            (seen(r), final(session)@) == default_remote_run(self.deep_view(), old(session)@),
    {
        let remotes = self.remotes(session)?;
        let ghost names = remotes.deep_view();
        if remotes.len() == 0 {
            return Ok(None);
        }
        // Prefer 'origin' if it exists

        if is_among(&remotes, "origin") {
            return Ok(Some("origin".to_string()));
        }
        // Otherwise, just use the first remote

        assert(names[0] == remotes@[0]@);
        Ok(Some(remotes[0].clone()))
    }

    pub fn fetch_authorship(&self, remote_name: &str, session: &mut Session) -> (r: Result<
        (),
        Stop,
    >)
        ensures
            (seen(r), final(session)@) == must(
                old(session)@,
                RequestView::FetchNotes { remote: remote_name@ },
            ),
    {
        session.must(Request::FetchNotes { remote: remote_name.to_string() })
    }

    pub fn push_authorship(&self, remote_name: &str, session: &mut Session) -> (r: Result<
        (),
        Stop,
    >)
        ensures
            (seen(r), final(session)@) == must(
                old(session)@,
                RequestView::PushNotes { remote: remote_name@ },
            ),
    {
        session.must(Request::PushNotes { remote: remote_name.to_string() })
    }

    pub fn upstream_remote(&self, session: &mut Session) -> (r: Result<Option<String>, Stop>)
        ensures
            (seen(r), final(session)@) == upstream_remote_run(self.deep_view(), old(session)@),
    {
        // Get current branch name
        let mut args = self.global_args_for_exec();
        word(&mut args, "branch");
        word(&mut args, "--show-current");
        let branch = git_output_line(session, args)?;
        if branch.as_str().is_empty() {
            return Ok(None);
        }
        let config_key = join3("branch.", branch.as_str(), ".remote");
        self.config_get_str(config_key.as_str(), session)
    }

    fn commit_by(&self, author: &str, session: &mut Session) -> (r: Result<Option<String>, Stop>)
        ensures
            (seen(r), final(session)@) == commit_by_run(self.deep_view(), author@, old(session)@),
    {
        // Use git rev-list to find the first commit by this author pattern
        let mut args = self.global_args_for_exec();
        word(&mut args, "rev-list");
        word(&mut args, "--all");
        word(&mut args, "-i");
        word(&mut args, "--max-count=1");
        word(&mut args, join2("--author=", author).as_str());
        match exec_git(session, args)? {
            Ok(out) => {
                let text = output_text(out)?;
                let oid = trim(text.as_str());
                if oid.as_str().is_empty() {
                    Ok(None)
                } else {
                    Ok(Some(oid))
                }
            },
            // No commit found
            Err(GitAiError::GitCliError { code: Some(1), .. }) => Ok(None),
            Err(e) => Err(Stop::Fail(e)),
        }
    }

    pub fn resolve_author_spec(&self, author_spec: &str, session: &mut Session) -> (r: Result<
        Option<String>,
        Stop,
    >)
        ensures
            (seen(r), final(session)@) == resolve_author_run(
                self.deep_view(),
                author_spec@,
                old(session)@,
            ),
    {
        match self.commit_by(author_spec, session)? {
            Some(commit_oid) => {
                // Now get the author name/email from that commit
                let mut args = self.global_args_for_exec();
                word(&mut args, "show");
                word(&mut args, "-s");
                word(&mut args, "--format=%an <%ae>");
                word(&mut args, commit_oid.as_str());
                let author_line = git_output_line(session, args)?;
                if author_line.as_str().is_empty() {
                    Ok(None)
                } else {
                    Ok(Some(author_line))
                }
            },
            None => Ok(None),
        }
    }

    // Create an iterator for the repo’s references (git2-style)
    pub fn references<'a>(&'a self, session: &mut Session) -> (r: Result<References<'a>, Stop>)
        ensures
            (seen(r), final(session)@) == as_rest(
                self.deep_view(),
                references_run(self.deep_view(), old(session)@),
            ),
    {
        let mut args = self.global_args_for_exec();
        word(&mut args, "for-each-ref");
        word(&mut args, "--format=%(refname)");
        let stdout = git_output_text(session, args)?;
        let refs = read_trimmed_lines(stdout.as_str());
        let r = References { repo: self, refs, index: 0 };
        assert(r.deep_view().rest =~= refs.deep_view());
        Ok(r)
    }

    /// Get the content of a file at a specific commit
    /// Uses `git show <commit>:<path>` for efficient single-call retrieval
    pub fn get_file_content<'s>(
        &self,
        file_path: &str,
        commit_hash: &str,
        session: &mut Session<'s>,
    ) -> (r: Result<&'s Vec<u8>, Stop>)
        ensures
            (crate::session::seen_bytes(r), final(session)@) == file_content_run(
                self.deep_view(),
                file_path@,
                commit_hash@,
                old(session)@,
            ),
    {
        let mut args = self.global_args_for_exec();
        word(&mut args, "show");
        word(&mut args, join3(commit_hash, ":", file_path).as_str());
        git_output(session, args)
    }

    /// List all files changed in a commit
    /// Returns the file paths relative to the repository root, each once
    pub fn list_commit_files(
        &self,
        commit_sha: &str,
        pathspecs: Option<&Vec<String>>,
        session: &mut Session,
    ) -> (r: Result<Vec<String>, Stop>)
        ensures
            (seen(r), final(session)@) == commit_files_run(
                self.deep_view(),
                commit_sha@,
                pathspecs.deep_view(),
                old(session)@,
            ),
    {
        let mut args = self.global_args_for_exec();
        word(&mut args, "diff-tree");
        word(&mut args, "--no-commit-id");
        word(&mut args, "--name-only");
        word(&mut args, "-r");
        // Find the commit to check if it has a parent
        let commit = self.find_commit(commit_sha.to_string(), session)?;
        // For initial commits (no parent), compare against the empty tree
        if commit.parent_count(session)? == 0 {
            word(&mut args, "4b825dc642cb6eb9a060e54bf8d69288fbee4904");
        }
        word(&mut args, commit_sha);
        // Add pathspecs if provided
        add_paths(&mut args, pathspecs);
        let stdout = git_output_text(session, args)?;
        let files = read_filled_lines(stdout.as_str());
        Ok(keep_distinct(&files))
    }

    /// Get added line ranges from git diff between two commits
    /// Returns the file paths with the numbers of the lines added to them
    ///
    /// Uses `git diff -U0` to get unified diff with zero context lines,
    /// then parses the hunk headers to extract line numbers directly.
    /// This is much faster than fetching blobs and running TextDiff manually.
    pub fn diff_added_lines(
        &self,
        from_ref: &str,
        to_ref: &str,
        pathspecs: Option<&Vec<String>>,
        session: &mut Session,
    ) -> (r: Result<Vec<(String, Vec<u32>)>, Stop>)
        ensures
            (seen(r), final(session)@) == diff_added_run(
                self.deep_view(),
                from_ref@,
                to_ref@,
                pathspecs.deep_view(),
                old(session)@,
            ),
    {
        let mut args = self.global_args_for_exec();
        word(&mut args, "diff");
        word(&mut args, "-U0");  // Zero context lines
        word(&mut args, "--no-color");
        word(&mut args, from_ref);
        word(&mut args, to_ref);
        // Add pathspecs if provided
        add_paths(&mut args, pathspecs);
        diff_lines(args, session)
    }

    /// Get added line ranges from git diff between a commit and the working directory
    /// Returns the file paths with the numbers of the lines added to them
    ///
    /// Similar to diff_added_lines but compares against the working directory
    pub fn diff_workdir_added_lines(
        &self,
        from_ref: &str,
        pathspecs: Option<&Vec<String>>,
        session: &mut Session,
    ) -> (r: Result<Vec<(String, Vec<u32>)>, Stop>)
        ensures
            (seen(r), final(session)@) == diff_workdir_run(
                self.deep_view(),
                from_ref@,
                pathspecs.deep_view(),
                old(session)@,
            ),
    {
        let mut args = self.global_args_for_exec();
        word(&mut args, "diff");
        word(&mut args, "-U0");  // Zero context lines
        word(&mut args, "--no-color");
        word(&mut args, from_ref);
        // Add pathspecs if provided
        add_paths(&mut args, pathspecs);
        diff_lines(args, session)
    }
}

/// An event goes into the rewrite log; where it cannot, the program is given up. What the event
/// asks for is then done, if it is to be; its failure is passed over.
pub open spec fn rewrite_event_run(
    repo: RepositoryView,
    event: RewriteLogEventView,
    author: Seq<char>,
    quiet: bool,
    apply_side_effects: bool,
    s: Tape,
) -> Run<()> {
    match asked_done(s, RequestView::AppendRewriteEvent { event }) {
        (Ok(Ok(_)), s1) => if apply_side_effects {
            match caught(event_run(repo, event, author, quiet, s1)) {
                (Ok(_), s2) => (Ok(()), s2),
                (Err(stop), s2) => (Err(stop), s2),
            }
        } else {
            (Ok(()), s1)
        },
        (Ok(Err(_)), s1) => aborted("Error writing .git/ai/rewrite_log"@, s1),
        (Err(stop), s1) => (Err(stop), s1),
    }
}

impl Repository {
    pub fn handle_rewrite_log_event(
        &mut self,
        rewrite_log_event: RewriteLogEvent,
        commit_author: String,
        supress_output: bool,
        apply_side_effects: bool,
        session: &mut Session,
    ) -> (r: Result<(), Stop>)
        ensures
            *final(self) == *old(self),
            (seen(r), final(session)@) == rewrite_event_run(
                old(self).deep_view(),
                rewrite_log_event.deep_view(),
                commit_author@,
                supress_output,
                apply_side_effects,
                old(session)@,
            ),
    {
        match session.ask_done(
            Request::AppendRewriteEvent { event: rewrite_log_event.clone() },
        )? {
            Ok(()) => {},
            Err(_) => {
                return Err(Stop::Abort("Error writing .git/ai/rewrite_log".to_string()));
            },
        }
        if apply_side_effects {
            match catch(
                rewrite_authorship_if_needed(
                    self,
                    &rewrite_log_event,
                    commit_author,
                    supress_output,
                    session,
                ),
            )? {
                Ok(()) => {},
                Err(_) => {},
            }
        }
        Ok(())
    }
}

/// The repository that git finds with these global arguments.
pub open spec fn find_repository_run(global_args: Seq<Seq<char>>, s: Tape) -> Run<RepositoryView> {
    match directory_run(s, global_args.push("rev-parse"@).push("--absolute-git-dir"@)) {
        (Ok(git_dir), s1) => (
            Ok(
                RepositoryView {
                    global_args,
                    git_dir,
                    pre_command_base_commit: None,
                    pre_command_refname: None,
                    workdir_cache: None,
                },
            ),
            s1,
        ),
        (Err(stop), s1) => (Err(stop), s1),
    }
}

pub fn find_repository(global_args: &Vec<String>, session: &mut Session) -> (r: Result<
    Repository,
    Stop,
>)
    ensures
        (seen(r), final(session)@) == find_repository_run(
            global_args.deep_view(),
            old(session)@,
        ),
{
    let mut args = clone_texts(global_args);
    word(&mut args, "rev-parse");
    word(&mut args, "--absolute-git-dir");
    let git_dir = find_directory(args, session)?;
    Ok(
        Repository {
            global_args: clone_texts(global_args),
            git_dir,
            pre_command_base_commit: None,
            pre_command_refname: None,
            workdir_cache: None,
        },
    )
}

pub fn find_repository_in_path(path: &str, session: &mut Session) -> (r: Result<Repository, Stop>)
    ensures
        (seen(r), final(session)@) == find_repository_run(seq!["-C"@, path@], old(session)@),
{
    let mut global_args: Vec<String> = Vec::new();
    word(&mut global_args, "-C");
    word(&mut global_args, path);
    assert(global_args.deep_view() =~= seq!["-C"@, path@]);
    find_repository(&global_args, session)
}

/// Every git command for a repository that was opened by a path runs in that path and without a
/// pager, unless the path is itself the word that turns the pager off.
pub proof fn law_commands_run_in_the_path(path: Seq<char>, s: Tape)
    requires
        path != "--no-pager"@,
    ensures
        find_repository_run(seq!["-C"@, path], s).0 matches Ok(repo) ==> repo.args() == seq![
            "-C"@,
            path,
            "--no-pager"@,
        ],
{
    reveal_strlit("-C");
    reveal_strlit("--no-pager");
    assert("-C"@.len() == 2 && "--no-pager"@.len() == 10);
    let given = seq!["-C"@, path];
    if given.contains("--no-pager"@) {
        let i = choose|i: int| 0 <= i < given.len() && given[i] == "--no-pager"@;
        assert(i == 0 || i == 1);
    }
    assert(given.push("--no-pager"@) =~= seq!["-C"@, path, "--no-pager"@]);
}

} // verus!
