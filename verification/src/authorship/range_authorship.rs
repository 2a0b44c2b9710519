//! Authorship over a range of commits.
use crate::assoc::{find, has_key, lemma_place_bounds, place_of, with_value};
use crate::authorship::rebase_authorship::asked_attribution;
use crate::authorship::stats::{terminal_run, write_stats_to_terminal, CommitStats};
use crate::error::GitAiError;
use crate::git::diff::{added_to, left_at, line_in, none_left, DiffLine, HunkLeft, Left};
use crate::git::records::{BlameHunk, CommitAuthorship, CommitAuthorshipView};
use crate::git::repository::{
    add_distinct, default_remote_run, is_valid_run, range_commits_run, CommitRange, CommitRangeView,
    Repository, RepositoryView,
};
use crate::session::{
    aborted, asked, failed, git_bytes, git_output, git_output_text, git_text, printed, seen, word,
    Reply, Request, RequestView, Run, Session, Stop, StopView, Tape,
};
use crate::text::{
    after_prefix, chars, cut_at, decimal, decimal_text, has_prefix, join2, join3, lines, lines_of,
    parse_u32, parsed, rfind, rfind_before, same, slice_text, split_at_char, split_at_text,
    split_char, split_once, split_text, starts_with, strip_prefix, trim, trim_end, trim_right,
    trimmed,
};
use vstd::prelude::*;

verus! {

broadcast use vstd::seq::group_seq_axioms;

/// The authorship of a range of commits.
#[derive(Debug)]
pub struct RangeAuthorshipStats {
    pub authorship_stats: AuthorshipStats,
    pub range_stats: CommitStats,
}

/// How many commits of a range have an authorship log, and whose commits those are.
#[derive(Debug)]
pub struct AuthorshipStats {
    pub total_commits: usize,
    pub commits_with_authorship: usize,
    /// Each author once, in the order of their first such commit.
    pub authors_commiting_authorship: Vec<String>,
    /// Each author once, in the order of their first such commit.
    pub authors_not_commiting_authorship: Vec<String>,
    pub commits_without_authorship: Vec<String>,
    /// Commits with their authors.
    pub commits_without_authorship_with_authors: Vec<(String, String)>,
}

/// What an `AuthorshipStats` holds.
pub struct AuthorshipStatsView {
    pub total_commits: nat,
    pub commits_with_authorship: nat,
    pub authors_commiting_authorship: Seq<Seq<char>>,
    pub authors_not_commiting_authorship: Seq<Seq<char>>,
    pub commits_without_authorship: Seq<Seq<char>>,
    pub commits_without_authorship_with_authors: Seq<(Seq<char>, Seq<char>)>,
}

/// What a `RangeAuthorshipStats` holds.
pub struct RangeAuthorshipStatsView {
    pub authorship_stats: AuthorshipStatsView,
    pub range_stats: CommitStats,
}

impl DeepView for AuthorshipStats {
    type V = AuthorshipStatsView;

    open spec fn deep_view(&self) -> AuthorshipStatsView {
        AuthorshipStatsView {
            total_commits: self.total_commits as nat,
            commits_with_authorship: self.commits_with_authorship as nat,
            authors_commiting_authorship: self.authors_commiting_authorship.deep_view(),
            authors_not_commiting_authorship: self.authors_not_commiting_authorship.deep_view(),
            commits_without_authorship: self.commits_without_authorship.deep_view(),
            commits_without_authorship_with_authors:
                self.commits_without_authorship_with_authors.deep_view(),
        }
    }
}

impl DeepView for RangeAuthorshipStats {
    type V = RangeAuthorshipStatsView;

    open spec fn deep_view(&self) -> RangeAuthorshipStatsView {
        RangeAuthorshipStatsView {
            authorship_stats: self.authorship_stats.deep_view(),
            range_stats: self.range_stats,
        }
    }
}

// ---------------------------------------------------------------------------------------------
// Added lines
// ---------------------------------------------------------------------------------------------
/// What has been read of a diff: the file, the number of the next line of its new version, and the
/// lines added so far.
pub struct Progress {
    pub file: Option<Seq<char>>,
    pub next: nat,
    pub added: Seq<(Seq<char>, Seq<u32>)>,
}

/// The file that a line `+++ b/path` names; no text where it names another.
pub open spec fn named_file(line: Seq<char>) -> Seq<char> {
    match after_prefix(line, "+++"@) {
        Some(rest) => match after_prefix(trimmed(rest), "b/"@) {
            Some(path) => path,
            None => Seq::empty(),
        },
        None => Seq::empty(),
    }
}

/// What stands in a hunk header between its two pairs of at signs.
pub open spec fn between_signs(line: Seq<char>) -> Option<Seq<char>> {
    match rfind_before(line, "@@"@, line.len() as int) {
        Some(end) => if end >= 2 {
            Some(line.subrange(2, end))
        } else {
            None
        },
        None => Some(Seq::empty()),
    }
}

/// The number behind the first plus sign of a hunk header: up to a comma, or all that there is
/// where no number of lines is given.
pub open spec fn new_start(header: Seq<char>) -> Option<nat> {
    match cut_at(header, '+') {
        Some((_, rest)) => match parsed(split_at_char(rest, ',')[0], u32::MAX as nat) {
            Some(start) => Some(start),
            None => parsed(trim_end(split_at_text(rest, "@@"@)[0]), u32::MAX as nat),
        },
        None => None,
    }
}

/// A line outside of the hunks that a diff adds.
pub open spec fn is_plus(line: Seq<char>) -> bool {
    has_prefix(line, "+"@) && !has_prefix(line, "+++"@)
}

/// A line outside of the hunks that a diff deletes.
pub open spec fn is_minus(line: Seq<char>) -> bool {
    has_prefix(line, "-"@) && !has_prefix(line, "---"@)
}

/// A line of a diff that says something of the files.
pub open spec fn is_metadata(line: Seq<char>) -> bool {
    has_prefix(line, "diff --git"@) || has_prefix(line, "index "@) || has_prefix(line, "---"@)
}

/// What a line does in a diff.
#[derive(Debug, Clone, Copy, PartialEq, Eq, Structural)]
pub enum Role {
    Names,
    Starts,
    Says,
    Adds,
    Deletes,
    Remarks,
    Keeps,
}

/// What a line does where a hunk has still to give what `left` says. Headers stand outside of the
/// hunks only.
pub open spec fn role_of(left: Left, line: Seq<char>) -> Role {
    match line_in(left, line) {
        DiffLine::Added => Role::Adds,
        DiffLine::Deleted => Role::Deletes,
        DiffLine::Kept => Role::Keeps,
        DiffLine::Remark => Role::Remarks,
        DiffLine::Outside => if has_prefix(line, "+++"@) {
            Role::Names
        } else if has_prefix(line, "@@"@) {
            Role::Starts
        } else if is_metadata(line) {
            Role::Says
        } else if is_plus(line) {
            Role::Adds
        } else if is_minus(line) {
            Role::Deletes
        } else if has_prefix(line, "\\"@) {
            Role::Remarks
        } else {
            Role::Keeps
        },
    }
}

/// A line of a diff that cannot be read: a hunk header that is not closed, or one behind the last
/// line that has a number.
#[verifier::opaque]
pub open spec fn unreadable(p: Progress, left: Left, line: Seq<char>) -> bool {
    match role_of(left, line) {
        Role::Starts => between_signs(line) is None,
        Role::Adds | Role::Keeps => p.file is Some && p.next >= u32::MAX,
        _ => false,
    }
}

/// What has been read after one more line.
#[verifier::opaque]
pub open spec fn after_line(p: Progress, left: Left, line: Seq<char>) -> Progress {
    match role_of(left, line) {
        Role::Names => Progress { file: Some(named_file(line)), next: 0, ..p },
        Role::Starts => match new_start(between_signs(line)->Some_0) {
            Some(start) => Progress { next: start, ..p },
            None => p,
        },
        Role::Adds => match p.file {
            Some(file) => Progress {
                next: p.next + 1,
                added: with_value(p.added, file, added_to(p.added, file).push(p.next as u32)),
                ..p
            },
            None => p,
        },
        Role::Keeps => if p.file is Some {
            Progress { next: p.next + 1, ..p }
        } else {
            p
        },
        _ => p,
    }
}

/// What line `k` of a diff does.
pub open spec fn role_at(all: Seq<Seq<char>>, k: int) -> Role {
    role_of(left_at(all, k), all[k])
}

/// What has been read after the first `k` lines.
pub open spec fn after_lines(all: Seq<Seq<char>>, k: int) -> Progress
    decreases k,
{
    if k <= 0 {
        Progress { file: None, next: 0, added: Seq::empty() }
    } else {
        after_line(after_lines(all, k - 1), left_at(all, k - 1), all[k - 1])
    }
}

/// Line `k` of a diff can be read.
pub open spec fn readable_at(all: Seq<Seq<char>>, k: int) -> bool {
    !unreadable(after_lines(all, k), left_at(all, k), all[k])
}

/// A diff of which every line can be read.
pub open spec fn readable(all: Seq<Seq<char>>) -> bool {
    forall|k: int| 0 <= k < all.len() ==> #[trigger] readable_at(all, k)
}

/// The lines that a diff adds, by file.
pub open spec fn diff_additions(diff: Seq<char>) -> Seq<(Seq<char>, Seq<u32>)> {
    after_lines(lines_of(diff), lines_of(diff).len() as int).added
}

/// How many of the first `k` lines do this.
pub open spec fn role_count(all: Seq<Seq<char>>, k: int, role: Role) -> nat
    decreases k,
{
    if k <= 0 {
        0
    } else {
        role_count(all, k - 1, role) + if role_at(all, k - 1) == role {
            1nat
        } else {
            0nat
        }
    }
}

/// How many lines a diff adds.
pub open spec fn plus_count(all: Seq<Seq<char>>) -> nat {
    role_count(all, all.len() as int, Role::Adds)
}

/// How many lines a diff deletes.
pub open spec fn minus_count(all: Seq<Seq<char>>) -> nat {
    role_count(all, all.len() as int, Role::Deletes)
}

/// How many lines there are in all files.
pub open spec fn line_total(added: Seq<(Seq<char>, Seq<u32>)>) -> nat
    decreases added.len(),
{
    if added.len() == 0 {
        0
    } else {
        line_total(added.drop_last()) + added.last().1.len()
    }
}

proof fn lemma_line_total_update(added: Seq<(Seq<char>, Seq<u32>)>, k: int, lines: Seq<u32>)
    requires
        0 <= k < added.len(),
    ensures
        line_total(added.update(k, (added[k].0, lines))) == line_total(added) - added[k].1.len()
            + lines.len(),
        line_total(added) >= added[k].1.len(),
    decreases added.len(),
{
    let after = added.update(k, (added[k].0, lines));
    if k == added.len() - 1 {
        assert(after.drop_last() =~= added.drop_last());
    } else {
        lemma_line_total_update(added.drop_last(), k, lines);
        assert(after.drop_last() =~= added.drop_last().update(k, (added[k].0, lines)));
    }
}

/// Each line that adds stands behind a line that names a file.
pub open spec fn all_filed(all: Seq<Seq<char>>) -> bool {
    forall|k: int|
        0 <= k < all.len() && #[trigger] role_at(all, k) == Role::Adds ==> after_lines(
            all,
            k,
        ).file is Some
}

proof fn lemma_additions(all: Seq<Seq<char>>, k: int)
    requires
        0 <= k <= all.len(),
    ensures
        line_total(after_lines(all, k).added) <= role_count(all, k, Role::Adds),
        all_filed(all) ==> line_total(after_lines(all, k).added) == role_count(
            all,
            k,
            Role::Adds,
        ),
    decreases k,
{
    reveal(after_line);
    if k > 0 {
        lemma_additions(all, k - 1);
        let p = after_lines(all, k - 1);
        assert(role_at(all, k - 1) == role_of(left_at(all, k - 1), all[k - 1]));
        if role_at(all, k - 1) == Role::Adds && p.file is Some {
            let file = p.file->Some_0;
            let lines = added_to(p.added, file).push(p.next as u32);
            lemma_place_bounds(p.added, file);
            if has_key(p.added, file) {
                lemma_line_total_update(p.added, place_of(p.added, file), lines);
            } else {
                assert(p.added.push((file, lines)).drop_last() =~= p.added);
            }
        }
    }
}

/// A diff adds no more lines to its files than there are lines in it that add, and just as many
/// where each of them stands behind a line that names a file.
pub proof fn law_additions_are_plus_lines(diff: Seq<char>)
    ensures
        line_total(diff_additions(diff)) <= plus_count(lines_of(diff)),
        all_filed(lines_of(diff)) ==> line_total(diff_additions(diff)) == plus_count(
            lines_of(diff),
        ),
{
    lemma_additions(lines_of(diff), lines_of(diff).len() as int);
}

/// The last hunk header before line `k`, which belongs to the last file named, gives a number that
/// is not zero.
pub open spec fn is_placed(all: Seq<Seq<char>>, k: int) -> bool
    decreases k,
{
    if k <= 0 {
        false
    } else {
        match role_at(all, k - 1) {
            Role::Names => false,
            Role::Starts => match new_start(between_signs(all[k - 1])->Some_0) {
                Some(start) => start > 0,
                None => is_placed(all, k - 1),
            },
            _ => is_placed(all, k - 1),
        }
    }
}

proof fn lemma_next(all: Seq<Seq<char>>, k: int)
    requires
        readable(all),
        0 <= k <= all.len(),
    ensures
        after_lines(all, k).next <= u32::MAX,
        is_placed(all, k) ==> after_lines(all, k).next > 0,
    decreases k,
{
    reveal(after_line);
    reveal(unreadable);
    if k > 0 {
        lemma_next(all, k - 1);
        assert(readable_at(all, k - 1));
    }
}

proof fn lemma_from_one(all: Seq<Seq<char>>, k: int)
    requires
        readable(all),
        0 <= k <= all.len(),
        forall|m: int|
            0 <= m < all.len() && #[trigger] role_at(all, m) == Role::Adds ==> is_placed(all, m),
    ensures
        forall|f: int, j: int|
            0 <= f < after_lines(all, k).added.len() && 0 <= j < after_lines(all, k).added[f].1.len()
                ==> #[trigger] after_lines(all, k).added[f].1[j] > 0,
    decreases k,
{
    reveal(after_line);
    reveal(unreadable);
    if k > 0 {
        lemma_from_one(all, k - 1);
        lemma_next(all, k - 1);
        assert(readable_at(all, k - 1));
        let p = after_lines(all, k - 1);
        assert(role_at(all, k - 1) == role_of(left_at(all, k - 1), all[k - 1]));
        if role_at(all, k - 1) == Role::Adds && p.file is Some {
            lemma_place_bounds(p.added, p.file->Some_0);
        }
    }
}

/// Line numbers are 1-indexed: where each line that a diff adds stands behind a hunk header that
/// gives a number that is not zero, no line of a file is said to be line zero.
pub proof fn law_lines_count_from_one(diff: Seq<char>)
    requires
        readable(lines_of(diff)),
        forall|k: int|
            0 <= k < lines_of(diff).len() && #[trigger] role_at(lines_of(diff), k) == Role::Adds
                ==> is_placed(lines_of(diff), k),
    ensures
        forall|f: int, j: int|
            0 <= f < diff_additions(diff).len() && 0 <= j < diff_additions(diff)[f].1.len()
                ==> #[trigger] diff_additions(diff)[f].1[j] > 0,
{
    lemma_from_one(lines_of(diff), lines_of(diff).len() as int);
}

/// A line within a hunk that starts with a plus or a minus sign is counted as added or as deleted,
/// whatever stands behind the sign, and is read as no header.
pub proof fn law_hunk_lines_are_counted(all: Seq<Seq<char>>, k: int)
    requires
        0 <= k < all.len(),
        left_at(all, k) != none_left(),
        all[k].len() > 0,
        all[k][0] == '+' || all[k][0] == '-',
    ensures
        role_at(all, k) == (if all[k][0] == '+' {
            Role::Adds
        } else {
            Role::Deletes
        }),
        after_lines(all, k + 1).file == after_lines(all, k).file,
{
    reveal(after_line);
}

fn add_number(added: &mut Vec<(String, Vec<u32>)>, file: &String, number: u32)
    ensures
        final(added).deep_view() == with_value(
            old(added).deep_view(),
            file@,
            added_to(old(added).deep_view(), file@).push(number),
        ),
{
    let ghost before = added.deep_view();
    match find(added, file.as_str()) {
        Some(k) => {
            proof {
                lemma_place_bounds(before, file@);
                assert(before[k as int] == added@[k as int].deep_view());
                assert(added@[k as int].1.deep_view() =~= added@[k as int].1@);
            }
            added[k].1.push(number);
            assert(added@[k as int].1.deep_view() =~= added@[k as int].1@);
            assert(added.deep_view() =~= with_value(
                before,
                file@,
                added_to(before, file@).push(number),
            ));
        },
        None => {
            let mut numbers: Vec<u32> = Vec::new();
            numbers.push(number);
            assert(numbers.deep_view() =~= Seq::<u32>::empty().push(number));
            added.push((file.clone(), numbers));
            assert(added.deep_view() =~= before.push((file@, Seq::<u32>::empty().push(number))));
        },
    }
}

fn read_named_file(line: &str) -> (r: String)
    ensures
        r@ == named_file(line@),
{
    match strip_prefix(line, "+++") {
        Some(rest) => match strip_prefix(trim(rest.as_str()).as_str(), "b/") {
            Some(path) => path,
            None => no_text(),
        },
        None => no_text(),
    }
}

fn no_text() -> (r: String)
    ensures
        r@ == Seq::<char>::empty(),
{
    let r = String::new();
    assert(r@ =~= Seq::<char>::empty());
    r
}

fn read_between_signs(line: &str) -> (r: Option<String>)
    ensures
        match r {
            Some(header) => between_signs(line@) == Some(header@),
            None => between_signs(line@) is None,
        },
{
    match rfind(line, "@@") {
        Some(end) => {
            if end >= 2 {
                let v = chars(line);
                Some(slice_text(&v, 2, end))
            } else {
                None
            }
        },
        None => Some(no_text()),
    }
}

fn read_new_start(header: &str) -> (r: Option<u32>)
    ensures
        match r {
            Some(n) => new_start(header@) == Some(n as nat),
            None => new_start(header@) is None,
        },
{
    match split_once(header, '+') {
        Some((_, rest)) => {
            proof {
                reveal_strlit("@@");
            }
            let parts = split_char(rest.as_str(), ',');
            assert(parts.deep_view()[0] == parts@[0]@);
            match parse_u32(parts[0].as_str()) {
                Some(start) => Some(start),
                // No number of lines is given
                None => {
                    let ends = split_text(rest.as_str(), "@@");
                    assert(ends.deep_view()[0] == ends@[0]@);
                    parse_u32(trim_right(ends[0].as_str()).as_str())
                },
            }
        },
        None => None,
    }
}

fn line_is_plus(line: &str) -> (r: bool)
    ensures
        r == is_plus(line@),
{
    starts_with(line, "+") && !starts_with(line, "+++")
}

fn line_is_minus(line: &str) -> (r: bool)
    ensures
        r == is_minus(line@),
{
    starts_with(line, "-") && !starts_with(line, "---")
}

/// What has been read of a diff.
struct Reading {
    file: Option<String>,
    next: u32,
    added: Vec<(String, Vec<u32>)>,
}

impl View for Reading {
    type V = Progress;

    closed spec fn view(&self) -> Progress {
        Progress {
            file: self.file.deep_view(),
            next: self.next as nat,
            added: self.added.deep_view(),
        }
    }
}

fn read_role(left: &HunkLeft, line: &str) -> (r: Role)
    ensures
        r == role_of(left@, line@),
{
    match left.read(line) {
        DiffLine::Added => Role::Adds,
        DiffLine::Deleted => Role::Deletes,
        DiffLine::Kept => Role::Keeps,
        DiffLine::Remark => Role::Remarks,
        DiffLine::Outside => if starts_with(line, "+++") {
            Role::Names
        } else if starts_with(line, "@@") {
            Role::Starts
        } else if starts_with(line, "diff --git") || starts_with(line, "index ") || starts_with(
            line,
            "---",
        ) {
            Role::Says
        } else if line_is_plus(line) {
            Role::Adds
        } else if line_is_minus(line) {
            Role::Deletes
        } else if starts_with(line, "\\") {
            Role::Remarks
        } else {
            Role::Keeps
        },
    }
}

impl Reading {
    fn read_line(&mut self, left: &HunkLeft, line: &str) -> (r: bool)
        ensures
            r == !unreadable(old(self)@, left@, line@),
            r ==> final(self)@ == after_line(old(self)@, left@, line@),
    {
        proof {
            reveal(unreadable);
            reveal(after_line);
        }
        match read_role(left, line) {
            Role::Names => {
                // Parse file headers: +++ b/path/to/file
                self.file = Some(read_named_file(line));
                self.next = 0;
            },
            Role::Starts => {
                // Parse hunk headers: @@ -old_start,old_count +new_start,new_count @@
                match read_between_signs(line) {
                    Some(header) => {
                        // Parse the +new_start,new_count part
                        if let Some(start) = read_new_start(header.as_str()) {
                            self.next = start;
                        }
                    },
                    None => {
                        return false;
                    },
                }
            },
            Role::Adds => {
                if let Some(file) = &self.file {
                    if self.next == u32::MAX {
                        return false;
                    }
                    // Added line - record its line number

                    add_number(&mut self.added, file, self.next);
                    self.next = self.next + 1;
                }
            },
            Role::Keeps => {
                // Regular context line or empty line
                if self.file.is_some() {
                    if self.next == u32::MAX {
                        return false;
                    }
                    self.next = self.next + 1;
                }
            },
            // Skip diff metadata lines; a deleted line doesn't advance the line number
            Role::Says | Role::Deletes | Role::Remarks => {},
        }
        true
    }
}

/// The lines that a diff adds, by file, or `None` where a line of it cannot be read.
pub fn try_parse_git_diff_for_added_lines(diff_output: &str) -> (r: Option<
    Vec<(String, Vec<u32>)>,
>)
    ensures
        match r {
            Some(added) => readable(lines_of(diff_output@)) && added.deep_view() == diff_additions(
                diff_output@,
            ),
            None => !readable(lines_of(diff_output@)),
        },
{
    let text = lines(diff_output);
    let ghost all = text.deep_view();
    let mut reading = Reading { file: None, next: 0, added: Vec::new() };
    let mut left = HunkLeft::none();
    let mut i: usize = 0;
    assert(reading@.added =~= Seq::empty());
    while i < text.len()
        invariant
            i <= text@.len(),
            all == text.deep_view(),
            all == lines_of(diff_output@),
            after_lines(all, i as int) == reading@,
            left_at(all, i as int) == left@,
            forall|k: int| 0 <= k < i ==> #[trigger] readable_at(all, k),
        decreases text@.len() - i,
    {
        assert(all[i as int] == text@[i as int]@);
        let read: bool = reading.read_line(&left, text[i].as_str());
        assert(read == readable_at(all, i as int));
        if !read {
            return None;
        }
        left = left.behind(&text, i);
        i = i + 1;
    }
    Some(reading.added)
}

/// Parse git diff output to extract which lines were added in each file
/// Returns the files with their line numbers, where line numbers are 1-indexed
pub fn parse_git_diff_for_added_lines(diff_output: &str) -> (r: Result<
    Vec<(String, Vec<u32>)>,
    GitAiError,
>)
    requires
        readable(lines_of(diff_output@)),
    ensures
        r matches Ok(added) && added.deep_view() == diff_additions(diff_output@),
{
    match try_parse_git_diff_for_added_lines(diff_output) {
        Some(added) => Ok(added),
        None => Ok(Vec::new()),
    }
}

/// The lines of a diff that add and that delete, or `None` where there are too many.
pub fn count_diff_lines(diff_output: &str) -> (r: Option<(u32, u32)>)
    ensures
        match r {
            Some((added, deleted)) => added == plus_count(lines_of(diff_output@)) && deleted
                == minus_count(lines_of(diff_output@)),
            None => plus_count(lines_of(diff_output@)) > u32::MAX || minus_count(
                lines_of(diff_output@),
            ) > u32::MAX,
        },
{
    let text = lines(diff_output);
    let ghost all = text.deep_view();
    let mut added: u64 = 0;
    let mut deleted: u64 = 0;
    let mut left = HunkLeft::none();
    let mut i: usize = 0;
    while i < text.len()
        invariant
            i <= text@.len(),
            all == text.deep_view(),
            all == lines_of(diff_output@),
            added == role_count(all, i as int, Role::Adds),
            deleted == role_count(all, i as int, Role::Deletes),
            left@ == left_at(all, i as int),
            added <= i,
            deleted <= i,
        decreases text@.len() - i,
    {
        let line: &str = text[i].as_str();
        assert(all[i as int] == line@);
        match read_role(&left, line) {
            Role::Adds => {
                added = added + 1;
            },
            Role::Deletes => {
                deleted = deleted + 1;
            },
            _ => {},
        }
        left = left.behind(&text, i);
        i = i + 1;
    }
    if added > u32::MAX as u64 || deleted > u32::MAX as u64 {
        return None;
    }
    Some((added as u32, deleted as u32))
}

// ---------------------------------------------------------------------------------------------
// Blame
// ---------------------------------------------------------------------------------------------
/// Lines of a file from `first` to `last`, with the commit that last changed them and whether it
/// was an AI that wrote some of them.
#[derive(Debug)]
pub struct BlamedSpan {
    pub first: u32,
    pub last: u32,
    pub commit_sha: String,
    pub is_ai: bool,
}

/// What a `BlamedSpan` holds.
pub struct BlamedSpanView {
    pub first: u32,
    pub last: u32,
    pub commit_sha: Seq<char>,
    pub is_ai: bool,
}

impl DeepView for BlamedSpan {
    type V = BlamedSpanView;

    open spec fn deep_view(&self) -> BlamedSpanView {
        BlamedSpanView {
            first: self.first,
            last: self.last,
            commit_sha: self.commit_sha@,
            is_ai: self.is_ai,
        }
    }
}

/// Cache of blame information for a single file
#[derive(Debug)]
pub struct FileBlame {
    pub spans: Vec<BlamedSpan>,
}

impl DeepView for FileBlame {
    type V = Seq<BlamedSpanView>;

    open spec fn deep_view(&self) -> Seq<BlamedSpanView> {
        self.spans.deep_view()
    }
}

/// What the last span that has a line says of it.
pub open spec fn line_authorship(spans: Seq<BlamedSpanView>, line: u32) -> Option<(Seq<char>, bool)>
    decreases spans.len(),
{
    if spans.len() == 0 {
        None
    } else if spans.last().first <= line <= spans.last().last {
        Some((spans.last().commit_sha, spans.last().is_ai))
    } else {
        line_authorship(spans.drop_last(), line)
    }
}

impl FileBlame {
    /// Get authorship info for a specific line
    /// Returns Some((commit_sha, is_ai_authored)) or None if line not found
    pub fn get_line_authorship(&self, line_no: u32) -> (r: Option<(String, bool)>)
        ensures
            r.deep_view() == line_authorship(self.deep_view(), line_no),
    {
        let ghost all = self.deep_view();
        let mut i: usize = self.spans.len();
        assert(all.take(i as int) =~= all);
        while i > 0
            invariant
                i <= self.spans@.len(),
                all == self.deep_view(),
                line_authorship(all, line_no) == line_authorship(all.take(i as int), line_no),
            decreases i,
        {
            let span = &self.spans[i - 1];
            assert(all.take(i as int).last() == span.deep_view());
            assert(all.take(i as int).drop_last() =~= all.take(i - 1));
            if span.first <= line_no && line_no <= span.last {
                return Some((span.commit_sha.clone(), span.is_ai));
            }
            i = i - 1;
        }
        None
    }
}

/// The last that is said of a commit is that it has a log.
pub open spec fn has_log(commits: Seq<CommitAuthorshipView>, commit: Seq<char>) -> bool
    decreases commits.len(),
{
    if commits.len() == 0 {
        false
    } else {
        match commits.last() {
            CommitAuthorshipView::Log { sha, .. } => sha == commit || has_log(
                commits.drop_last(),
                commit,
            ),
            CommitAuthorshipView::NoLog { sha, .. } => sha != commit && has_log(
                commits.drop_last(),
                commit,
            ),
        }
    }
}

fn find_log(commits: &Vec<CommitAuthorship>, commit: &str) -> (r: bool)
    ensures
        r == has_log(commits.deep_view(), commit@),
{
    let ghost all = commits.deep_view();
    let mut i: usize = commits.len();
    assert(all.take(i as int) =~= all);
    while i > 0
        invariant
            i <= commits@.len(),
            all == commits.deep_view(),
            has_log(all, commit@) == has_log(all.take(i as int), commit@),
        decreases i,
    {
        assert(all.take(i as int).last() == commits@[i - 1].deep_view());
        assert(all.take(i as int).drop_last() =~= all.take(i - 1));
        match &commits[i - 1] {
            CommitAuthorship::Log { sha, .. } => {
                if same(sha.as_str(), commit) {
                    return true;
                }
            },
            CommitAuthorship::NoLog { sha, .. } => {
                if same(sha.as_str(), commit) {
                    return false;
                }
            },
        }
        i = i - 1;
    }
    false
}

/// Whether a log says of some line from `first` to `last` that an AI wrote it; no further line is
/// asked about once one is found.
pub open spec fn any_ai_run(
    commit: Seq<char>,
    file: Seq<char>,
    first: int,
    last: int,
    s: Tape,
) -> Run<bool>
    decreases last - first + 1,
{
    if first > last {
        (Ok(false), s)
    } else {
        match asked_attribution(
            s,
            RequestView::LineAttribution { commit, file, number: first as u32 },
        ) {
            (Ok(Some((_, Some(_)))), s1) => (Ok(true), s1),
            (Ok(_), s1) => any_ai_run(commit, file, first + 1, last, s1),
            (Err(stop), s1) => (Err(stop), s1),
        }
    }
}

fn any_ai(commit: &str, file: &str, first: u32, last: u32, session: &mut Session) -> (r: Result<
    bool,
    Stop,
>)
    ensures
        (seen(r), final(session)@) == any_ai_run(
            commit@,
            file@,
            first as int,
            last as int,
            old(session)@,
        ),
{
    let mut n: u64 = first as u64;
    let ghost whole = any_ai_run(commit@, file@, first as int, last as int, session@);
    while n <= last as u64
        invariant
            first <= n,
            n <= last + 1 || n == first,
            any_ai_run(commit@, file@, n as int, last as int, session@) == whole,
            whole == any_ai_run(commit@, file@, first as int, last as int, old(session)@),
        decreases last + 1 - n,
    {
        match session.ask(
            Request::LineAttribution {
                commit: commit.to_string(),
                file: file.to_string(),
                number: n as u32,
            },
        )? {
            Reply::Attribution(Some((_, Some(_)))) => {
                return Ok(true);
            },
            Reply::Attribution(_) => {},
            _ => {
                return Err(Stop::Mismatch);
            },
        }
        n = n + 1;
    }
    Ok(false)
}

/// The spans that the hunks from place `i` on stand for.
pub open spec fn spans_run(
    file: Seq<char>,
    commits: Seq<CommitAuthorshipView>,
    hunks: Seq<BlameHunk>,
    i: int,
    done: Seq<BlamedSpanView>,
    s: Tape,
) -> Run<Seq<BlamedSpanView>>
    decreases hunks.len() - i,
{
    if i < 0 || i >= hunks.len() {
        (Ok(done), s)
    } else {
        let hunk = hunks[i];
        let found: Run<bool> = if has_log(commits, hunk.commit_sha@) {
            any_ai_run(
                hunk.commit_sha@,
                file,
                hunk.orig_range.0 as int,
                hunk.orig_range.1 as int,
                s,
            )
        } else {
            (Ok(false), s)
        };
        match found {
            (Ok(is_ai), s1) => spans_run(
                file,
                commits,
                hunks,
                i + 1,
                done.push(
                    BlamedSpanView {
                        first: hunk.range.0,
                        last: hunk.range.1,
                        commit_sha: hunk.commit_sha@,
                        is_ai,
                    },
                ),
                s1,
            ),
            (Err(stop), s1) => (Err(stop), s1),
        }
    }
}

/// Who wrote the lines of a file, as seen from a commit.
pub open spec fn file_blame_run(
    file: Seq<char>,
    newest: Seq<char>,
    commits: Seq<CommitAuthorshipView>,
    s: Tape,
) -> Run<Seq<BlamedSpanView>> {
    match crate::authorship::rebase_authorship::asked_hunks(
        s,
        RequestView::BlameHunks { file, first: 1, last: u32::MAX, newest },
    ) {
        (Ok(hunks), s1) => spans_run(file, commits, hunks, 0, Seq::empty(), s1),
        (Err(stop), s1) => (Err(stop), s1),
    }
}

/// Compute blame for an entire file and extract authorship info
pub fn compute_file_blame(
    file_path: &str,
    context_commit_sha: &str,
    commit_authorship: &Vec<CommitAuthorship>,
    session: &mut Session,
) -> (r: Result<FileBlame, Stop>)
    ensures
        (seen(r), final(session)@) == file_blame_run(
            file_path@,
            context_commit_sha@,
            commit_authorship.deep_view(),
            old(session)@,
        ),
{
    // Get blame hunks for the entire file
    let hunks = match session.ask(
        Request::BlameHunks {
            file: file_path.to_string(),
            first: 1,
            last: u32::MAX,
            newest: context_commit_sha.to_string(),
        },
    )? {
        Reply::Hunks(Ok(hunks)) => hunks,
        Reply::Hunks(Err(e)) => {
            return Err(Stop::Fail(e.clone()));
        },
        _ => {
            return Err(Stop::Mismatch);
        },
    };
    let ghost commits = commit_authorship.deep_view();
    let mut spans: Vec<BlamedSpan> = Vec::new();
    assert(spans.deep_view() =~= Seq::empty());
    let ghost whole = spans_run(file_path@, commits, hunks@, 0, Seq::empty(), session@);
    let mut i: usize = 0;
    // Process each blame hunk
    while i < hunks.len()
        invariant
            i <= hunks@.len(),
            commits == commit_authorship.deep_view(),
            spans_run(file_path@, commits, hunks@, i as int, spans.deep_view(), session@) == whole,
            whole == file_blame_run(file_path@, context_commit_sha@, commits, old(session)@),
        decreases hunks@.len() - i,
    {
        let hunk = &hunks[i];
        let ghost before = spans.deep_view();
        // Look up the AI authorship log for this commit
        // No authorship log means human-authored
        let is_ai = if find_log(commit_authorship, hunk.commit_sha.as_str()) {
            // Check if at least one line in the hunk is AI-authored
            any_ai(
                hunk.commit_sha.as_str(),
                file_path,
                hunk.orig_range.0,
                hunk.orig_range.1,
                session,
            )?
        } else {
            false
        };
        // Record authorship for each line in the hunk
        let span = BlamedSpan {
            first: hunk.range.0,
            last: hunk.range.1,
            commit_sha: hunk.commit_sha.clone(),
            is_ai,
        };
        spans.push(span);
        assert(spans.deep_view() =~= before.push(span.deep_view()));
        i = i + 1;
    }
    Ok(FileBlame { spans })
}

// ---------------------------------------------------------------------------------------------
// Statistics of a range
// ---------------------------------------------------------------------------------------------
/// An AI wrote a line, as far as is known.
pub open spec fn is_ai_line(spans: Seq<BlamedSpanView>, line: u32) -> bool {
    match line_authorship(spans, line) {
        Some((_, is_ai)) => is_ai,
        None => false,
    }
}

/// How many of the lines an AI wrote.
pub open spec fn ai_count(spans: Seq<BlamedSpanView>, numbers: Seq<u32>) -> nat
    decreases numbers.len(),
{
    if numbers.len() == 0 {
        0
    } else {
        ai_count(spans, numbers.drop_last()) + if is_ai_line(spans, numbers.last()) {
            1nat
        } else {
            0nat
        }
    }
}

/// Lines of a range by author.
pub struct RangeCounts {
    pub human: nat,
    pub ai: nat,
}

/// The added lines by author, for the files from place `i` on.
pub open spec fn count_files_run(
    newest: Seq<char>,
    commits: Seq<CommitAuthorshipView>,
    files: Seq<(Seq<char>, Seq<u32>)>,
    i: int,
    done: RangeCounts,
    s: Tape,
) -> Run<RangeCounts>
    decreases files.len() - i,
{
    if i < 0 || i >= files.len() {
        (Ok(done), s)
    } else {
        match file_blame_run(files[i].0, newest, commits, s) {
            (Ok(spans), s1) => {
                let ai = ai_count(spans, files[i].1);
                count_files_run(
                    newest,
                    commits,
                    files,
                    i + 1,
                    RangeCounts {
                        human: done.human + (files[i].1.len() - ai) as nat,
                        ai: done.ai + ai,
                    },
                    s1,
                )
            },
            (Err(stop), s1) => (Err(stop), s1),
        }
    }
}

proof fn lemma_ai_count(spans: Seq<BlamedSpanView>, numbers: Seq<u32>)
    ensures
        ai_count(spans, numbers) <= numbers.len(),
    decreases numbers.len(),
{
    if numbers.len() > 0 {
        lemma_ai_count(spans, numbers.drop_last());
    }
}

proof fn lemma_last_span(spans: Seq<BlamedSpanView>, line: u32, k: int)
    requires
        0 <= k < spans.len(),
        spans[k].first <= line <= spans[k].last,
        forall|j: int|
            k < j < spans.len() ==> !((#[trigger] spans[j]).first <= line <= spans[j].last),
    ensures
        line_authorship(spans, line) == Some((spans[k].commit_sha, spans[k].is_ai)),
    decreases spans.len(),
{
    if k < spans.len() - 1 {
        let d = spans.drop_last();
        assert(!(spans[spans.len() - 1].first <= line <= spans[spans.len() - 1].last));
        assert forall|j: int| k < j < d.len() implies !((#[trigger] d[j]).first <= line
            <= d[j].last) by {
            assert(d[j] == spans[j]);
        }
        lemma_last_span(d, line, k);
    }
}

proof fn lemma_no_span(spans: Seq<BlamedSpanView>, line: u32)
    requires
        forall|j: int|
            0 <= j < spans.len() ==> !((#[trigger] spans[j]).first <= line <= spans[j].last),
    ensures
        line_authorship(spans, line) is None,
    decreases spans.len(),
{
    if spans.len() > 0 {
        let d = spans.drop_last();
        assert(!(spans[spans.len() - 1].first <= line <= spans[spans.len() - 1].last));
        assert forall|j: int| 0 <= j < d.len() implies !((#[trigger] d[j]).first <= line
            <= d[j].last) by {
            assert(d[j] == spans[j]);
        }
        lemma_no_span(d, line);
    }
}

/// What is known of a line is what the last span that has just that line says: the commit that
/// last changed it and whether an AI wrote it.
pub proof fn law_line_is_of_its_span(spans: Seq<BlamedSpanView>, line: u32, k: int)
    requires
        0 <= k < spans.len(),
        spans[k].first <= line <= spans[k].last,
        forall|j: int|
            k < j < spans.len() ==> !((#[trigger] spans[j]).first <= line <= spans[j].last),
    ensures
        line_authorship(spans, line) == Some((spans[k].commit_sha, spans[k].is_ai)),
        is_ai_line(spans, line) == spans[k].is_ai,
{
    lemma_last_span(spans, line, k);
}

/// Of a line that no span has nothing is known, and it does not count as an AI's.
pub proof fn law_line_without_span(spans: Seq<BlamedSpanView>, line: u32)
    requires
        forall|j: int|
            0 <= j < spans.len() ==> !((#[trigger] spans[j]).first <= line <= spans[j].last),
    ensures
        line_authorship(spans, line) is None,
        !is_ai_line(spans, line),
{
    lemma_no_span(spans, line);
}

/// The span that a line counts for: the last that has it.
pub open spec fn is_span_of(spans: Seq<BlamedSpanView>, line: u32, k: int) -> bool {
    &&& 0 <= k < spans.len()
    &&& spans[k].first <= line <= spans[k].last
    &&& forall|j: int|
        k < j < spans.len() ==> !((#[trigger] spans[j]).first <= line <= spans[j].last)
}

proof fn lemma_span_or_none(spans: Seq<BlamedSpanView>, line: u32, m: int)
    requires
        0 <= m <= spans.len(),
        forall|j: int|
            m <= j < spans.len() ==> !((#[trigger] spans[j]).first <= line <= spans[j].last),
    ensures
        (exists|k: int| #[trigger] is_span_of(spans, line, k)) || forall|j: int|
            0 <= j < spans.len() ==> !((#[trigger] spans[j]).first <= line <= spans[j].last),
    decreases m,
{
    if m > 0 {
        if spans[m - 1].first <= line <= spans[m - 1].last {
            assert(is_span_of(spans, line, m - 1));
        } else {
            lemma_span_or_none(spans, line, m - 1);
        }
    }
}

/// An added line counts as the AI's just where the last span that has that very line says that an
/// AI wrote it, and each added line is counted by itself.
pub proof fn law_added_lines_count_for_their_spans(
    spans: Seq<BlamedSpanView>,
    numbers: Seq<u32>,
    line: u32,
)
    ensures
        ai_count(spans, Seq::empty()) == 0,
        ai_count(spans, numbers.push(line)) == ai_count(spans, numbers) + (if exists|k: int| #[trigger]
            is_span_of(spans, line, k) && spans[k].is_ai {
            1int
        } else {
            0int
        }),
{
    assert(numbers.push(line).drop_last() =~= numbers);
    lemma_span_or_none(spans, line, spans.len() as int);
    if exists|k: int| #[trigger] is_span_of(spans, line, k) {
        let k = choose|k: int| #[trigger] is_span_of(spans, line, k);
        lemma_last_span(spans, line, k);
        assert forall|m: int| #[trigger] is_span_of(spans, line, m) implies m == k by {
        }
    } else {
        lemma_no_span(spans, line);
    }
}

fn count_ai(blame: &FileBlame, numbers: &Vec<u32>) -> (r: usize)
    ensures
        r == ai_count(blame.deep_view(), numbers@),
        r <= numbers@.len(),
{
    let mut n: usize = 0;
    let mut i: usize = 0;
    assert(numbers@.take(0) =~= Seq::empty());
    while i < numbers.len()
        invariant
            i <= numbers@.len(),
            n <= i,
            n == ai_count(blame.deep_view(), numbers@.take(i as int)),
        decreases numbers@.len() - i,
    {
        assert(numbers@.take(i + 1).drop_last() =~= numbers@.take(i as int));
        // Could not determine, count as human
        let is_ai = match blame.get_line_authorship(numbers[i]) {
            Some((_, is_ai)) => is_ai,
            None => false,
        };
        if is_ai {
            n = n + 1;
        }
        i = i + 1;
    }
    assert(numbers@.take(i as int) =~= numbers@);
    n
}

/// The statistics of a range, from its diff and the counts by author.
pub open spec fn range_stats_of(added: nat, deleted: nat, counts: RangeCounts) -> CommitStats {
    CommitStats {
        human_additions: counts.human as u32,
        mixed_additions: 0,
        ai_additions: counts.ai as u32,
        ai_accepted: counts.ai as u32,
        time_waiting_for_ai: 0,
        ai_input_tokens: 0,
        ai_output_tokens: 0,
        ai_cache_read_input_tokens: 0,
        ai_cache_creation_input_tokens: 0,
        git_diff_deleted_lines: deleted as u32,
        git_diff_added_lines: added as u32,
    }
}

/// The statistics of a range, from its diff.
pub open spec fn diff_range_stats_run(
    diff: Seq<char>,
    end: Seq<char>,
    commits: Seq<CommitAuthorshipView>,
    s: Tape,
) -> Run<CommitStats> {
    let all = lines_of(diff);
    if !readable(all) || plus_count(all) > u32::MAX || minus_count(all) > u32::MAX {
        aborted("the diff cannot be read"@, s)
    } else {
        match count_files_run(
            end,
            commits,
            diff_additions(diff),
            0,
            RangeCounts { human: 0, ai: 0 },
            s,
        ) {
            (Ok(counts), s1) => (
                Ok(range_stats_of(plus_count(all), minus_count(all), counts)),
                s1,
            ),
            (Err(stop), s1) => (Err(stop), s1),
        }
    }
}

/// The statistics of the range from `start` to `end`.
pub open spec fn range_stats_run(
    repo: RepositoryView,
    start: Seq<char>,
    end: Seq<char>,
    commits: Seq<CommitAuthorshipView>,
    s: Tape,
) -> Run<CommitStats> {
    match git_text(s, repo.args().push("diff"@).push(start + ".."@ + end)) {
        (Ok(diff), s1) => diff_range_stats_run(diff, end, commits, s1),
        (Err(stop), s1) => (Err(stop), s1),
    }
}

/// The lines that are counted for the files from the first to the `i`th.
spec fn counted(files: Seq<(Seq<char>, Seq<u32>)>, i: int) -> nat {
    line_total(files.take(i))
}

proof fn lemma_counted(files: Seq<(Seq<char>, Seq<u32>)>, i: int)
    requires
        0 <= i < files.len(),
    ensures
        counted(files, i + 1) == counted(files, i) + files[i].1.len(),
        counted(files, i + 1) <= line_total(files),
    decreases files.len() - i,
{
    assert(files.take(i + 1).drop_last() =~= files.take(i));
    if i + 1 < files.len() {
        lemma_counted(files, i + 1);
    } else {
        assert(files.take(i + 1) =~= files);
    }
}

/// The lines of a range are counted as human or AI, all of them and none twice.
pub proof fn law_range_counts_add_up(
    newest: Seq<char>,
    commits: Seq<CommitAuthorshipView>,
    files: Seq<(Seq<char>, Seq<u32>)>,
    s: Tape,
)
    ensures
        count_files_run(newest, commits, files, 0, RangeCounts { human: 0, ai: 0 }, s).0 matches Ok(
            counts,
        ) ==> counts.human + counts.ai == line_total(files),
{
    assert(files.take(0) =~= Seq::empty());
    lemma_counts_add_up(newest, commits, files, 0, RangeCounts { human: 0, ai: 0 }, s);
}

/// Where each line that a diff adds stands behind a line that names a file, the lines of the range
/// that humans and those that AIs wrote are together the lines that are added.
pub proof fn law_range_stats_add_up(
    diff: Seq<char>,
    end: Seq<char>,
    commits: Seq<CommitAuthorshipView>,
    s: Tape,
)
    requires
        all_filed(lines_of(diff)),
    ensures
        diff_range_stats_run(diff, end, commits, s).0 matches Ok(stats) ==> stats.human_additions
            + stats.ai_additions == stats.git_diff_added_lines,
{
    law_additions_are_plus_lines(diff);
    law_range_counts_add_up(end, commits, diff_additions(diff), s);
}

proof fn lemma_counts_add_up(
    newest: Seq<char>,
    commits: Seq<CommitAuthorshipView>,
    files: Seq<(Seq<char>, Seq<u32>)>,
    i: int,
    done: RangeCounts,
    s: Tape,
)
    requires
        0 <= i <= files.len(),
        done.human + done.ai == counted(files, i),
    ensures
        count_files_run(newest, commits, files, i, done, s).0 matches Ok(counts) ==> counts.human
            + counts.ai == line_total(files),
    decreases files.len() - i,
{
    if i == files.len() {
        assert(files.take(i) =~= files);
    } else {
        match file_blame_run(files[i].0, newest, commits, s) {
            (Ok(spans), s1) => {
                let ai = ai_count(spans, files[i].1);
                lemma_ai_count(spans, files[i].1);
                lemma_counted(files, i);
                lemma_counts_add_up(
                    newest,
                    commits,
                    files,
                    i + 1,
                    RangeCounts {
                        human: done.human + (files[i].1.len() - ai) as nat,
                        ai: done.ai + ai,
                    },
                    s1,
                );
            },
            (Err(_), _) => {},
        }
    }
}

fn count_range(
    added_lines_by_file: &Vec<(String, Vec<u32>)>,
    end_sha: &str,
    commit_authorship: &Vec<CommitAuthorship>,
    session: &mut Session,
) -> (r: Result<(u32, u32), Stop>)
    requires
        line_total(added_lines_by_file.deep_view()) <= u32::MAX,
    ensures
        match r {
            Ok((human, ai)) => count_files_run(
                end_sha@,
                commit_authorship.deep_view(),
                added_lines_by_file.deep_view(),
                0,
                RangeCounts { human: 0, ai: 0 },
                old(session)@,
            ) == (
                Ok::<RangeCounts, StopView>(RangeCounts { human: human as nat, ai: ai as nat }),
                final(session)@,
            ),
            Err(stop) => count_files_run(
                end_sha@,
                commit_authorship.deep_view(),
                added_lines_by_file.deep_view(),
                0,
                RangeCounts { human: 0, ai: 0 },
                old(session)@,
            ) == (Err::<RangeCounts, StopView>(stop.deep_view()), final(session)@),
        },
{
    let ghost files = added_lines_by_file.deep_view();
    let ghost commits = commit_authorship.deep_view();
    let mut human_additions: u32 = 0;
    let mut ai_additions: u32 = 0;
    let ghost whole = count_files_run(
        end_sha@,
        commits,
        files,
        0,
        RangeCounts { human: 0, ai: 0 },
        session@,
    );
    let mut i: usize = 0;
    assert(files.take(0) =~= Seq::empty());
    while i < added_lines_by_file.len()
        invariant
            i <= added_lines_by_file@.len(),
            files == added_lines_by_file.deep_view(),
            commits == commit_authorship.deep_view(),
            line_total(files) <= u32::MAX,
            human_additions + ai_additions == counted(files, i as int),
            count_files_run(
                end_sha@,
                commits,
                files,
                i as int,
                RangeCounts { human: human_additions as nat, ai: ai_additions as nat },
                session@,
            ) == whole,
            whole == count_files_run(
                end_sha@,
                commits,
                files,
                0,
                RangeCounts { human: 0, ai: 0 },
                old(session)@,
            ),
        decreases added_lines_by_file@.len() - i,
    {
        let pair = &added_lines_by_file[i];
        assert(files[i as int] == pair.deep_view());
        assert(pair.1.deep_view() =~= pair.1@);
        proof {
            lemma_counted(files, i as int);
        }
        let blame = compute_file_blame(pair.0.as_str(), end_sha, commit_authorship, session)?;
        let ai: usize = count_ai(&blame, &pair.1);
        let human: usize = pair.1.len() - ai;
        ai_additions = ai_additions + ai as u32;
        human_additions = human_additions + human as u32;
        i = i + 1;
    }
    Ok((human_additions, ai_additions))
}

/// Calculate AI vs human line contributions for a commit range
/// by diffing start->end and using blame to determine authorship
pub fn calculate_range_stats_direct(
    repo: &Repository,
    start_sha: &str,
    end_sha: &str,
    commit_authorship: &Vec<CommitAuthorship>,
    session: &mut Session,
) -> (r: Result<CommitStats, Stop>)
    ensures
        (seen(r), final(session)@) == range_stats_run(
            repo.deep_view(),
            start_sha@,
            end_sha@,
            commit_authorship.deep_view(),
            old(session)@,
        ),
{
    // Get the diff using git diff to ensure consistency with git's view
    let mut args = repo.global_args_for_exec();
    word(&mut args, "diff");
    word(&mut args, join3(start_sha, "..", end_sha).as_str());
    let diff_output = git_output_text(session, args)?;
    // Parse diff to extract added lines and their line numbers
    let added_lines_by_file = match try_parse_git_diff_for_added_lines(diff_output.as_str()) {
        Some(added) => added,
        None => {
            return Err(Stop::Abort("the diff cannot be read".to_string()));
        },
    };
    // First pass: count total additions/deletions from the diff
    let (added, deleted) = match count_diff_lines(diff_output.as_str()) {
        Some(counts) => counts,
        None => {
            return Err(Stop::Abort("the diff cannot be read".to_string()));
        },
    };
    proof {
        law_additions_are_plus_lines(diff_output@);
    }
    // Second pass: for each added line, lookup authorship
    let (human_additions, ai_additions) = count_range(
        &added_lines_by_file,
        end_sha,
        commit_authorship,
        session,
    )?;
    Ok(
        CommitStats {
            human_additions,
            mixed_additions: 0,
            ai_additions,
            ai_accepted: ai_additions,
            time_waiting_for_ai: 0,
            ai_input_tokens: 0,
            ai_output_tokens: 0,
            ai_cache_read_input_tokens: 0,
            ai_cache_creation_input_tokens: 0,
            git_diff_deleted_lines: deleted,
            git_diff_added_lines: added,
        },
    )
}

// ---------------------------------------------------------------------------------------------
// The range
// ---------------------------------------------------------------------------------------------
/// What is fetched for a reference: a remote, and the name of the branch there.
pub open spec fn fetch_source(refname: Seq<char>, default_remote: Seq<char>) -> (
    Seq<char>,
    Seq<char>,
) {
    match after_prefix(refname, "refs/remotes/"@) {
        Some(rest) => match cut_at(rest, '/') {
            Some((remote, branch)) => (remote, "refs/heads/"@ + branch),
            None => (default_remote, refname),
        },
        None => if has_prefix(refname, "refs/heads/"@) {
            (default_remote, refname)
        } else if has_prefix(refname, "refs/"@) {
            (default_remote, "refs/heads/"@ + refname)
        } else {
            match cut_at(refname, '/') {
                Some((remote, branch)) => (remote, "refs/heads/"@ + branch),
                None => (default_remote, "refs/heads/"@ + refname),
            }
        },
    }
}

/// What is fetched for a reference: a remote, and the name of the branch there.
pub fn find_fetch_source(refname: &str, default_remote: &str) -> (r: (String, String))
    ensures
        r.deep_view() == fetch_source(refname@, default_remote@),
{
    if let Some(rest) = strip_prefix(refname, "refs/remotes/") {
        // Remote branch: refs/remotes/origin/branch-name -> origin, refs/heads/branch-name
        match split_once(rest.as_str(), '/') {
            Some((remote, branch)) => (remote, join2("refs/heads/", branch.as_str())),
            None => (default_remote.to_string(), refname.to_string()),
        }
    } else if starts_with(refname, "refs/heads/") {
        // Local branch: refs/heads/branch-name -> default_remote, refs/heads/branch-name
        (default_remote.to_string(), refname.to_string())
    } else if starts_with(refname, "refs/") {
        (default_remote.to_string(), join2("refs/heads/", refname))
    } else {
        match split_once(refname, '/') {
            // Simple remote format: origin/branch-name -> origin, refs/heads/branch-name
            Some((remote, branch)) => (remote, join2("refs/heads/", branch.as_str())),
            // Plain branch name: branch-name -> default_remote, refs/heads/branch-name
            None => (default_remote.to_string(), join2("refs/heads/", refname)),
        }
    }
}

/// The branch of a range is fetched.
pub open spec fn fetch_run(repo: RepositoryView, refname: Seq<char>, s: Tape) -> Run<()> {
    match default_remote_run(repo, s) {
        (Ok(remote), s1) => {
            let source = fetch_source(
                refname,
                match remote {
                    Some(remote) => remote,
                    None => "origin"@,
                },
            );
            match git_bytes(s1, repo.args().push("fetch"@).push(source.0).push(source.1)) {
                (Ok(_), s2) => (Ok(()), s2),
                (Err(stop), s2) => (Err(stop), s2),
            }
        },
        (Err(stop), s1) => (Err(stop), s1),
    }
}

fn fetch_branch(repo: &Repository, refname: &str, session: &mut Session) -> (r: Result<(), Stop>)
    ensures
        (seen(r), final(session)@) == fetch_run(repo.deep_view(), refname@, old(session)@),
{
    // Get default remote, fallback to "origin" if not found
    let default_remote = match repo.get_default_remote(session)? {
        Some(remote) => remote,
        None => "origin".to_string(),
    };
    // Extract remote and branch from refname
    let (remote, fetch_refspec) = find_fetch_source(refname, default_remote.as_str());
    let mut args = repo.global_args_for_exec();
    word(&mut args, "fetch");
    word(&mut args, remote.as_str());
    word(&mut args, fetch_refspec.as_str());
    git_output(session, args)?;
    Ok(())
}

/// How many of the commits have a log.
pub open spec fn log_count(commits: Seq<CommitAuthorshipView>) -> nat
    decreases commits.len(),
{
    if commits.len() == 0 {
        0
    } else {
        log_count(commits.drop_last()) + if commits.last() is Log {
            1nat
        } else {
            0nat
        }
    }
}

/// The authors of the commits that have a log.
pub open spec fn authors_with(commits: Seq<CommitAuthorshipView>) -> Seq<Seq<char>>
    decreases commits.len(),
{
    if commits.len() == 0 {
        Seq::empty()
    } else {
        let before = authors_with(commits.drop_last());
        match commits.last() {
            CommitAuthorshipView::Log { git_author, .. } => if before.contains(git_author) {
                before
            } else {
                before.push(git_author)
            },
            CommitAuthorshipView::NoLog { .. } => before,
        }
    }
}

/// The authors of the commits that have no log.
pub open spec fn authors_without(commits: Seq<CommitAuthorshipView>) -> Seq<Seq<char>>
    decreases commits.len(),
{
    if commits.len() == 0 {
        Seq::empty()
    } else {
        let before = authors_without(commits.drop_last());
        match commits.last() {
            CommitAuthorshipView::NoLog { git_author, .. } => if before.contains(git_author) {
                before
            } else {
                before.push(git_author)
            },
            CommitAuthorshipView::Log { .. } => before,
        }
    }
}

/// The commits that have no log, with their authors.
pub open spec fn commits_without(commits: Seq<CommitAuthorshipView>) -> Seq<(Seq<char>, Seq<char>)>
    decreases commits.len(),
{
    if commits.len() == 0 {
        Seq::empty()
    } else {
        let before = commits_without(commits.drop_last());
        match commits.last() {
            CommitAuthorshipView::NoLog { sha, git_author } => before.push((sha, git_author)),
            CommitAuthorshipView::Log { .. } => before,
        }
    }
}

/// Which commits have a log, and whose commits those are.
pub open spec fn authorship_of(commits: Seq<CommitAuthorshipView>) -> AuthorshipStatsView {
    AuthorshipStatsView {
        total_commits: commits.len(),
        commits_with_authorship: log_count(commits),
        authors_commiting_authorship: authors_with(commits),
        authors_not_commiting_authorship: authors_without(commits),
        commits_without_authorship: commits_without(commits).map_values(
            |c: (Seq<char>, Seq<char>)| c.0,
        ),
        commits_without_authorship_with_authors: commits_without(commits),
    }
}

/// Each commit either has a log or is listed among those that have none.
pub proof fn law_commits_add_up(commits: Seq<CommitAuthorshipView>)
    ensures
        log_count(commits) + commits_without(commits).len() == commits.len(),
        authors_with(commits).no_duplicates(),
        authors_without(commits).no_duplicates(),
    decreases commits.len(),
{
    if commits.len() > 0 {
        law_commits_add_up(commits.drop_last());
    }
}

/// Which commits have a log, and whose commits those are.
pub fn summarize_authorship(commits: &Vec<CommitAuthorship>) -> (r: AuthorshipStats)
    ensures
        r.deep_view() == authorship_of(commits.deep_view()),
{
    let ghost all = commits.deep_view();
    let mut with_log: usize = 0;
    let mut authors: Vec<String> = Vec::new();
    let mut other_authors: Vec<String> = Vec::new();
    let mut without: Vec<String> = Vec::new();
    let mut without_with_authors: Vec<(String, String)> = Vec::new();
    let mut i: usize = 0;
    assert(all.take(0) =~= Seq::empty());
    assert(authors.deep_view() =~= Seq::empty());
    assert(other_authors.deep_view() =~= Seq::empty());
    assert(without_with_authors.deep_view() =~= Seq::empty());
    while i < commits.len()
        invariant
            i <= commits@.len(),
            all == commits.deep_view(),
            with_log <= i,
            with_log == log_count(all.take(i as int)),
            authors.deep_view() == authors_with(all.take(i as int)),
            other_authors.deep_view() == authors_without(all.take(i as int)),
            without_with_authors.deep_view() == commits_without(all.take(i as int)),
            without.deep_view() =~= commits_without(all.take(i as int)).map_values(
                |c: (Seq<char>, Seq<char>)| c.0,
            ),
        decreases commits@.len() - i,
    {
        assert(all.take(i + 1).drop_last() =~= all.take(i as int));
        assert(all.take(i + 1).last() == commits@[i as int].deep_view());
        match &commits[i] {
            CommitAuthorship::Log { git_author, .. } => {
                with_log = with_log + 1;
                add_distinct(&mut authors, git_author.as_str());
            },
            CommitAuthorship::NoLog { sha, git_author } => {
                add_distinct(&mut other_authors, git_author.as_str());
                word(&mut without, sha.as_str());
                let ghost before = without_with_authors.deep_view();
                without_with_authors.push((sha.clone(), git_author.clone()));
                assert(without_with_authors.deep_view() =~= before.push((sha@, git_author@)));
            },
        }
        i = i + 1;
    }
    assert(all.take(i as int) =~= all);
    AuthorshipStats {
        total_commits: commits.len(),
        commits_with_authorship: with_log,
        authors_commiting_authorship: authors,
        authors_not_commiting_authorship: other_authors,
        commits_without_authorship: without,
        commits_without_authorship_with_authors: without_with_authors,
    }
}

/// What the notes say of commits.
pub open spec fn asked_commits(s: Tape, commits: Seq<Seq<char>>) -> Run<Seq<CommitAuthorshipView>> {
    match asked(s, RequestView::CommitsWithNotes { commits }) {
        (Ok(Reply::Commits(Ok(found))), s1) => (Ok(found.deep_view()), s1),
        (Ok(Reply::Commits(Err(e))), s1) => failed(e.deep_view(), s1),
        (Ok(_), s1) => (Err(StopView::Mismatch), s1),
        (Err(stop), s1) => (Err(stop), s1),
    }
}

/// The authorship of the commits of a range.
pub open spec fn range_commits_stats_run(range: CommitRangeView, s: Tape) -> Run<
    RangeAuthorshipStatsView,
> {
    match range_commits_run(range, s) {
        (Ok(shas), s1) => match asked_commits(s1, shas) {
            (Ok(commits), s2) => match range_stats_run(
                range.repo,
                range.start_oid,
                range.end_oid,
                commits,
                s2,
            ) {
                (Ok(range_stats), s3) => (
                    Ok(
                        RangeAuthorshipStatsView {
                            authorship_stats: authorship_of(commits),
                            range_stats,
                        },
                    ),
                    s3,
                ),
                (Err(stop), s3) => (Err(stop), s3),
            },
            (Err(stop), s2) => (Err(stop), s2),
        },
        (Err(stop), s1) => (Err(stop), s1),
    }
}

/// The authorship of a range that has to be a valid one; its branch is fetched first, where that
/// is asked for.
pub open spec fn range_authorship_run(range: CommitRangeView, pre_fetch: bool, s: Tape) -> Run<
    RangeAuthorshipStatsView,
> {
    match is_valid_run(range, s) {
        (Ok(_), s1) => if pre_fetch {
            match fetch_run(range.repo, range.refname, s1) {
                (Ok(_), s2) => range_commits_stats_run(range, s2),
                (Err(stop), s2) => (Err(stop), s2),
            }
        } else {
            range_commits_stats_run(range, s1)
        },
        (Err(stop), s1) => (Err(stop), s1),
    }
}

pub fn range_authorship(
    commit_range: CommitRange<'_>,
    pre_fetch_contents: bool,
    session: &mut Session,
) -> (r: Result<RangeAuthorshipStats, Stop>)
    ensures
        (seen(r), final(session)@) == range_authorship_run(
            commit_range.deep_view(),
            pre_fetch_contents,
            old(session)@,
        ),
{
    commit_range.is_valid(session)?;
    let repository = commit_range.repo();
    // Fetch the branch if pre_fetch_contents is true
    if pre_fetch_contents {
        fetch_branch(repository, commit_range.refname_text(), session)?;
    }
    // Extract start/end before consuming commit_range

    let start_sha = commit_range.start_text().to_string();
    let end_sha = commit_range.end_text().to_string();
    // First, collect all commit SHAs from the range
    let commit_shas = commit_range.into_iter(session)?.ids();
    let commit_authorship = match session.ask(
        Request::CommitsWithNotes { commits: commit_shas },
    )? {
        Reply::Commits(Ok(found)) => found,
        Reply::Commits(Err(e)) => {
            return Err(Stop::Fail(e.clone()));
        },
        _ => {
            return Err(Stop::Mismatch);
        },
    };
    // Calculate range stats using the extracted start/end and pre-loaded commit_authorship
    let range_stats = calculate_range_stats_direct(
        repository,
        start_sha.as_str(),
        end_sha.as_str(),
        commit_authorship,
        session,
    )?;
    Ok(
        RangeAuthorshipStats {
            authorship_stats: summarize_authorship(commit_authorship),
            range_stats,
        },
    )
}

// ---------------------------------------------------------------------------------------------
// Showing a range
// ---------------------------------------------------------------------------------------------
/// How many bytes a character takes in UTF-8.
pub open spec fn utf8_width(c: char) -> nat {
    if (c as u32) < 0x80 {
        1
    } else if (c as u32) < 0x800 {
        2
    } else if (c as u32) < 0x10000 {
        3
    } else {
        4
    }
}

/// The characters that take up just the first `n` bytes.
pub open spec fn first_bytes(s: Seq<char>, n: nat) -> Option<Seq<char>>
    decreases s.len(),
{
    if n == 0 {
        Some(Seq::empty())
    } else if s.len() == 0 || utf8_width(s[0]) > n {
        None
    } else {
        match first_bytes(s.drop_first(), (n - utf8_width(s[0])) as nat) {
            Some(rest) => Some(seq![s[0]] + rest),
            None => None,
        }
    }
}

fn take_first_bytes(s: &str, n: usize) -> (r: Option<String>)
    ensures
        match r {
            Some(text) => first_bytes(s@, n as nat) == Some(text@),
            None => first_bytes(s@, n as nat) is None,
        },
{
    let v = chars(s);
    let mut left: usize = n;
    let mut i: usize = 0;
    assert(s@.skip(0) =~= s@);
    while left > 0
        invariant
            i <= v@.len(),
            v@ == s@,
            left <= n,
            match first_bytes(s@, n as nat) {
                Some(all) => first_bytes(s@.skip(i as int), left as nat) matches Some(rest) && all
                    =~= s@.take(i as int) + rest,
                None => first_bytes(s@.skip(i as int), left as nat) is None,
            },
        decreases left,
    {
        let ghost rest = s@.skip(i as int);
        if i >= v.len() {
            return None;
        }
        let c: char = v[i];
        assert(rest[0] == c);
        assert(rest.drop_first() =~= s@.skip(i + 1));
        assert(s@.take(i + 1) =~= s@.take(i as int) + seq![c]);
        let u: u32 = c as u32;
        let width: usize = if u < 0x80 {
            1
        } else if u < 0x800 {
            2
        } else if u < 0x10000 {
            3
        } else {
            4
        };
        if width > left {
            return None;
        }
        left = left - width;
        i = i + 1;
    }
    let text = slice_text(&v, 0, i);
    assert(text@ =~= s@.take(i as int));
    assert(s@.take(i as int) + Seq::<char>::empty() =~= s@.take(i as int));
    Some(text)
}

/// The commits without a log are listed, from place `i` on.
pub open spec fn print_commits_run(commits: Seq<(Seq<char>, Seq<char>)>, i: int, s: Tape) -> Run<()>
    decreases commits.len() - i,
{
    if i < 0 || i >= commits.len() {
        (Ok(()), s)
    } else {
        match first_bytes(commits[i].0, 7) {
            Some(short) => match printed(s, "    "@ + short + " "@ + commits[i].1) {
                (Ok(_), s1) => print_commits_run(commits, i + 1, s1),
                (Err(stop), s1) => (Err(stop), s1),
            },
            None => aborted("a commit id is too short"@, s),
        }
    }
}

/// How many commits have no log is said, and they are listed.
pub open spec fn print_missing_run(stats: AuthorshipStatsView, s: Tape) -> Run<()> {
    if stats.commits_with_authorship > stats.total_commits {
        aborted("attempt to subtract with overflow"@, s)
    } else {
        let missing = (stats.total_commits - stats.commits_with_authorship) as nat;
        let word = if missing == 1 {
            "commit"@
        } else {
            "commits"@
        };
        match printed(s, "  "@ + decimal(missing) + " "@ + word + " without Authorship Logs"@) {
            (Ok(_), s1) => print_commits_run(stats.commits_without_authorship_with_authors, 0, s1),
            (Err(stop), s1) => (Err(stop), s1),
        }
    }
}

/// The authorship of a range is shown.
pub open spec fn print_range_run(stats: RangeAuthorshipStatsView, s: Tape) -> Run<()> {
    match printed(s, "\n"@) {
        (Ok(_), s1) => if stats.authorship_stats.commits_with_authorship == 0 {
            printed(s1, "Committers are not using git-ai"@)
        } else {
            match terminal_run(stats.range_stats, true, s1) {
                (Ok(_), s2) => if stats.authorship_stats.commits_with_authorship
                    == stats.authorship_stats.total_commits {
                    (Ok(()), s2)
                } else {
                    print_missing_run(stats.authorship_stats, s2)
                },
                (Err(stop), s2) => (Err(stop), s2),
            }
        },
        (Err(stop), s1) => (Err(stop), s1),
    }
}

fn print_missing(stats: &AuthorshipStats, session: &mut Session) -> (r: Result<(), Stop>)
    ensures
        (seen(r), final(session)@) == print_missing_run(stats.deep_view(), old(session)@),
{
    if stats.commits_with_authorship > stats.total_commits {
        return Err(Stop::Abort("attempt to subtract with overflow".to_string()));
    }
    let missing: usize = stats.total_commits - stats.commits_with_authorship;
    let commit_word = if missing == 1 {
        "commit"
    } else {
        "commits"
    };
    let start = join3("  ", decimal_text(missing as u128).as_str(), " ");
    session.print(join3(start.as_str(), commit_word, " without Authorship Logs"))?;
    // Show each commit without authorship
    let commits = &stats.commits_without_authorship_with_authors;
    let ghost all = commits.deep_view();
    let ghost whole = print_commits_run(all, 0, session@);
    let mut i: usize = 0;
    while i < commits.len()
        invariant
            i <= commits@.len(),
            all == commits.deep_view(),
            print_commits_run(all, i as int, session@) == whole,
            whole == print_missing_run(stats.deep_view(), old(session)@),
        decreases commits@.len() - i,
    {
        assert(all[i as int] == commits@[i as int].deep_view());
        match take_first_bytes(commits[i].0.as_str(), 7) {
            Some(short) => {
                let line = join3("    ", short.as_str(), " ");
                session.print(join2(line.as_str(), commits[i].1.as_str()))?;
            },
            None => {
                return Err(Stop::Abort("a commit id is too short".to_string()));
            },
        }
        i = i + 1;
    }
    Ok(())
}

pub fn print_range_authorship_stats(stats: &RangeAuthorshipStats, session: &mut Session) -> (r:
    Result<(), Stop>)
    ensures
        (seen(r), final(session)@) == print_range_run(stats.deep_view(), old(session)@),
{
    session.print("\n".to_string())?;
    // Check if any commits have authorship logs
    // If none of the commits have authorship logs, show the special message
    if stats.authorship_stats.commits_with_authorship == 0 {
        return session.print("Committers are not using git-ai".to_string());
    }
    // Use existing stats terminal output

    write_stats_to_terminal(&stats.range_stats, true, session)?;
    // If not all commits have authorship logs, show the breakdown
    if stats.authorship_stats.commits_with_authorship != stats.authorship_stats.total_commits {
        print_missing(&stats.authorship_stats, session)?;
    }
    Ok(())
}

} // verus!
