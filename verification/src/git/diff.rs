//! Reading unified diffs without context lines: which lines of which files they add.
use crate::assoc::{find, lemma_place_bounds, lemma_with_value_found, value_of, with_value};
use crate::error::GitAiError;
use crate::text::{
    after_prefix, chars, has_prefix, lines, lines_of, parse_u32, parsed, slice_text, split_at_char,
    split_at_text, split_char, split_text, split_whitespace, starts_with, strip_prefix, trim,
    trimmed, words_of,
};
use vstd::prelude::*;

verus! {

broadcast use vstd::seq::group_seq_axioms;

// ---------------------------------------------------------------------------------------------
// Hunk headers
// ---------------------------------------------------------------------------------------------
/// `s` without the plus signs at its start.
pub open spec fn without_pluses(s: Seq<char>) -> Seq<char>
    decreases s.len(),
{
    if s.len() > 0 && s[0] == '+' {
        without_pluses(s.drop_first())
    } else {
        s
    }
}

/// The first of the words that starts with a plus sign.
pub open spec fn first_with_plus(words: Seq<Seq<char>>) -> Option<Seq<char>>
    decreases words.len(),
{
    if words.len() == 0 {
        None
    } else if words[0].len() > 0 && words[0][0] == '+' {
        Some(words[0])
    } else {
        first_with_plus(words.drop_first())
    }
}

/// A first line and a number of lines, written `start,count`, or `start` for one line.
pub open spec fn start_and_count(s: Seq<char>) -> Option<(nat, nat)> {
    let parts = split_at_char(s, ',');
    match parsed(parts[0], u32::MAX as nat) {
        Some(start) => if parts.len() > 1 {
            match parsed(parts[1], u32::MAX as nat) {
                Some(count) => Some((start, count)),
                None => None,
            }
        } else {
            Some((start, 1nat))
        },
        None => None,
    }
}

/// The first line and the number of lines that a hunk header gives for the new file.
pub open spec fn hunk_range_of(line: Seq<char>) -> Option<(nat, nat)> {
    let parts = split_at_text(line, "@@"@);
    if parts.len() < 2 {
        None
    } else {
        let words = words_of(trimmed(parts[1]));
        if words.len() < 2 {
            None
        } else {
            match first_with_plus(words) {
                Some(word) => start_and_count(without_pluses(word)),
                None => None,
            }
        }
    }
}

/// The lines from `start` on, `count` of them.
pub open spec fn run_of_lines(start: nat, count: nat) -> Seq<u32> {
    Seq::new(count, |i: int| (start + i) as u32)
}

/// The lines that a hunk header adds, where it is one.
pub open spec fn hunk_lines(line: Seq<char>) -> Option<Seq<u32>> {
    match hunk_range_of(line) {
        Some((start, count)) => Some(run_of_lines(start, count)),
        None => None,
    }
}

/// The line after a hunk's last has a number, too.
pub open spec fn hunk_fits(line: Seq<char>) -> bool {
    match hunk_range_of(line) {
        Some((start, count)) => start + count <= u32::MAX,
        None => true,
    }
}

fn strip_pluses(s: &str) -> (r: String)
    ensures
        r@ == without_pluses(s@),
{
    let v = chars(s);
    let mut i: usize = 0;
    assert(s@.skip(0) =~= s@);
    while i < v.len() && v[i] == '+'
        invariant
            i <= v@.len(),
            v@ == s@,
            without_pluses(s@.skip(i as int)) == without_pluses(s@),
        decreases v@.len() - i,
    {
        assert(s@.skip(i as int).drop_first() =~= s@.skip(i + 1));
        i = i + 1;
    }
    let r = slice_text(&v, i, v.len());
    assert(r@ =~= s@.skip(i as int));
    r
}

fn find_with_plus(words: &Vec<String>) -> (r: Option<usize>)
    ensures
        match r {
            Some(i) => i < words@.len() && first_with_plus(words.deep_view()) == Some(words@[i as int]@),
            None => first_with_plus(words.deep_view()) is None,
        },
{
    let mut i: usize = 0;
    let ghost all = words.deep_view();
    assert(all.skip(0) =~= all);
    while i < words.len()
        invariant
            i <= words@.len(),
            all == words.deep_view(),
            first_with_plus(all.skip(i as int)) == first_with_plus(all),
        decreases words@.len() - i,
    {
        assert(all.skip(i as int)[0] == words@[i as int]@);
        let v = chars(words[i].as_str());
        if v.len() > 0 && v[0] == '+' {
            return Some(i);
        }
        assert(all.skip(i as int).drop_first() =~= all.skip(i + 1));
        i = i + 1;
    }
    None
}

/// Reads a first line and a number of lines.
fn read_start_and_count(s: &str) -> (r: Option<(u32, u32)>)
    ensures
        match r {
            Some((start, count)) => start_and_count(s@) == Some((start as nat, count as nat)),
            None => start_and_count(s@) is None,
        },
{
    let parts = split_char(s, ',');
    assert(parts.deep_view()[0] == parts@[0]@);
    let start = parse_u32(parts[0].as_str())?;
    if parts.len() > 1 {
        assert(parts.deep_view()[1] == parts@[1]@);
        let count = parse_u32(parts[1].as_str())?;
        Some((start, count))
    } else {
        Some((start, 1))
    }
}

/// The first line and the number of lines that a hunk header gives for the new file.
pub fn hunk_range(line: &str) -> (r: Option<(u32, u32)>)
    ensures
        match r {
            Some((start, count)) => hunk_range_of(line@) == Some((start as nat, count as nat)),
            None => hunk_range_of(line@) is None,
        },
{
    proof {
        reveal_strlit("@@");
    }
    let parts = split_text(line, "@@");
    if parts.len() < 2 {
        return None;
    }
    assert(parts.deep_view()[1] == parts@[1]@);
    let hunk_info = trim(parts[1].as_str());
    let ranges = split_whitespace(hunk_info.as_str());
    if ranges.len() < 2 {
        return None;
    }
    let i: usize = find_with_plus(&ranges)?;
    let new_range = strip_pluses(ranges[i].as_str());
    read_start_and_count(new_range.as_str())
}

fn collect_run(start: u32, count: u32) -> (r: Vec<u32>)
    requires
        start + count <= u32::MAX,
    ensures
        r@ == run_of_lines(start as nat, count as nat),
{
    let mut r: Vec<u32> = Vec::new();
    let end: u32 = start + count;
    let mut n: u32 = start;
    while n < end
        invariant
            start <= n <= end,
            end == start + count,
            r@ =~= run_of_lines(start as nat, (n - start) as nat),
        decreases end - n,
    {
        r.push(n);
        n = n + 1;
    }
    r
}

/// Parse a hunk header line to extract added line numbers
///
/// Format: @@ -old_start,old_count +new_start,new_count @@
/// Returns the line numbers that were added in the new file
pub fn parse_hunk_header(line: &str) -> (r: Option<Vec<u32>>)
    requires
        hunk_fits(line@),
    ensures
        match r {
            Some(added) => hunk_lines(line@) == Some(added@),
            None => hunk_lines(line@) is None,
        },
{
    let (start, count) = hunk_range(line)?;
    Some(collect_run(start, count))
}

// ---------------------------------------------------------------------------------------------
// Within a hunk
// ---------------------------------------------------------------------------------------------
/// How many lines of the old and of the new version of a file a hunk has still to give.
pub struct Left {
    pub old: nat,
    pub new: nat,
}

/// What a line of a diff is: one of the lines of a hunk, or outside of every hunk.
#[derive(Debug, Clone, Copy, PartialEq, Eq, Structural)]
pub enum DiffLine {
    Added,
    Deleted,
    Kept,
    Remark,
    Outside,
}

/// Outside of every hunk.
pub open spec fn none_left() -> Left {
    Left { old: 0, new: 0 }
}

/// The number of lines that a range `-start,count` or `+start,count` has.
pub open spec fn announced_by(word: Seq<char>, sign: char) -> Option<nat> {
    if word.len() > 0 && word[0] == sign {
        match start_and_count(word.skip(1)) {
            Some((_, count)) => Some(count),
            None => None,
        }
    } else {
        None
    }
}

/// The lines that a hunk header announces; none where it does not give both ranges.
pub open spec fn announced(line: Seq<char>) -> Left {
    let parts = split_at_text(line, "@@"@);
    if parts.len() < 2 || words_of(parts[1]).len() < 2 {
        none_left()
    } else {
        match (
            announced_by(words_of(parts[1])[0], '-'),
            announced_by(words_of(parts[1])[1], '+'),
        ) {
            (Some(old), Some(new)) => Left { old, new },
            _ => none_left(),
        }
    }
}

/// What a line is where a hunk has still to give what `left` says. No line of a hunk is taken for
/// a header, whatever stands behind its first character.
pub open spec fn line_in(left: Left, line: Seq<char>) -> DiffLine {
    if left.old == 0 && left.new == 0 {
        DiffLine::Outside
    } else if line.len() == 0 || line[0] == ' ' {
        DiffLine::Kept
    } else if line[0] == '+' {
        DiffLine::Added
    } else if line[0] == '-' {
        DiffLine::Deleted
    } else if line[0] == '\\' {
        DiffLine::Remark
    } else {
        DiffLine::Outside
    }
}

/// One less, as far as there is one.
pub open spec fn one_less(n: nat) -> nat {
    if n > 0 {
        (n - 1) as nat
    } else {
        0
    }
}

/// What a hunk has still to give behind one of its lines.
pub open spec fn left_after(left: Left, kind: DiffLine) -> Left {
    match kind {
        DiffLine::Added => Left { new: one_less(left.new), ..left },
        DiffLine::Deleted => Left { old: one_less(left.old), ..left },
        DiffLine::Kept => Left { old: one_less(left.old), new: one_less(left.new) },
        _ => left,
    }
}

/// A line is one of those that a hunk has still to give.
pub open spec fn is_due(left: Left, kind: DiffLine) -> bool {
    match kind {
        DiffLine::Added => left.new > 0,
        DiffLine::Deleted => left.old > 0,
        DiffLine::Kept => left.old > 0 && left.new > 0,
        DiffLine::Remark => true,
        DiffLine::Outside => false,
    }
}

/// The lines from place `i` on start with just those that a hunk has still to give.
pub open spec fn follows(left: Left, text: Seq<Seq<char>>, i: int) -> bool
    decreases text.len() - i,
{
    if left.old == 0 && left.new == 0 {
        true
    } else if i < 0 || i >= text.len() {
        false
    } else {
        let kind = line_in(left, text[i]);
        is_due(left, kind) && follows(left_after(left, kind), text, i + 1)
    }
}

/// What the hunk has to give of which line `i` is the header: the lines that it announces, where
/// they all follow, and otherwise none, so that what follows is read as if nothing were announced.
pub open spec fn opened(text: Seq<Seq<char>>, i: int) -> Left {
    if has_prefix(text[i], "@@ "@) && follows(announced(text[i]), text, i + 1) {
        announced(text[i])
    } else {
        none_left()
    }
}

/// What a hunk has still to give behind line `i`, where it had still to give `left` before it.
pub open spec fn left_behind(left: Left, text: Seq<Seq<char>>, i: int) -> Left {
    match line_in(left, text[i]) {
        DiffLine::Outside => opened(text, i),
        kind => left_after(left, kind),
    }
}

/// What a hunk has still to give before line `i` of a diff.
pub open spec fn left_at(text: Seq<Seq<char>>, i: int) -> Left
    decreases i,
{
    if i <= 0 {
        none_left()
    } else {
        left_behind(left_at(text, i - 1), text, i - 1)
    }
}

/// Where the lines that the headers announce do not all follow, no line is taken for the line of a
/// hunk.
pub proof fn law_unfollowed_headers_hold_nothing(text: Seq<Seq<char>>, i: int)
    requires
        0 <= i <= text.len(),
        forall|k: int|
            0 <= k < i && has_prefix(#[trigger] text[k], "@@ "@) ==> announced(text[k])
                == none_left() || !follows(announced(text[k]), text, k + 1),
    ensures
        left_at(text, i) == none_left(),
    decreases i,
{
    if i > 0 {
        law_unfollowed_headers_hold_nothing(text, i - 1);
    }
}

/// How many lines of the old and of the new version of a file a hunk has still to give.
pub struct HunkLeft {
    old: u32,
    new: u32,
}

impl View for HunkLeft {
    type V = Left;

    closed spec fn view(&self) -> Left {
        Left { old: self.old as nat, new: self.new as nat }
    }
}

fn announced_length(word: &str, sign: char) -> (r: Option<u32>)
    ensures
        match r {
            Some(count) => announced_by(word@, sign) == Some(count as nat),
            None => announced_by(word@, sign) is None,
        },
{
    let v = chars(word);
    if v.len() == 0 || v[0] != sign {
        return None;
    }
    let range = slice_text(&v, 1, v.len());
    assert(range@ =~= word@.skip(1));
    let (_, count) = read_start_and_count(range.as_str())?;
    Some(count)
}

impl HunkLeft {
    /// Outside of every hunk.
    pub fn none() -> (r: HunkLeft)
        ensures
            r@ == none_left(),
    {
        HunkLeft { old: 0, new: 0 }
    }

    fn announced(line: &str) -> (r: HunkLeft)
        ensures
            r@ == announced(line@),
    {
        proof {
            reveal_strlit("@@");
        }
        let parts = split_text(line, "@@");
        if parts.len() < 2 {
            return HunkLeft::none();
        }
        assert(parts.deep_view()[1] == parts@[1]@);
        let words = split_whitespace(parts[1].as_str());
        if words.len() < 2 {
            return HunkLeft::none();
        }
        assert(words.deep_view()[0] == words@[0]@ && words.deep_view()[1] == words@[1]@);
        let old = announced_length(words[0].as_str(), '-');
        let new = announced_length(words[1].as_str(), '+');
        match (old, new) {
            (Some(old), Some(new)) => HunkLeft { old, new },
            _ => HunkLeft::none(),
        }
    }

    /// What a line is here.
    pub fn read(&self, line: &str) -> (r: DiffLine)
        ensures
            r == line_in(self@, line@),
    {
        if self.old == 0 && self.new == 0 {
            return DiffLine::Outside;
        }
        let v = chars(line);
        if v.len() == 0 || v[0] == ' ' {
            DiffLine::Kept
        } else if v[0] == '+' {
            DiffLine::Added
        } else if v[0] == '-' {
            DiffLine::Deleted
        } else if v[0] == '\\' {
            DiffLine::Remark
        } else {
            DiffLine::Outside
        }
    }

    fn after(&self, kind: DiffLine) -> (r: HunkLeft)
        ensures
            r@ == left_after(self@, kind),
    {
        let old: u32 = if self.old > 0 {
            self.old - 1
        } else {
            0
        };
        let new: u32 = if self.new > 0 {
            self.new - 1
        } else {
            0
        };
        match kind {
            DiffLine::Added => HunkLeft { old: self.old, new },
            DiffLine::Deleted => HunkLeft { old, new: self.new },
            DiffLine::Kept => HunkLeft { old, new },
            _ => HunkLeft { old: self.old, new: self.new },
        }
    }

    fn is_due(&self, kind: DiffLine) -> (r: bool)
        ensures
            r == is_due(self@, kind),
    {
        match kind {
            DiffLine::Added => self.new > 0,
            DiffLine::Deleted => self.old > 0,
            DiffLine::Kept => self.old > 0 && self.new > 0,
            DiffLine::Remark => true,
            DiffLine::Outside => false,
        }
    }

    fn follows(&self, text: &Vec<String>, from: usize) -> (r: bool)
        requires
            from <= text@.len(),
        ensures
            r == follows(self@, text.deep_view(), from as int),
    {
        let ghost all = text.deep_view();
        let mut left = HunkLeft { old: self.old, new: self.new };
        let mut i: usize = from;
        while left.old > 0 || left.new > 0
            invariant
                i <= text@.len(),
                all == text.deep_view(),
                follows(left@, all, i as int) == follows(self@, all, from as int),
            decreases text@.len() - i,
        {
            if i >= text.len() {
                return false;
            }
            assert(all[i as int] == text@[i as int]@);
            let kind = left.read(text[i].as_str());
            if !left.is_due(kind) {
                return false;
            }
            left = left.after(kind);
            i = i + 1;
        }
        true
    }

    /// What is left behind line `i`.
    pub fn behind(&self, text: &Vec<String>, i: usize) -> (r: HunkLeft)
        requires
            i < text@.len(),
        ensures
            r@ == left_behind(self@, text.deep_view(), i as int),
    {
        let n: usize = text.len();
        let line: &str = text[i].as_str();
        assert(i < n && text.deep_view()[i as int] == line@);
        match self.read(line) {
            DiffLine::Outside => {
                if starts_with(line, "@@ ") {
                    let left = HunkLeft::announced(line);
                    if left.follows(text, i + 1) {
                        return left;
                    }
                }
                HunkLeft::none()
            },
            kind => self.after(kind),
        }
    }
}

// ---------------------------------------------------------------------------------------------
// Ascending lists
// ---------------------------------------------------------------------------------------------
/// Each number is less than those after it.
pub open spec fn ascending(s: Seq<u32>) -> bool {
    forall|i: int, j: int| 0 <= i < j < s.len() ==> s[i] < s[j]
}

/// `s` with `x` put behind the last number that is less, unless it stands there already.
pub open spec fn inserted(s: Seq<u32>, x: u32) -> Seq<u32>
    decreases s.len(),
{
    if s.len() == 0 || s.last() < x {
        s.push(x)
    } else if s.last() == x {
        s
    } else {
        inserted(s.drop_last(), x).push(s.last())
    }
}

/// `s` with each of `xs` put into it.
pub open spec fn inserted_all(s: Seq<u32>, xs: Seq<u32>) -> Seq<u32>
    decreases xs.len(),
{
    if xs.len() == 0 {
        s
    } else {
        inserted(inserted_all(s, xs.drop_last()), xs.last())
    }
}

proof fn lemma_inserted_at(s: Seq<u32>, x: u32, i: int)
    requires
        0 <= i <= s.len(),
        forall|j: int| i <= j < s.len() ==> s[j] > x,
        i > 0 ==> s[i - 1] <= x,
    ensures
        inserted(s, x) == (if i > 0 && s[i - 1] == x {
            s
        } else {
            s.insert(i, x)
        }),
    decreases s.len() - i,
{
    if i == s.len() {
        assert(s.insert(i, x) =~= s.push(x));
    } else {
        let d = s.drop_last();
        lemma_inserted_at(d, x, i);
        if i > 0 && s[i - 1] == x {
            assert(d.push(s.last()) =~= s);
        } else {
            assert(d.insert(i, x).push(s.last()) =~= s.insert(i, x));
        }
    }
}

/// Putting a number into an ascending list gives an ascending list that holds that number and
/// what was in it.
pub proof fn law_inserted(s: Seq<u32>, x: u32)
    requires
        ascending(s),
    ensures
        ascending(inserted(s, x)),
        forall|y: u32| #[trigger] inserted(s, x).contains(y) <==> (s.contains(y) || y == x),
    decreases s.len(),
{
    if s.len() == 0 || s.last() < x {
        let t = s.push(x);
        assert(t[s.len() as int] == x);
        assert forall|y: u32| #[trigger] t.contains(y) <==> (s.contains(y) || y == x) by {
            if s.contains(y) {
                let k = choose|k: int| 0 <= k < s.len() && s[k] == y;
                assert(t[k] == y);
            }
        }
    } else if s.last() == x {
        assert(s.contains(x)) by {
            assert(s[s.len() - 1] == x);
        }
    } else {
        let d = s.drop_last();
        law_inserted(d, x);
        let e = inserted(d, x);
        let t = e.push(s.last());
        assert forall|y: u32| e.contains(y) implies y < s.last() by {
            if d.contains(y) {
                let k = choose|k: int| 0 <= k < d.len() && d[k] == y;
                assert(s[k] == y);
            }
        }
        assert forall|i: int, j: int| 0 <= i < j < t.len() implies t[i] < t[j] by {
            if j == e.len() {
                assert(e.contains(e[i]));
            }
        }
        assert forall|y: u32| #[trigger] t.contains(y) <==> (s.contains(y) || y == x) by {
            if t.contains(y) {
                let k = choose|k: int| 0 <= k < t.len() && t[k] == y;
                if k < e.len() {
                    assert(e.contains(y));
                    if d.contains(y) {
                        let m = choose|m: int| 0 <= m < d.len() && d[m] == y;
                        assert(s[m] == y);
                    }
                } else {
                    assert(s[s.len() - 1] == y);
                }
            }
            if s.contains(y) {
                let k = choose|k: int| 0 <= k < s.len() && s[k] == y;
                if k < d.len() {
                    assert(d[k] == y);
                    assert(e.contains(y));
                    let m = choose|m: int| 0 <= m < e.len() && e[m] == y;
                    assert(t[m] == y);
                } else {
                    assert(t[e.len() as int] == y);
                }
            }
            if y == x {
                assert(e.contains(x));
                let m = choose|m: int| 0 <= m < e.len() && e[m] == x;
                assert(t[m] == x);
            }
        }
    }
}

/// Putting numbers into an ascending list gives an ascending list that holds those numbers and
/// what was in it.
pub proof fn law_inserted_all(s: Seq<u32>, xs: Seq<u32>)
    requires
        ascending(s),
    ensures
        ascending(inserted_all(s, xs)),
        forall|y: u32| #[trigger]
            inserted_all(s, xs).contains(y) <==> (s.contains(y) || xs.contains(y)),
    decreases xs.len(),
{
    if xs.len() > 0 {
        let d = xs.drop_last();
        law_inserted_all(s, d);
        law_inserted(inserted_all(s, d), xs.last());
        assert forall|y: u32| #[trigger]
            inserted_all(s, xs).contains(y) <==> (s.contains(y) || xs.contains(y)) by {
            assert(inserted_all(s, d).contains(y) <==> (s.contains(y) || d.contains(y)));
            if xs.contains(y) {
                let k = choose|k: int| 0 <= k < xs.len() && xs[k] == y;
                if k < d.len() {
                    assert(d[k] == y);
                }
            }
            if d.contains(y) {
                let k = choose|k: int| 0 <= k < d.len() && d[k] == y;
                assert(xs[k] == y);
            }
            if y == xs.last() {
                assert(xs[xs.len() - 1] == y);
            }
        }
    }
}

/// Puts `x` behind the last number that is less, unless it stands there already.
pub fn insert_ascending(v: &mut Vec<u32>, x: u32)
    ensures
        final(v)@ == inserted(old(v)@, x),
{
    let mut i: usize = v.len();
    while i > 0 && v[i - 1] > x
        invariant
            i <= v@.len(),
            v@ == old(v)@,
            forall|j: int| i <= j < v@.len() ==> v@[j] > x,
        decreases i,
    {
        i = i - 1;
    }
    proof {
        lemma_inserted_at(v@, x, i as int);
    }
    if i > 0 && v[i - 1] == x {
        return ;
    }
    v.insert(i, x);
}

fn insert_run(v: &mut Vec<u32>, start: u32, count: u32)
    requires
        start + count <= u32::MAX,
    ensures
        final(v)@ == inserted_all(old(v)@, run_of_lines(start as nat, count as nat)),
{
    let end: u32 = start + count;
    let mut n: u32 = start;
    assert(run_of_lines(start as nat, 0) =~= Seq::empty());
    while n < end
        invariant
            start <= n <= end,
            end == start + count,
            v@ == inserted_all(old(v)@, run_of_lines(start as nat, (n - start) as nat)),
        decreases end - n,
    {
        let ghost run = run_of_lines(start as nat, (n + 1 - start) as nat);
        assert(run.drop_last() =~= run_of_lines(start as nat, (n - start) as nat));
        assert(run.last() == n);
        insert_ascending(v, n);
        n = n + 1;
    }
}

// ---------------------------------------------------------------------------------------------
// Diffs
// ---------------------------------------------------------------------------------------------
/// The lines added so far to a file.
pub open spec fn added_to(added: Seq<(Seq<char>, Seq<u32>)>, file: Seq<char>) -> Seq<u32> {
    match value_of(added, file) {
        Some(s) => s,
        None => Seq::empty(),
    }
}

/// The hunk that a line outside of the hunks gives to the file that was named before it.
pub open spec fn hunk_of_line(file: Option<Seq<char>>, line: Seq<char>) -> Option<
    (Seq<char>, (nat, nat)),
> {
    if has_prefix(line, "+++ b/"@) || has_prefix(line, "+++ /dev/null"@) || !has_prefix(
        line,
        "@@ "@,
    ) {
        None
    } else {
        match file {
            Some(f) => match hunk_range_of(line) {
                Some(range) => Some((f, range)),
                None => None,
            },
            None => None,
        }
    }
}

/// The file that the hunks behind a line outside of the hunks are of.
pub open spec fn file_after(file: Option<Seq<char>>, line: Seq<char>) -> Option<Seq<char>> {
    match after_prefix(line, "+++ b/"@) {
        Some(f) => Some(f),
        None => if has_prefix(line, "+++ /dev/null"@) {
            None
        } else {
            file
        },
    }
}

/// The file that was named last before line `i` of a diff, which a hunk there is of.
pub open spec fn file_at(text: Seq<Seq<char>>, i: int) -> Option<Seq<char>>
    decreases i,
{
    if i <= 0 {
        None
    } else if line_in(left_at(text, i - 1), text[i - 1]) == DiffLine::Outside {
        file_after(file_at(text, i - 1), text[i - 1])
    } else {
        file_at(text, i - 1)
    }
}

/// The hunk of which line `i` of a diff is the header, under a file's name.
pub open spec fn hunk_at(text: Seq<Seq<char>>, i: int) -> Option<(Seq<char>, (nat, nat))> {
    if line_in(left_at(text, i), text[i]) == DiffLine::Outside {
        hunk_of_line(file_at(text, i), text[i])
    } else {
        None
    }
}

/// The lines that the first `k` lines of a diff add.
pub open spec fn gathered(text: Seq<Seq<char>>, k: int) -> Seq<(Seq<char>, Seq<u32>)>
    decreases k,
{
    if k <= 0 {
        Seq::empty()
    } else {
        let before = gathered(text, k - 1);
        match hunk_at(text, k - 1) {
            Some((file, (start, count))) => with_value(
                before,
                file,
                inserted_all(added_to(before, file), run_of_lines(start, count)),
            ),
            None => before,
        }
    }
}

/// The hunks of a diff have line numbers that fit.
pub open spec fn diff_fits(text: Seq<Seq<char>>) -> bool {
    forall|i: int| 0 <= i < text.len() ==> fits_u32(#[trigger] hunk_at(text, i))
}

pub open spec fn fits_u32(hunk: Option<(Seq<char>, (nat, nat))>) -> bool {
    match hunk {
        Some((file, (start, count))) => start + count <= u32::MAX,
        None => true,
    }
}

/// The lines that a diff adds, by file: the files in the order in which their first hunks come,
/// each file's lines in ascending order.
pub open spec fn added_lines(diff: Seq<char>) -> Seq<(Seq<char>, Seq<u32>)> {
    gathered(lines_of(diff), lines_of(diff).len() as int)
}

/// Line `n` of `file` is one that a hunk of the diff adds.
pub open spec fn hunk_adds(text: Seq<Seq<char>>, i: int, file: Seq<char>, n: u32) -> bool {
    match hunk_at(text, i) {
        Some((f, (start, count))) => f == file && start <= n < start + count,
        None => false,
    }
}

/// A diff adds to a file just the lines that its hunks for that file cover, and lists them in
/// ascending order, each once.
pub proof fn law_gathered(text: Seq<Seq<char>>, k: int, file: Seq<char>, n: u32)
    requires
        diff_fits(text),
        0 <= k <= text.len(),
    ensures
        ascending(added_to(gathered(text, k), file)),
        added_to(gathered(text, k), file).contains(n) <==> exists|i: int|
            0 <= i < k && hunk_adds(text, i, file, n),
    decreases k,
{
    if k > 0 {
        let last = k - 1;
        law_gathered(text, last, file, n);
        assert(fits_u32(hunk_at(text, last)));
        let before = gathered(text, last);
        match hunk_at(text, last) {
            Some((f, (start, count))) => {
                let run = run_of_lines(start, count);
                let value = inserted_all(added_to(before, f), run);
                lemma_with_value_found(before, f, value, file);
                if f == file {
                    law_inserted_all(added_to(before, f), run);
                    if run.contains(n) {
                        let m = choose|m: int| 0 <= m < run.len() && run[m] == n;
                        assert(start <= n < start + count);
                    }
                    if start <= n < start + count {
                        assert(run[n - start] == n);
                    }
                    assert(value.contains(n) <==> (added_to(before, f).contains(n) || run.contains(
                        n,
                    )));
                    assert(hunk_adds(text, last, file, n) <==> run.contains(n));
                } else {
                    assert(!hunk_adds(text, last, file, n));
                }
            },
            None => {
                assert(!hunk_adds(text, last, file, n));
            },
        }
        if exists|i: int| 0 <= i < last && hunk_adds(text, i, file, n) {
            let i = choose|i: int| 0 <= i < last && hunk_adds(text, i, file, n);
            assert(0 <= i < k && hunk_adds(text, i, file, n));
        }
        if exists|i: int| 0 <= i < k && hunk_adds(text, i, file, n) {
            let i = choose|i: int| 0 <= i < k && hunk_adds(text, i, file, n);
            assert(i < last || i == last);
        }
    }
}

/// A line of a hunk neither names a file nor starts a hunk, whatever stands behind its first
/// character: the lines that a diff adds are then as they were.
pub proof fn law_hunk_lines_are_content(text: Seq<Seq<char>>, i: int)
    requires
        0 <= i < text.len(),
        left_at(text, i) != none_left(),
        text[i].len() > 0,
        text[i][0] == '+' || text[i][0] == '-' || text[i][0] == ' ' || text[i][0] == '\\',
    ensures
        file_at(text, i + 1) == file_at(text, i),
        gathered(text, i + 1) == gathered(text, i),
{
}

proof fn lemma_unfitting(text: Seq<Seq<char>>, i: int)
    requires
        0 <= i < text.len(),
        !fits_u32(hunk_at(text, i)),
    ensures
        !diff_fits(text),
{
}

/// The lines that a diff adds, by file, or `None` where a hunk's line numbers do not fit.
pub fn try_parse_diff_added_lines(diff_output: &str) -> (r: Option<Vec<(String, Vec<u32>)>>)
    ensures
        match r {
            Some(added) => diff_fits(lines_of(diff_output@)) && added.deep_view() == added_lines(
                diff_output@,
            ),
            None => !diff_fits(lines_of(diff_output@)),
        },
{
    let text = lines(diff_output);
    let ghost all = text.deep_view();
    let mut result: Vec<(String, Vec<u32>)> = Vec::new();
    let mut current_file: Option<String> = None;
    let mut left = HunkLeft::none();
    let mut i: usize = 0;
    assert(result.deep_view() =~= Seq::empty());
    while i < text.len()
        invariant
            i <= text@.len(),
            all == text.deep_view(),
            all == lines_of(diff_output@),
            result.deep_view() == gathered(all, i as int),
            current_file.deep_view() == file_at(all, i as int),
            left@ == left_at(all, i as int),
            forall|j: int| 0 <= j < i ==> fits_u32(#[trigger] hunk_at(all, j)),
        decreases text@.len() - i,
    {
        let line: &str = text[i].as_str();
        assert(all[i as int] == line@);
        if left.read(line) != DiffLine::Outside {
            // A line of a hunk, however it looks
        } else if let Some(file) = strip_prefix(line, "+++ b/") {
            current_file = Some(file);
        } else if starts_with(line, "+++ /dev/null") {
            current_file = None;
        } else if starts_with(line, "@@ ") {
            if let Some(file) = &current_file {
                if let Some((start, count)) = hunk_range(line) {
                    if count > u32::MAX - start {
                        proof {
                            lemma_unfitting(all, i as int);
                        }
                        return None;
                    }
                    add_run(&mut result, file, start, count);
                }
            }
        }
        left = left.behind(&text, i);
        i = i + 1;
    }
    Some(result)
}

fn add_run(result: &mut Vec<(String, Vec<u32>)>, file: &String, start: u32, count: u32)
    requires
        start + count <= u32::MAX,
    ensures
        final(result).deep_view() == with_value(
            old(result).deep_view(),
            file@,
            inserted_all(
                added_to(old(result).deep_view(), file@),
                run_of_lines(start as nat, count as nat),
            ),
        ),
{
    let ghost before = result.deep_view();
    match find(result, file.as_str()) {
        Some(k) => {
            proof {
                lemma_place_bounds(before, file@);
                assert(before[k as int] == result@[k as int].deep_view());
                assert(result@[k as int].1.deep_view() =~= result@[k as int].1@);
            }
            insert_run(&mut result[k].1, start, count);
            assert(result@[k as int].1.deep_view() =~= result@[k as int].1@);
            assert(result.deep_view() =~= with_value(
                before,
                file@,
                inserted_all(
                    added_to(before, file@),
                    run_of_lines(start as nat, count as nat),
                ),
            ));
        },
        None => {
            let mut added: Vec<u32> = Vec::new();
            insert_run(&mut added, start, count);
            assert(added.deep_view() =~= added@);
            result.push((file.clone(), added));
            assert(result.deep_view() =~= before.push((file@, added@)));
        },
    }
}

/// Parse git diff output to extract added line numbers per file
///
/// Parses unified diff format hunk headers like:
/// @@ -10,2 +15,5 @@
///
/// This means: old file line 10 (2 lines), new file line 15 (5 lines)
/// We extract the "new file" line numbers to know which lines were added.
pub fn parse_diff_added_lines(diff_output: &str) -> (r: Result<
    Vec<(String, Vec<u32>)>,
    GitAiError,
>)
    requires
        diff_fits(lines_of(diff_output@)),
    ensures
        r matches Ok(added) && added.deep_view() == added_lines(diff_output@),
{
    match try_parse_diff_added_lines(diff_output) {
        Some(added) => Ok(added),
        None => Ok(Vec::new()),
    }
}

} // verus!
