//! From lines that were blamed to an authorship log.
use crate::assoc::{
    by_key, find, has_key, keys_unique, law_by_key, lemma_place_bounds, lemma_place_of,
    lemma_with_value_found, lemma_with_value_unique, place_of, put, sort_by_key, value_of,
    with_value,
};
use crate::authorship::authorship_log::{
    AttestationEntry, AttestationEntryView, AuthorshipLog, AuthorshipLogView, AuthorshipMetadata,
    AuthorshipMetadataView, FileAttestation, FileAttestationView, LineRange, PromptRecord,
    PromptRecordView,
};
use crate::changes::{Change, ChangeTag, ChangeView};
use crate::git::diff::ascending;
use crate::text::{lines, lines_of, same};
use vstd::prelude::*;

verus! {

broadcast use vstd::seq::group_seq_axioms;

// ---------------------------------------------------------------------------------------------
// Finding inserted lines in another version of the file
// ---------------------------------------------------------------------------------------------
/// The lines that the changes insert.
pub open spec fn inserted_lines(changes: Seq<ChangeView>) -> Seq<Seq<char>>
    decreases changes.len(),
{
    if changes.len() == 0 {
        Seq::empty()
    } else {
        let before = inserted_lines(changes.drop_last());
        if changes.last().tag == ChangeTag::Insert {
            before + lines_of(changes.last().value)
        } else {
            before
        }
    }
}

/// The number, counted from one, of the first line from place `from` on that is `line` and whose
/// number is not among the used ones.
pub open spec fn first_unused(
    line: Seq<char>,
    hanging: Seq<Seq<char>>,
    used: Seq<int>,
    from: int,
) -> Option<int>
    decreases hanging.len() - from,
{
    if from < 0 || from >= hanging.len() {
        None
    } else if hanging[from] == line && !used.contains(from + 1) {
        Some(from + 1)
    } else {
        first_unused(line, hanging, used, from + 1)
    }
}

/// The numbers of the lines of `hanging` in which the inserted lines are found again, each line
/// being used once.
pub open spec fn matched_lines(inserted: Seq<Seq<char>>, hanging: Seq<Seq<char>>) -> Seq<int>
    decreases inserted.len(),
{
    if inserted.len() == 0 {
        Seq::empty()
    } else {
        let before = matched_lines(inserted.drop_last(), hanging);
        match first_unused(inserted.last(), hanging, before, 0) {
            Some(n) => before.push(n),
            None => before,
        }
    }
}

/// The numbers are line numbers.
pub open spec fn all_fit(numbers: Seq<int>) -> bool {
    forall|i: int| 0 <= i < numbers.len() ==> 0 <= #[trigger] numbers[i] <= u32::MAX
}

/// The numbers as line numbers.
pub open spec fn as_numbers(numbers: Seq<int>) -> Seq<u32> {
    Seq::new(numbers.len(), |i: int| numbers[i] as u32)
}

proof fn lemma_inserted_join(a: Seq<ChangeView>, b: Seq<ChangeView>)
    ensures
        inserted_lines(a + b) == inserted_lines(a) + inserted_lines(b),
    decreases b.len(),
{
    if b.len() == 0 {
        assert(a + b =~= a);
        assert(inserted_lines(a) + inserted_lines(b) =~= inserted_lines(a));
    } else {
        lemma_inserted_join(a, b.drop_last());
        assert((a + b).drop_last() =~= a + b.drop_last());
        assert((a + b).last() == b.last());
        assert(inserted_lines(a + b) =~= inserted_lines(a) + inserted_lines(b));
    }
}

/// The lines that are collected are those of the values that were inserted, in order and nothing
/// else, whatever stands before them or behind them: an inserted value gives its lines, another
/// change gives none, and changes behind each other give what each of them gives.
pub proof fn law_inserted_lines(
    before: Seq<ChangeView>,
    change: ChangeView,
    behind: Seq<ChangeView>,
)
    ensures
        change.tag == ChangeTag::Insert ==> inserted_lines(before.push(change) + behind)
            == inserted_lines(before) + lines_of(change.value) + inserted_lines(behind),
        change.tag != ChangeTag::Insert ==> inserted_lines(before.push(change) + behind)
            == inserted_lines(before) + inserted_lines(behind),
        inserted_lines(Seq::empty()) == Seq::<Seq<char>>::empty(),
{
    lemma_inserted_join(before.push(change), behind);
    assert(before.push(change).drop_last() =~= before);
}

proof fn lemma_first_unused(line: Seq<char>, hanging: Seq<Seq<char>>, used: Seq<int>, from: int)
    requires
        0 <= from,
    ensures
        match first_unused(line, hanging, used, from) {
            Some(n) => from < n <= hanging.len() && hanging[n - 1] == line && !used.contains(n),
            None => true,
        },
    decreases hanging.len() - from,
{
    if from < hanging.len() && !(hanging[from] == line && !used.contains(from + 1)) {
        lemma_first_unused(line, hanging, used, from + 1);
    }
}

/// An inserted line is found only in a line with the same text, and no line is found twice.
pub proof fn law_matched_lines(inserted: Seq<Seq<char>>, hanging: Seq<Seq<char>>)
    ensures
        matched_lines(inserted, hanging).no_duplicates(),
        matched_lines(inserted, hanging).len() <= inserted.len(),
        forall|i: int|
            0 <= i < matched_lines(inserted, hanging).len() ==> 1 <= #[trigger] matched_lines(
                inserted,
                hanging,
            )[i] <= hanging.len() && inserted.contains(
                hanging[matched_lines(inserted, hanging)[i] - 1],
            ),
    decreases inserted.len(),
{
    if inserted.len() > 0 {
        let d = inserted.drop_last();
        law_matched_lines(d, hanging);
        let before = matched_lines(d, hanging);
        let after = matched_lines(inserted, hanging);
        lemma_first_unused(inserted.last(), hanging, before, 0);
        assert forall|i: int| 0 <= i < after.len() implies 1 <= #[trigger] after[i]
            <= hanging.len() && inserted.contains(hanging[after[i] - 1]) by {
            if i < before.len() {
                assert(after[i] == before[i]);
                assert(d.contains(hanging[before[i] - 1]));
                let k = choose|k: int| 0 <= k < d.len() && d[k] == hanging[before[i] - 1];
                assert(inserted[k] == hanging[after[i] - 1]);
            } else {
                assert(inserted[inserted.len() - 1] == hanging[after[i] - 1]);
            }
        }
        assert forall|i: int, j: int| 0 <= i < after.len() && 0 <= j < after.len() && i != j implies
            after[i] != after[j] by {
            if i == before.len() {
                assert(before[j] == after[j]);
            } else if j == before.len() {
                assert(before[i] == after[i]);
            }
        }
    }
}

proof fn lemma_none_unused(line: Seq<char>, hanging: Seq<Seq<char>>, used: Seq<int>, from: int)
    requires
        0 <= from,
        first_unused(line, hanging, used, from) is None,
    ensures
        forall|k: int| from <= k < hanging.len() && #[trigger] hanging[k] == line ==> used.contains(
            k + 1,
        ),
    decreases hanging.len() - from,
{
    if from < hanging.len() {
        lemma_none_unused(line, hanging, used, from + 1);
        assert forall|k: int| from <= k < hanging.len() && #[trigger] hanging[k]
            == line implies used.contains(k + 1) by {
            if k > from {
            }
        }
    }
}

/// A line that is not found has no line left with its text: all of them have been found before.
pub proof fn law_matching_is_exhaustive(inserted: Seq<Seq<char>>, hanging: Seq<Seq<char>>, i: int)
    requires
        0 <= i < inserted.len(),
        matched_lines(inserted.take(i + 1), hanging) == matched_lines(inserted.take(i), hanging),
    ensures
        forall|k: int|
            0 <= k < hanging.len() && #[trigger] hanging[k] == inserted[i] ==> matched_lines(
                inserted.take(i),
                hanging,
            ).contains(k + 1),
{
    let before = matched_lines(inserted.take(i), hanging);
    assert(inserted.take(i + 1).drop_last() =~= inserted.take(i));
    assert(inserted.take(i + 1).last() == inserted[i]);
    if first_unused(inserted[i], hanging, before, 0) is Some {
        assert(before.push(first_unused(inserted[i], hanging, before, 0)->Some_0).len()
            == before.len() + 1);
    }
    lemma_none_unused(inserted[i], hanging, before, 0);
}

/// What a longer list of inserted lines is found in starts with what a shorter one is found in.
proof fn lemma_matched_grows(inserted: Seq<Seq<char>>, hanging: Seq<Seq<char>>, i: int)
    requires
        0 <= i <= inserted.len(),
    ensures
        matched_lines(inserted.take(i), hanging).len() <= matched_lines(inserted, hanging).len(),
        forall|j: int|
            0 <= j < matched_lines(inserted.take(i), hanging).len() ==> matched_lines(
                inserted,
                hanging,
            )[j] == #[trigger] matched_lines(inserted.take(i), hanging)[j],
    decreases inserted.len() - i,
{
    if i < inserted.len() {
        lemma_matched_grows(inserted, hanging, i + 1);
        let short = matched_lines(inserted.take(i), hanging);
        let long = matched_lines(inserted.take(i + 1), hanging);
        assert(inserted.take(i + 1).drop_last() =~= inserted.take(i));
        assert forall|j: int| 0 <= j < short.len() implies matched_lines(inserted, hanging)[j]
            == #[trigger] short[j] by {
            assert(long[j] == short[j]);
        }
    } else {
        assert(inserted.take(i) =~= inserted);
    }
}

/// The lines that the changes insert.
pub fn collect_inserted(changes: &Vec<Change>) -> (r: Vec<String>)
    ensures
        r.deep_view() == inserted_lines(changes.deep_view()),
{
    let ghost all = changes.deep_view();
    let mut r: Vec<String> = Vec::new();
    let mut i: usize = 0;
    assert(all.take(0) =~= Seq::empty());
    assert(r.deep_view() =~= Seq::empty());
    while i < changes.len()
        invariant
            i <= changes@.len(),
            all == changes.deep_view(),
            r.deep_view() == inserted_lines(all.take(i as int)),
        decreases changes@.len() - i,
    {
        assert(all.take(i + 1).drop_last() =~= all.take(i as int));
        assert(all.take(i + 1).last() == changes@[i as int].deep_view());
        if changes[i].tag == ChangeTag::Insert {
            let ghost before = r.deep_view();
            let mut found = lines(changes[i].value.as_str());
            let ghost more = found.deep_view();
            r.append(&mut found);
            assert(r.deep_view() =~= before + more);
        }
        i = i + 1;
    }
    assert(all.take(i as int) =~= all);
    r
}

fn find_unused(line: &str, hanging: &Vec<String>, used: &Vec<bool>, numbers: Ghost<Seq<int>>) -> (r:
    Option<usize>)
    requires
        used@.len() == hanging@.len(),
        forall|k: int| 0 <= k < used@.len() ==> #[trigger] used@[k] == numbers@.contains(k + 1),
    ensures
        match r {
            Some(k) => k < hanging@.len() && first_unused(
                line@,
                hanging.deep_view(),
                numbers@,
                0,
            ) == Some(k + 1),
            None => first_unused(line@, hanging.deep_view(), numbers@, 0) is None,
        },
{
    let ghost all = hanging.deep_view();
    let mut i: usize = 0;
    while i < hanging.len()
        invariant
            i <= hanging@.len(),
            used@.len() == hanging@.len(),
            all == hanging.deep_view(),
            forall|k: int| 0 <= k < used@.len() ==> #[trigger] used@[k] == numbers@.contains(k + 1),
            first_unused(line@, all, numbers@, 0) == first_unused(line@, all, numbers@, i as int),
        decreases hanging@.len() - i,
    {
        assert(all[i as int] == hanging@[i as int]@);
        assert(used@[i as int] == numbers@.contains(i + 1));
        if same(hanging[i].as_str(), line) && !used[i] {
            return Some(i);
        }
        i = i + 1;
    }
    None
}

/// The numbers of the lines in which inserted lines are found again, or `None` where one of them
/// does not fit.
pub fn match_inserted(inserted: &Vec<String>, hanging: &Vec<String>) -> (r: Option<Vec<u32>>)
    ensures
        match r {
            Some(numbers) => all_fit(
                matched_lines(inserted.deep_view(), hanging.deep_view()),
            ) && numbers@ == as_numbers(
                matched_lines(inserted.deep_view(), hanging.deep_view()),
            ),
            None => !all_fit(matched_lines(inserted.deep_view(), hanging.deep_view())),
        },
{
    let ghost all = inserted.deep_view();
    let ghost texts = hanging.deep_view();
    let mut used: Vec<bool> = Vec::new();
    let mut k: usize = 0;
    while k < hanging.len()
        invariant
            k <= hanging@.len(),
            used@.len() == k,
            forall|j: int| 0 <= j < k ==> #[trigger] used@[j] == false,
        decreases hanging@.len() - k,
    {
        used.push(false);
        k = k + 1;
    }
    let mut numbers: Vec<u32> = Vec::new();
    let mut i: usize = 0;
    assert(all.take(0) =~= Seq::empty());
    assert(numbers@ =~= as_numbers(Seq::empty()));
    while i < inserted.len()
        invariant
            i <= inserted@.len(),
            all == inserted.deep_view(),
            texts == hanging.deep_view(),
            used@.len() == hanging@.len(),
            forall|j: int|
                0 <= j < used@.len() ==> #[trigger] used@[j] == matched_lines(
                    all.take(i as int),
                    texts,
                ).contains(j + 1),
            all_fit(matched_lines(all.take(i as int), texts)),
            numbers@ == as_numbers(matched_lines(all.take(i as int), texts)),
        decreases inserted@.len() - i,
    {
        let ghost before = matched_lines(all.take(i as int), texts);
        assert(all.take(i + 1).drop_last() =~= all.take(i as int));
        assert(all.take(i + 1).last() == inserted@[i as int]@);
        let ghost after = matched_lines(all.take(i + 1), texts);
        if let Some(found) = find_unused(inserted[i].as_str(), hanging, &used, Ghost(before)) {
            assert(after == before.push(found + 1));
            if found >= u32::MAX as usize {
                proof {
                    lemma_matched_grows(all, texts, i + 1);
                    let n = before.len() as int;
                    assert(after[n] == found + 1);
                    assert(matched_lines(all, texts)[n] == after[n]);
                }
                return None;
            }
            numbers.push(found as u32 + 1);
            used.set(found, true);
            proof {
                assert(after[before.len() as int] == found + 1);
                assert forall|j: int| 0 <= j < used@.len() implies #[trigger] used@[j]
                    == after.contains(j + 1) by {
                    if before.contains(j + 1) {
                        let m = choose|m: int| 0 <= m < before.len() && before[m] == j + 1;
                        assert(after[m] == j + 1);
                    }
                    if after.contains(j + 1) && j != found {
                        let m = choose|m: int| 0 <= m < after.len() && after[m] == j + 1;
                        assert(before[m] == j + 1);
                    }
                }
                assert forall|j: int| 0 <= j < after.len() implies 0 <= #[trigger] after[j]
                    <= u32::MAX by {
                    if j < before.len() {
                        assert(after[j] == before[j]);
                    }
                }
                assert(numbers@ =~= as_numbers(after));
            }
        }
        i = i + 1;
    }
    assert(all.take(i as int) =~= all);
    Some(numbers)
}

// ---------------------------------------------------------------------------------------------
// Runs of lines
// ---------------------------------------------------------------------------------------------
/// `s` with `x` put in front of those at the end that are greater.
pub open spec fn placed(s: Seq<u32>, x: u32) -> Seq<u32>
    decreases s.len(),
{
    if s.len() == 0 || s.last() <= x {
        s.push(x)
    } else {
        placed(s.drop_last(), x).push(s.last())
    }
}

/// The numbers from the least to the greatest.
pub open spec fn sorted(s: Seq<u32>) -> Seq<u32>
    decreases s.len(),
{
    if s.len() == 0 {
        s
    } else {
        placed(sorted(s.drop_last()), s.last())
    }
}

/// No number is less than one before it.
pub open spec fn nondescending(s: Seq<u32>) -> bool {
    forall|i: int, j: int| 0 <= i < j < s.len() ==> s[i] <= s[j]
}

proof fn lemma_placed(s: Seq<u32>, x: u32)
    requires
        nondescending(s),
    ensures
        nondescending(placed(s, x)),
        placed(s, x).to_multiset() == s.to_multiset().insert(x),
        placed(s, x).len() == s.len() + 1,
        s.len() > 0 && x < s.last() ==> placed(s, x).last() == s.last(),
    decreases s.len(),
{
    broadcast use vstd::seq_lib::group_to_multiset_ensures;

    if s.len() > 0 && s.last() > x {
        let d = s.drop_last();
        lemma_placed(d, x);
        let e = placed(d, x);
        assert(s =~= d.push(s.last()));
        assert forall|i: int, j: int| 0 <= i < j < e.push(s.last()).len() implies e.push(
            s.last(),
        )[i] <= e.push(s.last())[j] by {
            if j == e.len() {
                assert(e.contains(e[i]));
                assert(e.to_multiset().contains(e[i]));
                if e[i] != x {
                    assert(d.to_multiset().contains(e[i]));
                    assert(d.contains(e[i]));
                    let k = choose|k: int| 0 <= k < d.len() && d[k] == e[i];
                    assert(s[k] == e[i]);
                }
            }
        }
        assert(e.push(s.last()).to_multiset() =~= s.to_multiset().insert(x));
    }
}

/// Sorting keeps just the numbers that there were and puts them in order.
pub proof fn law_sorted(s: Seq<u32>)
    ensures
        nondescending(sorted(s)),
        sorted(s).to_multiset() == s.to_multiset(),
        sorted(s).len() == s.len(),
    decreases s.len(),
{
    broadcast use vstd::seq_lib::group_to_multiset_ensures;

    if s.len() > 0 {
        law_sorted(s.drop_last());
        lemma_placed(sorted(s.drop_last()), s.last());
        assert(s =~= s.drop_last().push(s.last()));
    }
}

proof fn lemma_placed_at(s: Seq<u32>, x: u32, i: int)
    requires
        0 <= i <= s.len(),
        forall|j: int| i <= j < s.len() ==> s[j] > x,
        i > 0 ==> s[i - 1] <= x,
    ensures
        placed(s, x) == s.insert(i, x),
    decreases s.len() - i,
{
    if i == s.len() {
        assert(s.insert(i, x) =~= s.push(x));
    } else {
        let d = s.drop_last();
        lemma_placed_at(d, x, i);
        assert(d.insert(i, x).push(s.last()) =~= s.insert(i, x));
    }
}

fn sort_numbers(s: &Vec<u32>) -> (r: Vec<u32>)
    ensures
        r@ == sorted(s@),
{
    let mut out: Vec<u32> = Vec::new();
    let mut k: usize = 0;
    assert(out@ =~= s@.take(0));
    while k < s.len()
        invariant
            k <= s@.len(),
            out@ == sorted(s@.take(k as int)),
        decreases s@.len() - k,
    {
        let x: u32 = s[k];
        let ghost before = out@;
        let mut i: usize = out.len();
        while i > 0 && out[i - 1] > x
            invariant
                i <= out@.len(),
                out@ == before,
                forall|j: int| i <= j < before.len() ==> before[j] > x,
            decreases i,
        {
            i = i - 1;
        }
        proof {
            lemma_placed_at(before, x, i as int);
        }
        out.insert(i, x);
        assert(s@.take(k + 1).drop_last() =~= s@.take(k as int));
        k = k + 1;
    }
    assert(s@.take(k as int) =~= s@);
    out
}

/// The lines from `start` to `end`.
pub open spec fn range_between(start: u32, end: u32) -> LineRange {
    if start == end {
        LineRange::Single(start)
    } else {
        LineRange::Range(start, end)
    }
}

/// The runs in a list of lines that starts with the run from `start` to `end`.
pub open spec fn ranges_from(start: u32, end: u32, rest: Seq<u32>) -> Seq<LineRange>
    decreases rest.len(),
{
    if rest.len() == 0 {
        seq![range_between(start, end)]
    } else if rest[0] == end + 1 {
        ranges_from(start, rest[0], rest.drop_first())
    } else {
        seq![range_between(start, end)] + ranges_from(rest[0], rest[0], rest.drop_first())
    }
}

/// The runs of lines, each following the one before it by one, in a list of lines.
pub open spec fn ranges_of(s: Seq<u32>) -> Seq<LineRange> {
    if s.len() == 0 {
        Seq::empty()
    } else {
        ranges_from(s[0], s[0], s.drop_first())
    }
}

/// How many lines a range has.
pub open spec fn range_len(range: LineRange) -> int {
    match range {
        LineRange::Single(_) => 1,
        LineRange::Range(start, end) => end - start + 1,
    }
}

/// How many lines the ranges have.
pub open spec fn total_len(ranges: Seq<LineRange>) -> int
    decreases ranges.len(),
{
    if ranges.len() == 0 {
        0
    } else {
        range_len(ranges[0]) + total_len(ranges.drop_first())
    }
}

/// Line `n` is in the range.
pub open spec fn range_has(range: LineRange, n: int) -> bool {
    match range {
        LineRange::Single(line) => line == n,
        LineRange::Range(start, end) => start <= n <= end,
    }
}

/// The first line of a range.
pub open spec fn range_start(range: LineRange) -> int {
    match range {
        LineRange::Single(line) => line as int,
        LineRange::Range(start, _) => start as int,
    }
}

/// The last line of a range.
pub open spec fn range_end(range: LineRange) -> int {
    match range {
        LineRange::Single(line) => line as int,
        LineRange::Range(_, end) => end as int,
    }
}

/// The ranges have as many lines as the list that they were made from.
pub proof fn law_ranges_count(s: Seq<u32>)
    ensures
        total_len(ranges_of(s)) == s.len(),
{
    if s.len() > 0 {
        lemma_ranges_count(s[0], s[0], s.drop_first());
    }
}

proof fn lemma_ranges_count(start: u32, end: u32, rest: Seq<u32>)
    requires
        start <= end,
    ensures
        total_len(ranges_from(start, end, rest)) == end - start + 1 + rest.len(),
    decreases rest.len(),
{
    let first = seq![range_between(start, end)];
    if rest.len() == 0 {
        assert(first.drop_first() =~= Seq::empty());
        assert(total_len(Seq::<LineRange>::empty()) == 0);
    } else if rest[0] == end + 1 {
        lemma_ranges_count(start, rest[0], rest.drop_first());
    } else {
        lemma_ranges_count(rest[0], rest[0], rest.drop_first());
        let others = ranges_from(rest[0], rest[0], rest.drop_first());
        assert((first + others).drop_first() =~= others);
    }
}

/// Line `n` is in one of the ranges.
pub open spec fn held(ranges: Seq<LineRange>, n: int) -> bool {
    exists|i: int| 0 <= i < ranges.len() && #[trigger] range_has(ranges[i], n)
}

/// The ranges made from a list of lines hold just those lines.
pub proof fn law_ranges_hold(s: Seq<u32>, n: u32)
    ensures
        held(ranges_of(s), n as int) <==> s.contains(n),
{
    if s.len() > 0 {
        let rest = s.drop_first();
        lemma_held(s[0], s[0], rest, n);
        if s.contains(n) {
            let k = choose|k: int| 0 <= k < s.len() && s[k] == n;
            if k > 0 {
                assert(rest[k - 1] == n);
            }
        }
        if rest.contains(n) {
            let k = choose|k: int| 0 <= k < rest.len() && rest[k] == n;
            assert(s[k + 1] == n);
        }
    }
}

proof fn lemma_held(start: u32, end: u32, rest: Seq<u32>, n: u32)
    requires
        start <= end,
    ensures
        held(ranges_from(start, end, rest), n as int) <==> (start <= n <= end || rest.contains(n)),
    decreases rest.len(),
{
    let ranges = ranges_from(start, end, rest);
    if rest.len() == 0 {
        if start <= n <= end {
            assert(range_has(ranges[0], n as int));
        }
    } else {
        let tail = rest.drop_first();
        assert(rest.contains(n) <==> (n == rest[0] || tail.contains(n))) by {
            if rest.contains(n) {
                let k = choose|k: int| 0 <= k < rest.len() && rest[k] == n;
                if k > 0 {
                    assert(tail[k - 1] == n);
                }
            }
            if tail.contains(n) {
                let k = choose|k: int| 0 <= k < tail.len() && tail[k] == n;
                assert(rest[k + 1] == n);
            }
        }
        if rest[0] == end + 1 {
            lemma_held(start, rest[0], tail, n);
        } else {
            lemma_held(rest[0], rest[0], tail, n);
            let others = ranges_from(rest[0], rest[0], tail);
            assert(ranges =~= seq![range_between(start, end)] + others);
            if held(ranges, n as int) {
                let i = choose|i: int| 0 <= i < ranges.len() && range_has(ranges[i], n as int);
                if i > 0 {
                    assert(range_has(others[i - 1], n as int));
                }
            }
            if held(others, n as int) {
                let i = choose|i: int| 0 <= i < others.len() && range_has(others[i], n as int);
                assert(range_has(ranges[i + 1], n as int));
            }
            if start <= n <= end {
                assert(range_has(ranges[0], n as int));
            }
        }
    }
}

/// The ranges made from an ascending list of lines are in ascending order, and between each and
/// the next there is a line that is in neither.
pub proof fn law_ranges_apart(s: Seq<u32>)
    requires
        ascending(s),
    ensures
        forall|i: int|
            0 <= i < ranges_of(s).len() ==> range_start(#[trigger] ranges_of(s)[i]) <= range_end(
                ranges_of(s)[i],
            ),
        forall|i: int, j: int|
            0 <= i < j < ranges_of(s).len() ==> range_end(#[trigger] ranges_of(s)[i]) + 1
                < range_start(#[trigger] ranges_of(s)[j]),
{
    if s.len() > 0 {
        let rest = s.drop_first();
        assert forall|i: int, j: int| 0 <= i < j < rest.len() implies rest[i] < rest[j] by {
            assert(s[i + 1] < s[j + 1]);
        }
        assert forall|i: int| 0 <= i < rest.len() implies s[0] < rest[i] by {
            assert(s[0] < s[i + 1]);
        }
        lemma_ranges_apart(s[0], s[0], rest);
    }
}

proof fn lemma_ranges_apart(start: u32, end: u32, rest: Seq<u32>)
    requires
        start <= end,
        ascending(rest),
        forall|i: int| 0 <= i < rest.len() ==> end < rest[i],
    ensures
        forall|i: int|
            0 <= i < ranges_from(start, end, rest).len() ==> range_start(
                #[trigger] ranges_from(start, end, rest)[i],
            ) <= range_end(ranges_from(start, end, rest)[i]),
        forall|i: int, j: int|
            0 <= i < j < ranges_from(start, end, rest).len() ==> range_end(
                #[trigger] ranges_from(start, end, rest)[i],
            ) + 1 < range_start(#[trigger] ranges_from(start, end, rest)[j]),
        ranges_from(start, end, rest).len() > 0,
        range_start(ranges_from(start, end, rest)[0]) == start,
    decreases rest.len(),
{
    let ranges = ranges_from(start, end, rest);
    if rest.len() > 0 {
        let tail = rest.drop_first();
        assert forall|i: int, j: int| 0 <= i < j < tail.len() implies tail[i] < tail[j] by {
            assert(rest[i + 1] < rest[j + 1]);
        }
        assert forall|i: int| 0 <= i < tail.len() implies rest[0] < tail[i] by {
            assert(rest[0] < rest[i + 1]);
        }
        if rest[0] == end + 1 {
            lemma_ranges_apart(start, rest[0], tail);
        } else {
            lemma_ranges_apart(rest[0], rest[0], tail);
            let others = ranges_from(rest[0], rest[0], tail);
            assert(ranges =~= seq![range_between(start, end)] + others);
            assert forall|i: int, j: int| 0 <= i < j < ranges.len() implies range_end(
                #[trigger] ranges[i],
            ) + 1 < range_start(#[trigger] ranges[j]) by {
                assert(ranges[j] == others[j - 1]);
                if i > 0 {
                    assert(ranges[i] == others[i - 1]);
                } else if j > 1 {
                    assert(range_end(others[0]) + 1 < range_start(others[j - 1]));
                    assert(range_start(others[0]) <= range_end(others[0]));
                }
            }
            assert forall|i: int| 0 <= i < ranges.len() implies range_start(
                #[trigger] ranges[i],
            ) <= range_end(ranges[i]) by {
                if i > 0 {
                    assert(ranges[i] == others[i - 1]);
                }
            }
        }
    }
}

/// The runs of lines in a list of lines.
pub fn build_ranges(s: &Vec<u32>) -> (r: Vec<LineRange>)
    ensures
        r@ == ranges_of(s@),
{
    let mut ranges: Vec<LineRange> = Vec::new();
    if s.len() == 0 {
        return ranges;
    }
    let mut current_start: u32 = s[0];
    let mut current_end: u32 = s[0];
    let mut i: usize = 1;
    assert(s@.skip(1) =~= s@.drop_first());
    assert(ranges@ + ranges_from(s@[0], s@[0], s@.drop_first()) =~= ranges_of(s@));
    while i < s.len()
        invariant
            1 <= i <= s@.len(),
            ranges@ + ranges_from(current_start, current_end, s@.skip(i as int)) == ranges_of(s@),
        decreases s@.len() - i,
    {
        let line: u32 = s[i];
        let ghost rest = s@.skip(i as int);
        assert(rest[0] == line);
        assert(rest.drop_first() =~= s@.skip(i + 1));
        if current_end < u32::MAX && line == current_end + 1 {
            // Extend current range
            current_end = line;
        } else {
            // Start new range
            let ghost done = ranges@;
            let range = if current_start == current_end {
                LineRange::Single(current_start)
            } else {
                LineRange::Range(current_start, current_end)
            };
            ranges.push(range);
            assert(ranges@ + ranges_from(line, line, s@.skip(i + 1)) =~= done + (seq![range]
                + ranges_from(line, line, s@.skip(i + 1))));
            current_start = line;
            current_end = line;
        }
        i = i + 1;
    }
    // Add the last range
    let ghost done = ranges@;
    assert(s@.skip(i as int) =~= Seq::empty());
    if current_start == current_end {
        ranges.push(LineRange::Single(current_start));
    } else {
        ranges.push(LineRange::Range(current_start, current_end));
    }
    assert(ranges@ =~= done + seq![range_between(current_start, current_end)]);
    ranges
}

// ---------------------------------------------------------------------------------------------
// Blamed lines
// ---------------------------------------------------------------------------------------------
/// A line of a file and the AI session that wrote it, where one did.
#[derive(Debug)]
pub struct BlamedLine {
    pub file: String,
    pub line: u32,
    pub prompt: Option<PromptRecord>,
}

/// What a `BlamedLine` holds.
pub struct BlamedLineView {
    pub file: Seq<char>,
    pub line: u32,
    pub prompt: Option<PromptRecordView>,
}

impl DeepView for BlamedLine {
    type V = BlamedLineView;

    open spec fn deep_view(&self) -> BlamedLineView {
        BlamedLineView { file: self.file@, line: self.line, prompt: self.prompt.deep_view() }
    }
}

/// Lines by session.
pub type SessionLines = Seq<(Seq<char>, Seq<u32>)>;

/// Lines by session by file.
pub type FileLines = Seq<(Seq<char>, SessionLines)>;

/// The value beside a key, or nothing.
pub open spec fn sessions_in(files: FileLines, file: Seq<char>) -> SessionLines {
    match value_of(files, file) {
        Some(sessions) => sessions,
        None => Seq::empty(),
    }
}

/// The lines of a session.
pub open spec fn lines_in(sessions: SessionLines, session: Seq<char>) -> Seq<u32> {
    match value_of(sessions, session) {
        Some(found) => found,
        None => Seq::empty(),
    }
}

/// One more line of a session in a file.
pub open spec fn with_line(
    files: FileLines,
    file: Seq<char>,
    session: Seq<char>,
    line: u32,
) -> FileLines {
    let sessions = sessions_in(files, file);
    with_value(
        files,
        file,
        with_value(sessions, session, lines_in(sessions, session).push(line)),
    )
}

/// The lines that AI sessions wrote, by file and session: files, sessions and lines in the order
/// in which they first come.
pub open spec fn grouped(blamed: Seq<BlamedLineView>) -> FileLines
    decreases blamed.len(),
{
    if blamed.len() == 0 {
        Seq::empty()
    } else {
        let before = grouped(blamed.drop_last());
        let last = blamed.last();
        match last.prompt {
            Some(prompt) => with_line(before, last.file, prompt.agent_id.id, last.line),
            None => before,
        }
    }
}

/// The AI sessions by their ids, each as it came last.
pub open spec fn sessions_of(blamed: Seq<BlamedLineView>) -> Seq<(Seq<char>, PromptRecordView)>
    decreases blamed.len(),
{
    if blamed.len() == 0 {
        Seq::empty()
    } else {
        let before = sessions_of(blamed.drop_last());
        match blamed.last().prompt {
            Some(prompt) => with_value(before, prompt.agent_id.id, prompt),
            None => before,
        }
    }
}

/// How many lines a session wrote in all files.
pub open spec fn session_total(files: FileLines, session: Seq<char>) -> nat
    decreases files.len(),
{
    if files.len() == 0 {
        0
    } else {
        session_total(files.drop_last(), session) + lines_in(files.last().1, session).len()
    }
}

/// What is attested of a file: the runs of lines of each session, the sessions by their ids.
pub open spec fn attested(sessions: SessionLines) -> Seq<AttestationEntryView> {
    let pairs = by_key(
        Seq::new(
            sessions.len(),
            |i: int| (sessions[i].0, ranges_of(sorted(sessions[i].1))),
        ),
    );
    Seq::new(
        pairs.len(),
        |i: int| AttestationEntryView { hash: pairs[i].0, line_ranges: pairs[i].1 },
    )
}

/// The lines that a session is said to have kept.
pub open spec fn accepted(prompt: PromptRecordView, lines: nat) -> PromptRecordView {
    PromptRecordView { accepted_lines: lines as u32, ..prompt }
}

/// The authorship log that says of the blamed lines which session wrote them.
pub open spec fn log_of(blamed: Seq<BlamedLineView>) -> AuthorshipLogView {
    let files = grouped(blamed);
    let sessions = sessions_of(blamed);
    AuthorshipLogView {
        attestations: Seq::new(
            files.len(),
            |i: int| FileAttestationView { file_path: files[i].0, entries: attested(files[i].1) },
        ),
        metadata: AuthorshipMetadataView {
            base_commit_sha: Seq::empty(),
            prompts: Seq::new(
                sessions.len(),
                |i: int| (
                    sessions[i].0,
                    accepted(sessions[i].1, session_total(files, sessions[i].0)),
                ),
            ),
            rest: Seq::empty(),
        },
    }
}

/// The number of lines of each session fits.
pub open spec fn log_fits(blamed: Seq<BlamedLineView>) -> bool {
    forall|i: int|
        0 <= i < sessions_of(blamed).len() ==> session_total(
            grouped(blamed),
            #[trigger] sessions_of(blamed)[i].0,
        ) <= u32::MAX
}

fn add_line(
    files: &mut Vec<(String, Vec<(String, Vec<u32>)>)>,
    file: &str,
    session: &str,
    line: u32,
)
    ensures
        final(files).deep_view() == with_line(old(files).deep_view(), file@, session@, line),
{
    let ghost before = files.deep_view();
    match find(files, file) {
        Some(i) => {
            proof {
                lemma_place_bounds(before, file@);
                assert(before[i as int] == files@[i as int].deep_view());
            }
            add_session_line(&mut files[i].1, session, line);
            assert(files.deep_view() =~= with_line(before, file@, session@, line));
        },
        None => {
            let mut sessions: Vec<(String, Vec<u32>)> = Vec::new();
            assert(sessions.deep_view() =~= Seq::empty());
            add_session_line(&mut sessions, session, line);
            files.push((file.to_string(), sessions));
            assert(files.deep_view() =~= before.push((file@, sessions.deep_view())));
        },
    }
}

fn add_session_line(sessions: &mut Vec<(String, Vec<u32>)>, session: &str, line: u32)
    ensures
        final(sessions).deep_view() == with_value(
            old(sessions).deep_view(),
            session@,
            lines_in(old(sessions).deep_view(), session@).push(line),
        ),
{
    let ghost before = sessions.deep_view();
    match find(sessions, session) {
        Some(i) => {
            proof {
                lemma_place_bounds(before, session@);
                assert(before[i as int] == sessions@[i as int].deep_view());
                assert(sessions@[i as int].1.deep_view() =~= sessions@[i as int].1@);
            }
            sessions[i].1.push(line);
            assert(sessions@[i as int].1.deep_view() =~= sessions@[i as int].1@);
            assert(sessions.deep_view() =~= with_value(
                before,
                session@,
                lines_in(before, session@).push(line),
            ));
        },
        None => {
            let mut found: Vec<u32> = Vec::new();
            found.push(line);
            assert(found.deep_view() =~= Seq::<u32>::empty().push(line));
            sessions.push((session.to_string(), found));
            assert(sessions.deep_view() =~= before.push(
                (session@, Seq::<u32>::empty().push(line)),
            ));
        },
    }
}

fn build_entries(sessions: &Vec<(String, Vec<u32>)>) -> (r: Vec<AttestationEntry>)
    ensures
        r.deep_view() == attested(sessions.deep_view()),
{
    let ghost all = sessions.deep_view();
    let ghost wanted = Seq::new(
        all.len(),
        |i: int| (all[i].0, ranges_of(sorted(all[i].1))),
    );
    let mut pairs: Vec<(String, Vec<LineRange>)> = Vec::new();
    let mut i: usize = 0;
    assert(pairs.deep_view() =~= wanted.take(0));
    while i < sessions.len()
        invariant
            i <= sessions@.len(),
            all == sessions.deep_view(),
            wanted == Seq::new(
                all.len(),
                |i: int| (all[i].0, ranges_of(sorted(all[i].1))),
            ),
            pairs.deep_view() == wanted.take(i as int),
        decreases sessions@.len() - i,
    {
        // Sort lines and create ranges
        let ghost before = pairs.deep_view();
        assert(all[i as int] == sessions@[i as int].deep_view());
        assert(sessions@[i as int].1.deep_view() =~= sessions@[i as int].1@);
        let in_order = sort_numbers(&sessions[i].1);
        let ranges = build_ranges(&in_order);
        assert(ranges.deep_view() =~= ranges@);
        pairs.push((sessions[i].0.clone(), ranges));
        assert(pairs.deep_view() =~= before.push(wanted[i as int]));
        assert(wanted.take(i + 1) =~= wanted.take(i as int).push(wanted[i as int]));
        i = i + 1;
    }
    assert(wanted.take(i as int) =~= wanted);
    // Sort attestation entries by hash for deterministic ordering
    let ordered = sort_by_key(pairs);
    let ghost in_order = ordered.deep_view();
    let mut entries: Vec<AttestationEntry> = Vec::new();
    let mut j: usize = 0;
    while j < ordered.len()
        invariant
            j <= ordered@.len(),
            in_order == ordered.deep_view(),
            entries@.len() == j,
            forall|k: int|
                0 <= k < j ==> (#[trigger] entries@[k]).deep_view() == (AttestationEntryView {
                    hash: in_order[k].0,
                    line_ranges: in_order[k].1,
                }),
        decreases ordered@.len() - j,
    {
        let pair = &ordered[j];
        assert(in_order[j as int] == pair.deep_view());
        let line_ranges = pair.1.clone();
        assert(line_ranges@ =~= pair.1@);
        assert(pair.1.deep_view() =~= pair.1@);
        entries.push(AttestationEntry { hash: pair.0.clone(), line_ranges });
        j = j + 1;
    }
    assert(entries.deep_view() =~= attested(all));
    entries
}

proof fn lemma_total_grows(files: FileLines, session: Seq<char>, i: int)
    requires
        0 <= i <= files.len(),
    ensures
        session_total(files.take(i), session) <= session_total(files, session),
    decreases files.len() - i,
{
    if i < files.len() {
        assert(files.take(i + 1).drop_last() =~= files.take(i));
        lemma_total_grows(files, session, i + 1);
    } else {
        assert(files.take(i) =~= files);
    }
}

fn count_accepted(files: &Vec<(String, Vec<(String, Vec<u32>)>)>, session: &str) -> (r: Option<u32>)
    ensures
        match r {
            Some(n) => n == session_total(files.deep_view(), session@),
            None => session_total(files.deep_view(), session@) > u32::MAX,
        },
{
    let ghost all = files.deep_view();
    let mut n: u32 = 0;
    let mut i: usize = 0;
    assert(all.take(0) =~= Seq::empty());
    while i < files.len()
        invariant
            i <= files@.len(),
            all == files.deep_view(),
            n == session_total(all.take(i as int), session@),
        decreases files@.len() - i,
    {
        assert(all.take(i + 1).drop_last() =~= all.take(i as int));
        assert(all.take(i + 1).last() == files@[i as int].deep_view());
        let ghost sessions = files@[i as int].1.deep_view();
        match find(&files[i].1, session) {
            Some(k) => {
                assert(sessions[k as int] == files@[i as int].1@[k as int].deep_view());
                assert(files@[i as int].1@[k as int].1.deep_view()
                    =~= files@[i as int].1@[k as int].1@);
                let more: usize = files[i].1[k].1.len();
                if more > (u32::MAX - n) as usize {
                    proof {
                        lemma_total_grows(all, session@, i + 1);
                    }
                    return None;
                }
                n = n + more as u32;
            },
            None => {},
        }
        i = i + 1;
    }
    assert(all.take(i as int) =~= all);
    Some(n)
}

/// The authorship log that says of the blamed lines which session wrote them, or `None` where the
/// number of lines of some session does not fit.
pub fn build_log(blamed: &Vec<BlamedLine>) -> (r: Option<AuthorshipLog>)
    ensures
        match r {
            Some(log) => log_fits(blamed.deep_view()) && log.deep_view() == log_of(
                blamed.deep_view(),
            ),
            None => !log_fits(blamed.deep_view()),
        },
{
    let ghost all = blamed.deep_view();
    let mut files: Vec<(String, Vec<(String, Vec<u32>)>)> = Vec::new();
    let mut sessions: Vec<(String, PromptRecord)> = Vec::new();
    let mut i: usize = 0;
    assert(all.take(0) =~= Seq::empty());
    assert(files.deep_view() =~= Seq::empty());
    assert(sessions.deep_view() =~= Seq::empty());
    // Group entries by file and prompt session ID for efficiency
    while i < blamed.len()
        invariant
            i <= blamed@.len(),
            all == blamed.deep_view(),
            files.deep_view() == grouped(all.take(i as int)),
            sessions.deep_view() == sessions_of(all.take(i as int)),
        decreases blamed@.len() - i,
    {
        let entry = &blamed[i];
        assert(all.take(i + 1).drop_last() =~= all.take(i as int));
        assert(all.take(i + 1).last() == entry.deep_view());
        // Only process AI-generated content (entries with prompt)
        if let Some(prompt) = &entry.prompt {
            // Store prompt record (preserving total_additions and total_deletions from original)
            put(&mut sessions, prompt.agent_id.id.clone(), prompt.clone());
            add_line(&mut files, entry.file.as_str(), prompt.agent_id.id.as_str(), entry.line);
        }
        i = i + 1;
    }
    assert(all.take(i as int) =~= all);
    let ghost grouped_files = files.deep_view();
    let ghost found = sessions.deep_view();
    let ghost wanted = log_of(all);
    // Calculate accepted_lines for each prompt
    let mut prompts: Vec<(String, PromptRecord)> = Vec::new();
    let mut k: usize = 0;
    assert(prompts.deep_view() =~= wanted.metadata.prompts.take(0));
    while k < sessions.len()
        invariant
            k <= sessions@.len(),
            all == blamed.deep_view(),
            files.deep_view() == grouped_files,
            grouped_files == grouped(all),
            found == sessions.deep_view(),
            found == sessions_of(all),
            wanted == log_of(all),
            prompts.deep_view() == wanted.metadata.prompts.take(k as int),
            forall|j: int|
                0 <= j < k ==> session_total(grouped_files, #[trigger] found[j].0) <= u32::MAX,
        decreases sessions@.len() - k,
    {
        let pair = &sessions[k];
        assert(found[k as int] == pair.deep_view());
        let ghost before = prompts.deep_view();
        match count_accepted(&files, pair.0.as_str()) {
            Some(n) => {
                let mut prompt = pair.1.clone();
                prompt.accepted_lines = n;
                prompts.push((pair.0.clone(), prompt));
                assert(prompts.deep_view() =~= before.push(wanted.metadata.prompts[k as int]));
                assert(wanted.metadata.prompts.take(k + 1) =~= wanted.metadata.prompts.take(
                    k as int,
                ).push(wanted.metadata.prompts[k as int]));
            },
            None => {
                assert(session_total(grouped_files, sessions_of(all)[k as int].0) > u32::MAX);
                return None;
            },
        }
        k = k + 1;
    }
    assert(wanted.metadata.prompts.take(k as int) =~= wanted.metadata.prompts);
    // Convert grouped entries to AuthorshipLog format
    let mut attestations: Vec<FileAttestation> = Vec::new();
    let mut f: usize = 0;
    assert(attestations.deep_view() =~= wanted.attestations.take(0));
    while f < files.len()
        invariant
            f <= files@.len(),
            files.deep_view() == grouped_files,
            grouped_files == grouped(all),
            wanted == log_of(all),
            attestations.deep_view() == wanted.attestations.take(f as int),
        decreases files@.len() - f,
    {
        let ghost before = attestations.deep_view();
        assert(grouped_files[f as int] == files@[f as int].deep_view());
        let entries = build_entries(&files[f].1);
        attestations.push(FileAttestation { file_path: files[f].0.clone(), entries });
        assert(attestations.deep_view() =~= before.push(wanted.attestations[f as int]));
        assert(wanted.attestations.take(f + 1) =~= wanted.attestations.take(f as int).push(
            wanted.attestations[f as int],
        ));
        f = f + 1;
    }
    assert(wanted.attestations.take(f as int) =~= wanted.attestations);
    Some(
        AuthorshipLog {
            attestations,
            metadata: AuthorshipMetadata {
                base_commit_sha: String::new(),
                prompts,
                rest: String::new(),
            },
        },
    )
}

// ---------------------------------------------------------------------------------------------
// What the log says
// ---------------------------------------------------------------------------------------------
/// A log says that a session wrote a line of a file.
pub open spec fn says_wrote(
    log: AuthorshipLogView,
    file: Seq<char>,
    session: Seq<char>,
    n: int,
) -> bool {
    exists|a: int, e: int|
        0 <= a < log.attestations.len() && 0 <= e < log.attestations[a].entries.len()
            && entry_says(log.attestations, a, e, file, session, n)
}

pub open spec fn entry_says(
    attestations: Seq<FileAttestationView>,
    a: int,
    e: int,
    file: Seq<char>,
    session: Seq<char>,
    n: int,
) -> bool {
    attestations[a].file_path == file && attestations[a].entries[e].hash == session && held(
        attestations[a].entries[e].line_ranges,
        n,
    )
}

/// A line was blamed on a session.
pub open spec fn blamed_on(
    line: BlamedLineView,
    file: Seq<char>,
    session: Seq<char>,
    n: u32,
) -> bool {
    line.file == file && line.line == n && line.prompt is Some && line.prompt->Some_0.agent_id.id
        == session
}

proof fn lemma_grouped(blamed: Seq<BlamedLineView>, file: Seq<char>, session: Seq<char>, n: u32)
    ensures
        lines_in(sessions_in(grouped(blamed), file), session).contains(n) <==> exists|i: int|
            0 <= i < blamed.len() && #[trigger] blamed_on(blamed[i], file, session, n),
    decreases blamed.len(),
{
    if blamed.len() > 0 {
        let d = blamed.drop_last();
        let last = blamed.last();
        lemma_grouped(d, file, session, n);
        let before = grouped(d);
        let old_lines = lines_in(sessions_in(before, file), session);
        let new_lines = lines_in(sessions_in(grouped(blamed), file), session);
        assert(new_lines.contains(n) <==> (old_lines.contains(n) || blamed_on(
            last,
            file,
            session,
            n,
        ))) by {
            match last.prompt {
                Some(prompt) => {
                    let id = prompt.agent_id.id;
                    let inner = sessions_in(before, last.file);
                    let value = lines_in(inner, id).push(last.line);
                    lemma_with_value_found(before, last.file, with_value(inner, id, value), file);
                    lemma_with_value_found(inner, id, value, session);
                    if last.file == file && id == session {
                        assert(new_lines == old_lines.push(last.line));
                        if new_lines.contains(n) {
                            let k = choose|k: int| 0 <= k < new_lines.len() && new_lines[k] == n;
                            if k < old_lines.len() {
                                assert(old_lines[k] == n);
                            }
                        }
                        if old_lines.contains(n) {
                            let k = choose|k: int| 0 <= k < old_lines.len() && old_lines[k] == n;
                            assert(new_lines[k] == n);
                        }
                        if last.line == n {
                            assert(new_lines[old_lines.len() as int] == n);
                        }
                    }
                },
                None => {},
            }
        }
        if exists|i: int|
            0 <= i < blamed.len() && #[trigger] blamed_on(blamed[i], file, session, n) {
            let i = choose|i: int|
                0 <= i < blamed.len() && #[trigger] blamed_on(blamed[i], file, session, n);
            if i < d.len() {
                assert(blamed_on(d[i], file, session, n));
            }
        }
        if exists|i: int| 0 <= i < d.len() && #[trigger] blamed_on(d[i], file, session, n) {
            let i = choose|i: int| 0 <= i < d.len() && #[trigger] blamed_on(d[i], file, session, n);
            assert(blamed_on(blamed[i], file, session, n));
        }
        if blamed_on(last, file, session, n) {
            assert(blamed_on(blamed[blamed.len() - 1], file, session, n));
        }
    }
}

/// No file stands twice, and in no file a session.
pub open spec fn names_unique(files: FileLines) -> bool {
    keys_unique(files) && forall|i: int|
        0 <= i < files.len() ==> keys_unique((#[trigger] files[i]).1)
}

proof fn lemma_grouped_unique(blamed: Seq<BlamedLineView>)
    ensures
        names_unique(grouped(blamed)),
    decreases blamed.len(),
{
    if blamed.len() > 0 {
        let d = blamed.drop_last();
        lemma_grouped_unique(d);
        match blamed.last().prompt {
            Some(prompt) => {
                let last = blamed.last();
                let before = grouped(d);
                let inner = sessions_in(before, last.file);
                let id = prompt.agent_id.id;
                lemma_place_bounds(before, last.file);
                assert(keys_unique(inner)) by {
                    if has_key(before, last.file) {
                        assert(keys_unique(before[place_of(before, last.file)].1));
                    }
                }
                let value = lines_in(inner, id).push(last.line);
                lemma_with_value_unique(inner, id, value);
                lemma_with_value_unique(before, last.file, with_value(inner, id, value));
            },
            None => {},
        }
    }
}

/// Each session to which a line was blamed is listed in the log once, and no other.
pub proof fn law_sessions_listed(blamed: Seq<BlamedLineView>, session: Seq<char>)
    ensures
        keys_unique(log_of(blamed).metadata.prompts),
        has_key(log_of(blamed).metadata.prompts, session) <==> exists|i: int|
            0 <= i < blamed.len() && #[trigger] blamed_session(blamed[i], session),
{
    lemma_sessions_of(blamed, session);
    let found = sessions_of(blamed);
    let prompts = log_of(blamed).metadata.prompts;
    assert forall|i: int, j: int| 0 <= i < j < prompts.len() implies (#[trigger] prompts[i]).0
        != (#[trigger] prompts[j]).0 by {
        assert(found[i].0 != found[j].0);
    }
    lemma_place_bounds(found, session);
    let k = place_of(found, session);
    assert forall|j: int| 0 <= j < k implies (#[trigger] prompts[j]).0 != session by {
        assert(found[j].0 != session);
    }
    lemma_place_of(prompts, session, k);
}

/// A line was blamed on a session, in some file.
pub open spec fn blamed_session(line: BlamedLineView, session: Seq<char>) -> bool {
    line.prompt is Some && line.prompt->Some_0.agent_id.id == session
}

proof fn lemma_sessions_of(blamed: Seq<BlamedLineView>, session: Seq<char>)
    ensures
        keys_unique(sessions_of(blamed)),
        has_key(sessions_of(blamed), session) <==> exists|i: int|
            0 <= i < blamed.len() && #[trigger] blamed_session(blamed[i], session),
    decreases blamed.len(),
{
    if blamed.len() > 0 {
        let d = blamed.drop_last();
        let last = blamed.last();
        lemma_sessions_of(d, session);
        match last.prompt {
            Some(prompt) => {
                lemma_with_value_unique(sessions_of(d), prompt.agent_id.id, prompt);
                lemma_with_value_found(sessions_of(d), prompt.agent_id.id, prompt, session);
            },
            None => {},
        }
        if exists|i: int| 0 <= i < blamed.len() && #[trigger] blamed_session(blamed[i], session) {
            let i = choose|i: int|
                0 <= i < blamed.len() && #[trigger] blamed_session(blamed[i], session);
            if i < d.len() {
                assert(blamed_session(d[i], session));
            }
        }
        if exists|i: int| 0 <= i < d.len() && #[trigger] blamed_session(d[i], session) {
            let i = choose|i: int| 0 <= i < d.len() && #[trigger] blamed_session(d[i], session);
            assert(blamed_session(blamed[i], session));
        }
        if blamed_session(last, session) {
            assert(blamed_session(blamed[blamed.len() - 1], session));
        }
    } else {
        lemma_place_bounds(sessions_of(blamed), session);
    }
}

proof fn lemma_found_at<V>(pairs: Seq<(Seq<char>, V)>, i: int)
    requires
        keys_unique(pairs),
        0 <= i < pairs.len(),
    ensures
        value_of(pairs, pairs[i].0) == Some(pairs[i].1),
{
    assert forall|j: int| 0 <= j < i implies (#[trigger] pairs[j]).0 != pairs[i].0 by {
    }
    lemma_place_of(pairs, pairs[i].0, i);
}

proof fn lemma_attested(sessions: SessionLines, session: Seq<char>, n: u32)
    requires
        keys_unique(sessions),
    ensures
        lines_in(sessions, session).contains(n) <==> exists|e: int|
            0 <= e < attested(sessions).len() && (#[trigger] attested(sessions)[e]).hash == session
                && held(attested(sessions)[e].line_ranges, n as int),
{
    broadcast use vstd::seq_lib::group_to_multiset_ensures;

    let plain = Seq::new(
        sessions.len(),
        |i: int| (sessions[i].0, ranges_of(sorted(sessions[i].1))),
    );
    let pairs = by_key(plain);
    let entries = attested(sessions);
    law_by_key(plain);
    if lines_in(sessions, session).contains(n) {
        lemma_place_bounds(sessions, session);
        let k = place_of(sessions, session);
        let found = sessions[k].1;
        law_sorted(found);
        assert(found.to_multiset().contains(n));
        assert(sorted(found).contains(n));
        law_ranges_hold(sorted(found), n);
        assert(plain[k] == (session, ranges_of(sorted(found))));
        assert(plain.contains(plain[k]));
        assert(pairs.to_multiset().contains(plain[k]));
        assert(pairs.contains(plain[k]));
        let e = choose|e: int| 0 <= e < pairs.len() && pairs[e] == plain[k];
        assert(entries[e].hash == session);
    }
    if exists|e: int|
        0 <= e < entries.len() && (#[trigger] entries[e]).hash == session && held(
            entries[e].line_ranges,
            n as int,
        ) {
        let e = choose|e: int|
            0 <= e < entries.len() && (#[trigger] entries[e]).hash == session && held(
                entries[e].line_ranges,
                n as int,
            );
        assert(pairs.contains(pairs[e]));
        assert(plain.to_multiset().contains(pairs[e]));
        assert(plain.contains(pairs[e]));
        let k = choose|k: int| 0 <= k < plain.len() && plain[k] == pairs[e];
        lemma_found_at(sessions, k);
        let found = sessions[k].1;
        law_sorted(found);
        law_ranges_hold(sorted(found), n);
        assert(sorted(found).to_multiset().contains(n));
        assert(found.contains(n));
    }
}

/// The log says that a session wrote a line just where that line was blamed on that session.
pub proof fn law_log_says_what_was_blamed(
    blamed: Seq<BlamedLineView>,
    file: Seq<char>,
    session: Seq<char>,
    n: u32,
)
    ensures
        says_wrote(log_of(blamed), file, session, n as int) <==> exists|i: int|
            0 <= i < blamed.len() && #[trigger] blamed_on(blamed[i], file, session, n),
{
    let files = grouped(blamed);
    let log = log_of(blamed);
    lemma_grouped(blamed, file, session, n);
    lemma_grouped_unique(blamed);
    let found = lines_in(sessions_in(files, file), session);
    if found.contains(n) {
        lemma_place_bounds(files, file);
        let a = place_of(files, file);
        assert(keys_unique(files[a].1));
        lemma_attested(files[a].1, session, n);
        let entries = attested(files[a].1);
        let e = choose|e: int|
            0 <= e < entries.len() && (#[trigger] entries[e]).hash == session && held(
                entries[e].line_ranges,
                n as int,
            );
        assert(entry_says(log.attestations, a, e, file, session, n as int));
    }
    if says_wrote(log, file, session, n as int) {
        let (a, e) = choose|a: int, e: int|
            0 <= a < log.attestations.len() && 0 <= e < log.attestations[a].entries.len()
                && entry_says(log.attestations, a, e, file, session, n as int);
        lemma_found_at(files, a);
        assert(keys_unique(files[a].1));
        lemma_attested(files[a].1, session, n);
        assert(attested(files[a].1)[e].hash == session);
    }
}

proof fn lemma_attested_unique(sessions: SessionLines, e: int, f: int)
    requires
        keys_unique(sessions),
        0 <= e < attested(sessions).len(),
        0 <= f < attested(sessions).len(),
        attested(sessions)[e].hash == attested(sessions)[f].hash,
    ensures
        e == f,
{
    broadcast use vstd::seq_lib::group_to_multiset_ensures;

    let plain = Seq::new(
        sessions.len(),
        |i: int| (sessions[i].0, ranges_of(sorted(sessions[i].1))),
    );
    let pairs = by_key(plain);
    law_by_key(plain);
    assert forall|i: int, j: int| 0 <= i < plain.len() && 0 <= j < plain.len() && i != j implies
        plain[i] != plain[j] by {
        assert(sessions[i].0 != sessions[j].0);
    }
    plain.lemma_multiset_has_no_duplicates();
    pairs.lemma_multiset_has_no_duplicates_conv();
    assert(pairs.contains(pairs[e]) && pairs.contains(pairs[f]));
    assert(plain.to_multiset().contains(pairs[e]) && plain.to_multiset().contains(pairs[f]));
    let i = choose|i: int| 0 <= i < plain.len() && plain[i] == pairs[e];
    let j = choose|j: int| 0 <= j < plain.len() && plain[j] == pairs[f];
    assert(sessions[i].0 == sessions[j].0);
    assert(pairs[e] == pairs[f]);
}

/// No two of the blamed lines are the same line of the same file.
pub open spec fn blamed_once(blamed: Seq<BlamedLineView>) -> bool {
    forall|i: int, j: int|
        0 <= i < j < blamed.len() ==> !((#[trigger] blamed[i]).file == (#[trigger] blamed[j]).file
            && blamed[i].line == blamed[j].line)
}

/// Where each line was blamed once, no line is held by two entries of one file.
pub proof fn law_no_line_in_two_entries(
    blamed: Seq<BlamedLineView>,
    a: int,
    e: int,
    b: int,
    f: int,
    n: u32,
)
    requires
        blamed_once(blamed),
        0 <= a < log_of(blamed).attestations.len(),
        0 <= e < log_of(blamed).attestations[a].entries.len(),
        0 <= b < log_of(blamed).attestations.len(),
        0 <= f < log_of(blamed).attestations[b].entries.len(),
        log_of(blamed).attestations[a].file_path == log_of(blamed).attestations[b].file_path,
        held(log_of(blamed).attestations[a].entries[e].line_ranges, n as int),
        held(log_of(blamed).attestations[b].entries[f].line_ranges, n as int),
    ensures
        a == b,
        e == f,
{
    let log = log_of(blamed);
    let files = grouped(blamed);
    let file = files[a].0;
    let one = log.attestations[a].entries[e].hash;
    let other = log.attestations[b].entries[f].hash;
    lemma_grouped_unique(blamed);
    assert(files[a].0 == files[b].0);
    assert(keys_unique(files[a].1));
    assert(entry_says(log.attestations, a, e, file, one, n as int));
    assert(entry_says(log.attestations, b, f, file, other, n as int));
    law_log_says_what_was_blamed(blamed, file, one, n);
    law_log_says_what_was_blamed(blamed, file, other, n);
    let i = choose|i: int| 0 <= i < blamed.len() && #[trigger] blamed_on(blamed[i], file, one, n);
    let j = choose|j: int| 0 <= j < blamed.len() && #[trigger] blamed_on(blamed[j], file, other, n);
    assert(blamed[i].file == blamed[j].file && blamed[i].line == blamed[j].line);
    assert(i == j);
    lemma_attested_unique(files[a].1, e, f);
}

proof fn lemma_once_before(blamed: Seq<BlamedLineView>)
    requires
        blamed_once(blamed),
        blamed.len() > 0,
    ensures
        blamed_once(blamed.drop_last()),
{
    let d = blamed.drop_last();
    assert forall|i: int, j: int| 0 <= i < j < d.len() implies !((#[trigger] d[i]).file == (
    #[trigger] d[j]).file && d[i].line == d[j].line) by {
        assert(d[i] == blamed[i] && d[j] == blamed[j]);
    }
}

proof fn lemma_grouped_distinct(
    blamed: Seq<BlamedLineView>,
    file: Seq<char>,
    session: Seq<char>,
)
    requires
        blamed_once(blamed),
    ensures
        lines_in(sessions_in(grouped(blamed), file), session).no_duplicates(),
    decreases blamed.len(),
{
    if blamed.len() > 0 {
        let d = blamed.drop_last();
        let last = blamed.last();
        lemma_once_before(blamed);
        lemma_grouped_distinct(d, file, session);
        let before = grouped(d);
        let old_lines = lines_in(sessions_in(before, file), session);
        match last.prompt {
            Some(prompt) => {
                let id = prompt.agent_id.id;
                let inner = sessions_in(before, last.file);
                let value = lines_in(inner, id).push(last.line);
                lemma_with_value_found(before, last.file, with_value(inner, id, value), file);
                lemma_with_value_found(inner, id, value, session);
                if last.file == file && id == session {
                    lemma_grouped(d, file, session, last.line);
                    if old_lines.contains(last.line) {
                        let i = choose|i: int|
                            0 <= i < d.len() && #[trigger] blamed_on(
                                d[i],
                                file,
                                session,
                                last.line,
                            );
                        assert(blamed[i].file == blamed[blamed.len() - 1].file);
                    }
                    let new_lines = old_lines.push(last.line);
                    assert forall|i: int, j: int|
                        0 <= i < new_lines.len() && 0 <= j < new_lines.len() && i != j implies
                        new_lines[i] != new_lines[j] by {
                        if i == old_lines.len() {
                            assert(old_lines.contains(old_lines[j]));
                        } else if j == old_lines.len() {
                            assert(old_lines.contains(old_lines[i]));
                        }
                    }
                }
            },
            None => {},
        }
    }
}

/// The ranges are in ascending order, and between each and the next there is a line that is in
/// neither.
pub open spec fn ranges_apart(ranges: Seq<LineRange>) -> bool {
    &&& forall|i: int|
        0 <= i < ranges.len() ==> range_start(#[trigger] ranges[i]) <= range_end(ranges[i])
    &&& forall|i: int, j: int|
        0 <= i < j < ranges.len() ==> range_end(#[trigger] ranges[i]) + 1 < range_start(
            #[trigger] ranges[j],
        )
}

/// Where each line was blamed once, the ranges of each entry of the log are in ascending order and
/// apart.
pub proof fn law_entry_ranges_apart(blamed: Seq<BlamedLineView>, a: int, e: int)
    requires
        blamed_once(blamed),
        0 <= a < log_of(blamed).attestations.len(),
        0 <= e < log_of(blamed).attestations[a].entries.len(),
    ensures
        ranges_apart(log_of(blamed).attestations[a].entries[e].line_ranges),
{
    broadcast use vstd::seq_lib::group_to_multiset_ensures;

    let files = grouped(blamed);
    let sessions = files[a].1;
    lemma_grouped_unique(blamed);
    assert(keys_unique(files[a].1));
    lemma_found_at(files, a);
    let plain = Seq::new(
        sessions.len(),
        |i: int| (sessions[i].0, ranges_of(sorted(sessions[i].1))),
    );
    let pairs = by_key(plain);
    law_by_key(plain);
    assert(pairs.contains(pairs[e]));
    assert(plain.to_multiset().contains(pairs[e]));
    assert(plain.contains(pairs[e]));
    let k = choose|k: int| 0 <= k < plain.len() && plain[k] == pairs[e];
    lemma_found_at(sessions, k);
    let found = sessions[k].1;
    lemma_grouped_distinct(blamed, files[a].0, sessions[k].0);
    law_sorted(found);
    found.lemma_multiset_has_no_duplicates();
    sorted(found).lemma_multiset_has_no_duplicates_conv();
    assert forall|i: int, j: int| 0 <= i < j < sorted(found).len() implies sorted(found)[i]
        < sorted(found)[j] by {
        assert(sorted(found)[i] != sorted(found)[j]);
    }
    law_ranges_apart(sorted(found));
}

/// A log says of each line of a file at most once who wrote it, in ranges that are in ascending
/// order and apart.
pub open spec fn says_once(log: AuthorshipLogView) -> bool {
    &&& forall|a: int, e: int, b: int, f: int, n: u32|
        0 <= a < log.attestations.len() && 0 <= e < log.attestations[a].entries.len() && 0 <= b
            < log.attestations.len() && 0 <= f < log.attestations[b].entries.len()
            && log.attestations[a].file_path == log.attestations[b].file_path && #[trigger] held(
            log.attestations[a].entries[e].line_ranges,
            n as int,
        ) && #[trigger] held(log.attestations[b].entries[f].line_ranges, n as int) ==> a == b && e
            == f
    &&& forall|a: int, e: int|
        0 <= a < log.attestations.len() && 0 <= e < log.attestations[a].entries.len()
            ==> ranges_apart(#[trigger] log.attestations[a].entries[e].line_ranges)
}

/// Where each line was blamed once, the log says of each line once who wrote it.
pub proof fn law_log_says_once(blamed: Seq<BlamedLineView>)
    requires
        blamed_once(blamed),
    ensures
        says_once(log_of(blamed)),
{
    let log = log_of(blamed);
    assert forall|a: int, e: int, b: int, f: int, n: u32|
        0 <= a < log.attestations.len() && 0 <= e < log.attestations[a].entries.len() && 0 <= b
            < log.attestations.len() && 0 <= f < log.attestations[b].entries.len()
            && log.attestations[a].file_path == log.attestations[b].file_path && #[trigger] held(
            log.attestations[a].entries[e].line_ranges,
            n as int,
        ) && #[trigger] held(log.attestations[b].entries[f].line_ranges, n as int) implies a == b
        && e == f by {
        law_no_line_in_two_entries(blamed, a, e, b, f, n);
    }
    assert forall|a: int, e: int|
        0 <= a < log.attestations.len() && 0 <= e < log.attestations[a].entries.len() implies
        ranges_apart(#[trigger] log.attestations[a].entries[e].line_ranges) by {
        law_entry_ranges_apart(blamed, a, e);
    }
}

/// How many lines the entries attest to a session.
pub open spec fn entries_total(entries: Seq<AttestationEntryView>, session: Seq<char>) -> int
    decreases entries.len(),
{
    if entries.len() == 0 {
        0
    } else {
        entries_total(entries.drop_last(), session) + if entries.last().hash == session {
            total_len(entries.last().line_ranges)
        } else {
            0
        }
    }
}

/// How many lines of all files a log attests to a session.
pub open spec fn attested_total(
    attestations: Seq<FileAttestationView>,
    session: Seq<char>,
) -> int
    decreases attestations.len(),
{
    if attestations.len() == 0 {
        0
    } else {
        attested_total(attestations.drop_last(), session) + entries_total(
            attestations.last().entries,
            session,
        )
    }
}

spec fn pairs_total(pairs: Seq<(Seq<char>, Seq<LineRange>)>, session: Seq<char>) -> int
    decreases pairs.len(),
{
    if pairs.len() == 0 {
        0
    } else {
        pairs_total(pairs.drop_last(), session) + if pairs.last().0 == session {
            total_len(pairs.last().1)
        } else {
            0
        }
    }
}

proof fn lemma_pairs_total_with(
    pairs: Seq<(Seq<char>, Seq<LineRange>)>,
    pair: (Seq<char>, Seq<LineRange>),
    session: Seq<char>,
)
    ensures
        pairs_total(crate::assoc::with_pair(pairs, pair), session) == pairs_total(pairs, session)
            + if pair.0 == session {
            total_len(pair.1)
        } else {
            0
        },
    decreases pairs.len(),
{
    let out = crate::assoc::with_pair(pairs, pair);
    if pairs.len() == 0 || !crate::text::before(pair.0, pairs.last().0) {
        assert(out.drop_last() =~= pairs);
    } else {
        lemma_pairs_total_with(pairs.drop_last(), pair, session);
        assert(out.drop_last() =~= crate::assoc::with_pair(pairs.drop_last(), pair));
    }
}

proof fn lemma_pairs_total_ordered(pairs: Seq<(Seq<char>, Seq<LineRange>)>, session: Seq<char>)
    ensures
        pairs_total(by_key(pairs), session) == pairs_total(pairs, session),
    decreases pairs.len(),
{
    if pairs.len() > 0 {
        lemma_pairs_total_ordered(pairs.drop_last(), session);
        lemma_pairs_total_with(by_key(pairs.drop_last()), pairs.last(), session);
    }
}

proof fn lemma_entries_total_pairs(
    pairs: Seq<(Seq<char>, Seq<LineRange>)>,
    entries: Seq<AttestationEntryView>,
    session: Seq<char>,
)
    requires
        entries == Seq::new(
            pairs.len(),
            |i: int| AttestationEntryView { hash: pairs[i].0, line_ranges: pairs[i].1 },
        ),
    ensures
        entries_total(entries, session) == pairs_total(pairs, session),
    decreases pairs.len(),
{
    if pairs.len() > 0 {
        let d = pairs.drop_last();
        assert(entries.drop_last() =~= Seq::new(
            d.len(),
            |i: int| AttestationEntryView { hash: d[i].0, line_ranges: d[i].1 },
        ));
        lemma_entries_total_pairs(d, entries.drop_last(), session);
    }
}

proof fn lemma_plain_total(sessions: SessionLines, session: Seq<char>)
    requires
        keys_unique(sessions),
    ensures
        pairs_total(
            Seq::new(
                sessions.len(),
                |i: int| (sessions[i].0, ranges_of(sorted(sessions[i].1))),
            ),
            session,
        ) == lines_in(sessions, session).len(),
    decreases sessions.len(),
{
    let plain = Seq::new(
        sessions.len(),
        |i: int| (sessions[i].0, ranges_of(sorted(sessions[i].1))),
    );
    if sessions.len() == 0 {
        lemma_place_bounds(sessions, session);
    } else {
        let d = sessions.drop_last();
        let last = sessions.last();
        assert(keys_unique(d)) by {
            assert forall|i: int, j: int| 0 <= i < j < d.len() implies (#[trigger] d[i]).0
                != (#[trigger] d[j]).0 by {
                assert(d[i] == sessions[i] && d[j] == sessions[j]);
            }
        }
        lemma_plain_total(d, session);
        assert(plain.drop_last() =~= Seq::new(
            d.len(),
            |i: int| (d[i].0, ranges_of(sorted(d[i].1))),
        ));
        law_sorted(last.1);
        law_ranges_count(sorted(last.1));
        lemma_place_bounds(d, session);
        if last.0 == session {
            lemma_found_at(sessions, sessions.len() - 1);
            if has_key(d, session) {
                let k = place_of(d, session);
                assert(sessions[k].0 == sessions[sessions.len() - 1].0);
            }
        } else {
            let k = place_of(d, session);
            if has_key(d, session) {
                assert forall|j: int| 0 <= j < k implies (#[trigger] sessions[j]).0 != session by {
                    assert(d[j] == sessions[j]);
                }
                lemma_place_of(sessions, session, k);
            } else {
                assert forall|j: int| 0 <= j < sessions.len() implies (#[trigger] sessions[j]).0
                    != session by {
                    if j < d.len() {
                        assert(d[j] == sessions[j]);
                    }
                }
                lemma_place_of(sessions, session, sessions.len() as int);
            }
        }
    }
}

proof fn lemma_attested_total(files: FileLines, attestations: Seq<FileAttestationView>, session: Seq<char>)
    requires
        forall|i: int| 0 <= i < files.len() ==> keys_unique((#[trigger] files[i]).1),
        attestations == Seq::new(
            files.len(),
            |i: int| FileAttestationView { file_path: files[i].0, entries: attested(files[i].1) },
        ),
    ensures
        attested_total(attestations, session) == session_total(files, session),
    decreases files.len(),
{
    if files.len() > 0 {
        let d = files.drop_last();
        assert forall|i: int| 0 <= i < d.len() implies keys_unique((#[trigger] d[i]).1) by {
            assert(d[i] == files[i]);
        }
        assert(attestations.drop_last() =~= Seq::new(
            d.len(),
            |i: int| FileAttestationView { file_path: d[i].0, entries: attested(d[i].1) },
        ));
        lemma_attested_total(d, attestations.drop_last(), session);
        let sessions = files.last().1;
        assert(keys_unique(files[files.len() - 1].1));
        let plain = Seq::new(
            sessions.len(),
            |i: int| (sessions[i].0, ranges_of(sorted(sessions[i].1))),
        );
        lemma_plain_total(sessions, session);
        lemma_pairs_total_ordered(plain, session);
        lemma_entries_total_pairs(by_key(plain), attested(sessions), session);
    }
}

/// Each session of the log is said to have kept as many lines as the log attests to it.
pub proof fn law_accepted_lines(blamed: Seq<BlamedLineView>, i: int)
    requires
        log_fits(blamed),
        0 <= i < log_of(blamed).metadata.prompts.len(),
    ensures
        log_of(blamed).metadata.prompts[i].1.accepted_lines == attested_total(
            log_of(blamed).attestations,
            log_of(blamed).metadata.prompts[i].0,
        ),
{
    lemma_grouped_unique(blamed);
    let session = sessions_of(blamed)[i].0;
    assert(session_total(grouped(blamed), session) <= u32::MAX);
    lemma_attested_total(grouped(blamed), log_of(blamed).attestations, session);
}

} // verus!
