//! What the lines of a difference between two commits say.
use crate::authorship::range_authorship::{
    after_line, after_lines, between_signs, named_file, new_start, role_at, role_of, unreadable,
    Progress, Role,
};
use crate::git::diff::{
    added_to, announced, diff_fits, file_after, file_at, first_with_plus, fits_u32, follows,
    hunk_at, hunk_fits, hunk_range_of, left_at, line_in, start_and_count, without_pluses, DiffLine,
    Left,
};
use crate::text::{
    decimal, find_from, has_prefix, is_digit, is_white, law_cut, law_decimal_is_digits,
    law_decimal_is_read, law_pieces_some, law_split_undoes_join, law_words_are_parted, occurs_at,
    parsed, rfind_before, split_at_char, split_at_text, split_at_text_from, trim_end, trim_start,
    trimmed, words_of,
};
use vstd::prelude::*;

verus! {

broadcast use vstd::seq::group_seq_axioms;

/// Where some lines start and how many they are, as the header of a hunk says it.
pub open spec fn place(start: nat, count: nat) -> Seq<char> {
    decimal(start).push(',') + decimal(count)
}

/// What stands between the signs of a hunk's header: where the old lines and the new ones are.
pub open spec fn places(old: Seq<char>, new: Seq<char>) -> Seq<char> {
    seq![' ', '-'] + old + seq![' ', '+'] + new + seq![' ']
}

/// The header of a hunk, with what git writes behind it.
pub open spec fn header(old: Seq<char>, new: Seq<char>, heading: Seq<char>) -> Seq<char> {
    seq!['@', '@'] + places(old, new) + seq!['@', '@'] + heading
}

/// The text is of digits and commas, and starts with a digit.
pub open spec fn is_place(s: Seq<char>) -> bool {
    s.len() > 0 && is_digit(s[0]) && forall|i: int|
        0 <= i < s.len() ==> is_digit(#[trigger] s[i]) || s[i] == ','
}

proof fn lemma_decimal_place(start: nat, count: nat)
    ensures
        is_place(decimal(start)),
        is_place(place(start, count)),
{
    law_decimal_is_digits(start);
    law_decimal_is_digits(count);
    let s = place(start, count);
    let n = decimal(start).len() as int;
    assert forall|i: int| 0 <= i < s.len() implies is_digit(#[trigger] s[i]) || s[i] == ',' by {
        if i < n {
            assert(s[i] == decimal(start)[i]);
        } else if i > n {
            assert(s[i] == decimal(count)[i - n - 1]);
        }
    }
    assert(s[0] == decimal(start)[0]);
}

/// A place is read back: with its number of lines, or, where none is given, as one line.
pub proof fn law_place_is_read(start: nat, count: nat)
    requires
        start <= u32::MAX,
        count <= u32::MAX,
    ensures
        start_and_count(place(start, count)) == Some((start, count)),
        start_and_count(decimal(start)) == Some((start, 1nat)),
{
    law_decimal_is_digits(start);
    law_decimal_is_digits(count);
    law_decimal_is_read(start, u32::MAX as nat);
    law_decimal_is_read(count, u32::MAX as nat);
    assert(!decimal(start).contains(',')) by {
        if decimal(start).contains(',') {
            let i = decimal(start).index_of(',');
            assert(is_digit(decimal(start)[i]));
        }
    }
    assert(!decimal(count).contains(',')) by {
        if decimal(count).contains(',') {
            let i = decimal(count).index_of(',');
            assert(is_digit(decimal(count)[i]));
        }
    }
    law_split_undoes_join(decimal(start), ',', decimal(count));
    law_split_undoes_join(decimal(count), ',', Seq::empty());
}

proof fn lemma_no_white(s: Seq<char>)
    requires
        is_place(s),
    ensures
        forall|i: int| 0 <= i < s.len() ==> !is_white(#[trigger] s[i]) && s[i] != '@' && s[i] != '+'
            && s[i] != '-',
{
}

proof fn lemma_words_of_places(old: Seq<char>, new: Seq<char>)
    requires
        is_place(old),
        is_place(new),
    ensures
        words_of(places(old, new)) == seq![seq!['-'] + old, seq!['+'] + new],
        trimmed(places(old, new)) == seq!['-'] + old + seq![' ', '+'] + new,
        words_of(trimmed(places(old, new))) == seq![seq!['-'] + old, seq!['+'] + new],
{
    lemma_no_white(old);
    lemma_no_white(new);
    let none = Seq::<char>::empty();
    let a = seq!['-'] + old;
    let b = seq!['+'] + new;
    assert forall|i: int| 0 <= i < a.len() implies !is_white(#[trigger] a[i]) by {
        if i > 0 {
            assert(a[i] == old[i - 1]);
        }
    }
    assert forall|i: int| 0 <= i < b.len() implies !is_white(#[trigger] b[i]) by {
        if i > 0 {
            assert(b[i] == new[i - 1]);
        }
    }
    let middle = a.push(' ') + b;
    let end = b.push(' ') + none;
    let tail = a.push(' ') + end;
    assert(places(old, new) =~= none.push(' ') + tail);
    law_words_are_parted(none, ' ', tail);
    law_words_are_parted(a, ' ', end);
    law_words_are_parted(b, ' ', none);
    law_words_are_parted(a, ' ', b);
    let all = words_of(none) + (words_of(a) + (words_of(b) + words_of(none)));
    assert(all =~= seq![a, b]);
    assert(words_of(middle) =~= seq![a, b]);
    assert(middle =~= seq!['-'] + old + seq![' ', '+'] + new);
    let all_text = places(old, new);
    assert(all_text.drop_first() =~= middle.push(' '));
    assert(middle.push(' ')[0] == '-');
    assert(trim_start(middle.push(' ')) == middle.push(' '));
    assert(trim_start(all_text) == middle.push(' '));
    assert(middle.push(' ').drop_last() =~= middle);
    assert(middle.last() == b.last());
    assert(!is_white(b[b.len() - 1]));
    assert(trim_end(middle) == middle);
}

proof fn lemma_found_behind(s: Seq<char>, p: Seq<char>, from: int, k: int)
    requires
        0 <= from <= k,
        k + p.len() <= s.len(),
        p.len() > 0,
        occurs_at(s, p, k),
        forall|j: int| from <= j < k ==> #[trigger] s[j] != p[0],
    ensures
        find_from(s, p, from) == Some(k),
    decreases k - from,
{
    if from < k {
        assert(s[from] != p[0]);
        if occurs_at(s, p, from) {
            assert(s.subrange(from, from + p.len())[0] == s[from]);
        }
        lemma_found_behind(s, p, from + 1, k);
    }
}

proof fn lemma_header_parts(old: Seq<char>, new: Seq<char>, heading: Seq<char>)
    requires
        is_place(old),
        is_place(new),
    ensures
        split_at_text(header(old, new, heading), "@@"@).len() >= 2,
        split_at_text(header(old, new, heading), "@@"@)[1] == places(old, new),
{
    reveal_strlit("@@");
    let p = "@@"@;
    assert(p =~= seq!['@', '@']);
    let h = header(old, new, heading);
    let m = places(old, new);
    lemma_no_white(old);
    lemma_no_white(new);
    assert(h.subrange(0, 2) =~= p);
    assert(find_from(h, p, 0) == Some(0int));
    let k = 2 + m.len() as int;
    assert(h.subrange(k, k + 2) =~= p);
    assert forall|j: int| 2 <= j < k implies #[trigger] h[j] != p[0] by {
        assert(h[j] == m[j - 2]);
        lemma_places_plain(old, new, j - 2);
    }
    lemma_found_behind(h, p, 2, k);
    assert(h.subrange(2, k) =~= m);
    let rest = split_at_text_from(h, p, 2);
    assert(rest[0] == m);
    assert(split_at_text(h, p) =~= seq![h.subrange(0, 0)] + rest);
}

proof fn lemma_places_plain(old: Seq<char>, new: Seq<char>, j: int)
    requires
        is_place(old),
        is_place(new),
        0 <= j < places(old, new).len(),
    ensures
        places(old, new)[j] != '@',
        j < old.len() + 3 ==> places(old, new)[j] != '+',
{
    lemma_no_white(old);
    lemma_no_white(new);
    let m = places(old, new);
    let n = old.len() as int;
    if 2 <= j < 2 + n {
        assert(m[j] == old[j - 2]);
    } else if 4 + n <= j < 4 + n + new.len() {
        assert(m[j] == new[j - 4 - n]);
    }
}

/// The header of a hunk is read back, whatever git writes behind it: where its new lines start, how
/// many there are, and how many old ones; a number of lines that is not given is one.
pub proof fn law_header_is_read(a: nat, b: nat, c: nat, d: nat, heading: Seq<char>)
    requires
        a <= u32::MAX,
        b <= u32::MAX,
        c <= u32::MAX,
        d <= u32::MAX,
    ensures
        hunk_range_of(header(place(a, b), place(c, d), heading)) == Some((c, d)),
        announced(header(place(a, b), place(c, d), heading)) == (Left { old: b, new: d }),
        hunk_range_of(header(place(a, b), decimal(c), heading)) == Some((c, 1nat)),
        announced(header(place(a, b), decimal(c), heading)) == (Left { old: b, new: 1 }),
        hunk_range_of(header(decimal(a), place(c, d), heading)) == Some((c, d)),
        announced(header(decimal(a), place(c, d), heading)) == (Left { old: 1, new: d }),
        hunk_range_of(header(decimal(a), decimal(c), heading)) == Some((c, 1nat)),
        announced(header(decimal(a), decimal(c), heading)) == (Left { old: 1, new: 1 }),
{
    lemma_decimal_place(a, b);
    lemma_decimal_place(c, d);
    law_place_is_read(a, b);
    law_place_is_read(c, d);
    lemma_header(place(a, b), place(c, d), heading);
    lemma_header(place(a, b), decimal(c), heading);
    lemma_header(decimal(a), place(c, d), heading);
    lemma_header(decimal(a), decimal(c), heading);
}

proof fn lemma_header(old: Seq<char>, new: Seq<char>, heading: Seq<char>)
    requires
        is_place(old),
        is_place(new),
        start_and_count(old) is Some,
        start_and_count(new) is Some,
    ensures
        hunk_range_of(header(old, new, heading)) == start_and_count(new),
        announced(header(old, new, heading)) == (Left {
            old: start_and_count(old)->Some_0.1,
            new: start_and_count(new)->Some_0.1,
        }),
{
    lemma_header_parts(old, new, heading);
    lemma_words_of_places(old, new);
    let words = seq![seq!['-'] + old, seq!['+'] + new];
    assert(words[0][0] == '-');
    assert(words.drop_first() =~= seq![words[1]]);
    assert(words.drop_first()[0][0] == '+');
    assert(first_with_plus(words.drop_first()) == Some(words[1]));
    assert(first_with_plus(words) == Some(words[1]));
    assert(words[1].drop_first() =~= new);
    lemma_no_white(new);
    assert(new[0] != '+');
    assert(without_pluses(new) == new);
    assert(without_pluses(words[1]) == new);
    assert(words[0].skip(1) =~= old);
    assert(words[1].skip(1) =~= new);
}

proof fn lemma_last_signs(s: Seq<char>, p: Seq<char>, to: int, k: int)
    requires
        0 <= k < to,
        occurs_at(s, p, k),
        forall|j: int| k < j < to ==> !occurs_at(s, p, j),
    ensures
        rfind_before(s, p, to) == Some(k),
    decreases to - k,
{
    if to - 1 > k {
        assert(!occurs_at(s, p, to - 1));
        lemma_last_signs(s, p, to - 1, k);
    }
}

/// Where the new lines of a hunk start is read from between the last signs of its header, with the
/// number of lines and without.
pub proof fn law_start_is_read(old: Seq<char>, c: nat, d: nat, heading: Seq<char>)
    requires
        is_place(old),
        c <= u32::MAX,
        forall|i: int| 0 <= i < heading.len() ==> #[trigger] heading[i] != '@',
    ensures
        between_signs(header(old, place(c, d), heading)) == Some(places(old, place(c, d))),
        new_start(places(old, place(c, d))) == Some(c),
        between_signs(header(old, decimal(c), heading)) == Some(places(old, decimal(c))),
        new_start(places(old, decimal(c))) == Some(c),
{
    lemma_decimal_place(c, d);
    lemma_between(old, place(c, d), heading);
    lemma_between(old, decimal(c), heading);
    law_decimal_is_digits(c);
    law_decimal_is_read(c, u32::MAX as nat);
    lemma_no_white(old);
    lemma_no_white(decimal(c));
    let n = 3 + old.len() as int;
    let long = places(old, place(c, d));
    let short = places(old, decimal(c));
    assert(!decimal(c).contains(',')) by {
        if decimal(c).contains(',') {
            let i = decimal(c).index_of(',');
            assert(is_digit(decimal(c)[i]));
        }
    }
    assert forall|j: int| 0 <= j < n implies #[trigger] long[j] != '+' by {
        lemma_places_plain(old, place(c, d), j);
    }
    assert forall|j: int| 0 <= j < n implies #[trigger] short[j] != '+' by {
        lemma_places_plain(old, decimal(c), j);
    }
    let front = seq![' ', '-'] + old + seq![' '];
    assert(!front.contains('+')) by {
        if front.contains('+') {
            let i = front.index_of('+');
            assert(long[i] == front[i]);
        }
    }
    law_cut(front, '+', place(c, d).push(' '));
    law_cut(front, '+', decimal(c).push(' '));
    assert(long =~= front.push('+') + place(c, d).push(' '));
    assert(short =~= front.push('+') + decimal(c).push(' '));
    let count = decimal(d).push(' ');
    assert(place(c, d).push(' ') =~= decimal(c).push(',') + count);
    law_split_undoes_join(decimal(c), ',', count);
    law_pieces_some(count, ',');
    let rest = decimal(c).push(' ');
    assert(!rest.contains(',')) by {
        if rest.contains(',') {
            let i = rest.index_of(',');
            assert(i < decimal(c).len());
            assert(decimal(c)[i] == ',');
            assert(decimal(c).contains(','));
        }
    }
    law_split_undoes_join(rest, ',', Seq::empty());
    assert(split_at_char(rest, ',')[0] == rest);
    lemma_not_a_number(rest);
    reveal_strlit("@@");
    lemma_not_found(rest, "@@"@, 0);
    assert(split_at_text(rest, "@@"@)[0] =~= rest);
    assert(rest.drop_last() =~= decimal(c));
    assert(!is_white(decimal(c)[decimal(c).len() - 1]));
    assert(trim_end(decimal(c)) == decimal(c));
    assert(trim_end(rest) == decimal(c));
}

proof fn lemma_not_a_number(s: Seq<char>)
    requires
        s.len() > 1,
        is_digit(s[0]),
        s.last() == ' ',
    ensures
        parsed(s, u32::MAX as nat) is None,
{
    let last = s.len() - 1;
    assert(s[last] == ' ');
    assert(!is_digit(s[last]));
    if crate::text::all_digits(s) {
        assert(is_digit(s[last]));
    }
    if s[0] == '+' {
        assert(s.drop_first()[last - 1] == ' ');
    }
}

proof fn lemma_not_found(s: Seq<char>, p: Seq<char>, from: int)
    requires
        p.len() > 0,
        p[0] == '@',
        0 <= from,
        forall|i: int| 0 <= i < s.len() ==> #[trigger] s[i] != '@',
    ensures
        find_from(s, p, from) is None,
    decreases s.len() - from + 1,
{
    if from + p.len() <= s.len() {
        if occurs_at(s, p, from) {
            assert(s.subrange(from, from + p.len())[0] == s[from]);
        }
        lemma_not_found(s, p, from + 1);
    }
}

proof fn lemma_between(old: Seq<char>, new: Seq<char>, heading: Seq<char>)
    requires
        is_place(old),
        is_place(new),
        forall|i: int| 0 <= i < heading.len() ==> #[trigger] heading[i] != '@',
    ensures
        between_signs(header(old, new, heading)) == Some(places(old, new)),
{
    reveal_strlit("@@");
    let p = "@@"@;
    assert(p =~= seq!['@', '@']);
    let h = header(old, new, heading);
    let m = places(old, new);
    let k = 2 + m.len() as int;
    assert(h.subrange(k, k + 2) =~= p);
    assert forall|j: int| k < j < h.len() implies !occurs_at(h, p, j) by {
        if occurs_at(h, p, j) {
            assert(h.subrange(j, j + 2)[1] == h[j + 1]);
            assert(h[j + 1] == heading[j + 1 - k - 2]);
        }
    }
    lemma_last_signs(h, p, h.len() as int, k);
    assert(h.subrange(2, k) =~= m);
}

/// The line that names a file gives its path; a file that was deleted has none.
pub proof fn law_file_is_named(file: Option<Seq<char>>, path: Seq<char>)
    ensures
        file_after(file, "+++ b/"@ + path) == Some(path),
        file_after(file, "+++ /dev/null"@) is None,
        trimmed(path) == path && path.len() > 0 ==> named_file("+++ b/"@ + path) == path,
        named_file("+++ /dev/null"@).len() == 0,
{
    reveal_strlit("+++ b/");
    reveal_strlit("+++ /dev/null");
    reveal_strlit("+++");
    reveal_strlit("b/");
    let line = "+++ b/"@ + path;
    let gone = "+++ /dev/null"@;
    assert(line.subrange(0, 6) =~= "+++ b/"@);
    assert(line.skip(6) =~= path);
    assert(gone.subrange(0, gone.len() as int) =~= gone);
    assert(gone[4] == '/' && "+++ b/"@[4] == 'b');
    if has_prefix(gone, "+++ b/"@) {
        assert(gone.subrange(0, 6)[4] == gone[4]);
    }
    assert(line.subrange(0, 3) =~= "+++"@);
    assert(gone.subrange(0, 3) =~= "+++"@);
    let rest = line.skip(3);
    assert(rest =~= seq![' ', 'b', '/'] + path);
    assert(rest.drop_first() =~= seq!['b', '/'] + path);
    let named = seq!['b', '/'] + path;
    assert(named[0] == 'b');
    assert(trim_start(named) == named);
    assert(trim_start(rest) == named);
    if trimmed(path) == path && path.len() > 0 {
        crate::text::law_trimmed_ends(path);
        assert(named.last() == path.last());
        assert(trim_end(named) == named);
        assert(named.subrange(0, 2) =~= "b/"@);
        assert(named.skip(2) =~= path);
    }
    let other = gone.skip(3);
    assert(other.drop_first()[0] == '/');
    assert(trim_start(other.drop_first()) == other.drop_first());
    assert(trim_start(other) == other.drop_first());
    let t = other.drop_first();
    assert(t =~= seq!['/', 'd', 'e', 'v', '/', 'n', 'u', 'l', 'l']);
    assert(t.last() == 'l');
    assert(trim_end(t) == t);
    if has_prefix(t, "b/"@) {
        assert(t.subrange(0, 2)[0] == t[0]);
    }
}

/// A hunk counts for the file that was named last, and a line that names a file is told from the
/// lines of hunks.
pub proof fn law_hunk_is_of_the_file_named_last(
    text: Seq<Seq<char>>,
    i: int,
    path: Seq<char>,
    a: nat,
    b: nat,
    c: nat,
    d: nat,
    heading: Seq<char>,
)
    requires
        0 <= i < text.len(),
        line_in(left_at(text, i), text[i]) == DiffLine::Outside,
        a <= u32::MAX,
        b <= u32::MAX,
        c <= u32::MAX,
        d <= u32::MAX,
    ensures
        text[i] == header(place(a, b), place(c, d), heading) && file_at(text, i) == Some(path)
            ==> hunk_at(text, i) == Some((path, (c, d))) && file_at(text, i + 1) == Some(path),
        text[i] == "+++ b/"@ + path ==> file_at(text, i + 1) == Some(path),
        text[i] == "+++ /dev/null"@ ==> file_at(text, i + 1) is None,
{
    reveal_strlit("@@ ");
    reveal_strlit("+++ b/");
    reveal_strlit("+++ /dev/null");
    law_file_is_named(file_at(text, i), path);
    law_header_is_read(a, b, c, d, heading);
    let h = header(place(a, b), place(c, d), heading);
    assert(h.subrange(0, 3) =~= "@@ "@);
    assert(h[0] == '@');
    if has_prefix(h, "+++ b/"@) {
        assert(h.subrange(0, 6)[0] == h[0]);
    }
    if has_prefix(h, "+++ /dev/null"@) {
        assert(h.subrange(0, 13)[0] == h[0]);
    }
}

/// How the lines of a difference are counted, one after the other: a header says where its first
/// line is; a line that was added is one of its file's, at the place that was reached; a line that
/// was added or kept takes up one place, and a line that was deleted none.
pub proof fn law_lines_are_placed(all: Seq<Seq<char>>, k: int)
    requires
        0 <= k < all.len(),
    ensures
        ({
            let p = after_lines(all, k);
            let q = after_lines(all, k + 1);
            match role_at(all, k) {
                Role::Names => q.file == Some(named_file(all[k])) && q.next == 0 && q.added
                    == p.added,
                Role::Starts => q.file == p.file && q.added == p.added && (between_signs(all[k])
                    matches Some(inner) ==> (new_start(inner) matches Some(start) ==> q.next
                    == start)),
                Role::Adds => p.file matches Some(file) ==> {
                    &&& q.file == p.file
                    &&& q.next == p.next + 1
                    &&& added_to(q.added, file) == added_to(p.added, file).push(p.next as u32)
                    &&& forall|other: Seq<char>|
                        other != file ==> #[trigger] added_to(q.added, other) == added_to(
                            p.added,
                            other,
                        )
                },
                Role::Keeps => q.file == p.file && q.added == p.added && (p.file is Some ==> q.next
                    == p.next + 1),
                Role::Deletes => q == p,
                Role::Remarks => q == p,
                Role::Says => q == p,
            }
        }),
{
    let p = after_lines(all, k);
    reveal(after_line);
    assert(after_lines(all, k + 1) == after_line(
        after_lines(all, k + 1 - 1),
        left_at(all, k + 1 - 1),
        all[k + 1 - 1],
    ));
    if role_at(all, k) == Role::Adds {
        if let Some(file) = p.file {
            let value = added_to(p.added, file).push(p.next as u32);
            crate::assoc::lemma_with_value_found(p.added, file, value, file);
            assert forall|other: Seq<char>| other != file implies #[trigger] added_to(
                after_lines(all, k + 1).added,
                other,
            ) == added_to(p.added, other) by {
                crate::assoc::lemma_with_value_found(p.added, file, value, other);
            }
        }
    }
}

/// The lines of a hunk: a header that its lines follow opens it, with as many old and new lines as it
/// says; a line that was added takes up a new one, a line that was deleted an old one, a line that
/// was kept one of each, and a remark none.
pub proof fn law_hunk_lines_are_taken_up(text: Seq<Seq<char>>, i: int)
    requires
        0 <= i < text.len(),
    ensures
        ({
            let before = left_at(text, i);
            let after = left_at(text, i + 1);
            let open = before.old > 0 || before.new > 0;
            let line = text[i];
            &&& !open && has_prefix(line, "@@ "@) && follows(announced(line), text, i + 1)
                ==> after == announced(line)
            &&& !open && !has_prefix(line, "@@ "@) ==> after.old == 0 && after.new == 0
            &&& open && line.len() > 0 && line[0] == '+' ==> after.old == before.old && (before.new
                > 0 ==> after.new == before.new - 1)
            &&& open && line.len() > 0 && line[0] == '-' ==> after.new == before.new && (before.old
                > 0 ==> after.old == before.old - 1)
            &&& open && line.len() > 0 && line[0] == ' ' ==> (before.old > 0 ==> after.old
                == before.old - 1) && (before.new > 0 ==> after.new == before.new - 1)
            &&& open && line.len() > 0 && line[0] == '\\' ==> after == before
        }),
{
    assert(left_at(text, i + 1) == crate::git::diff::left_behind(
        left_at(text, i + 1 - 1),
        text,
        i + 1 - 1,
    ));
}

/// Outside of hunks, a line is told by how it starts.
pub proof fn law_lines_outside_of_hunks(line: Seq<char>)
    ensures
        ({
            let role = role_of(Left { old: 0, new: 0 }, line);
            let names = has_prefix(line, "+++"@);
            let starts = has_prefix(line, "@@"@);
            let says = has_prefix(line, "diff --git"@) || has_prefix(line, "index "@) || has_prefix(
                line,
                "---"@,
            );
            &&& names <==> role == Role::Names
            &&& starts <==> role == Role::Starts
            &&& says <==> role == Role::Says
            &&& line.len() > 0 && line[0] == '+' && !names <==> role == Role::Adds
            &&& line.len() > 0 && line[0] == '-' && !says <==> role == Role::Deletes
            &&& line.len() > 0 && line[0] == '\\' <==> role == Role::Remarks
        }),
{
    reveal(role_of);
    reveal_strlit("+++");
    reveal_strlit("@@");
    reveal_strlit("diff --git");
    reveal_strlit("index ");
    reveal_strlit("---");
    reveal_strlit("+");
    reveal_strlit("-");
    reveal_strlit("\\");
    lemma_starts(line, "+++"@);
    lemma_starts(line, "@@"@);
    lemma_starts(line, "diff --git"@);
    lemma_starts(line, "index "@);
    lemma_starts(line, "---"@);
    lemma_starts(line, "+"@);
    lemma_starts(line, "-"@);
    lemma_starts(line, "\\"@);
    assert("+"@ =~= seq!['+']);
    assert("-"@ =~= seq!['-']);
    assert("\\"@ =~= seq!['\\']);
}

proof fn lemma_starts(line: Seq<char>, p: Seq<char>)
    requires
        p.len() > 0,
    ensures
        has_prefix(line, p) ==> line.len() > 0 && line[0] == p[0],
        p.len() == 1 ==> (has_prefix(line, p) <==> line.len() > 0 && line[0] == p[0]),
{
    if has_prefix(line, p) {
        assert(line.subrange(0, p.len() as int)[0] == line[0]);
    }
    if p.len() == 1 && line.len() > 0 && line[0] == p[0] {
        assert(line.subrange(0, 1) =~= p);
    }
}

/// A header's lines follow it where each takes up one of what it says, until nothing is left; they
/// do not where the text ends before, where a line takes up what is not left, or where one is none
/// of a hunk's.
pub proof fn law_lines_follow_their_header(left: Left, text: Seq<Seq<char>>, i: int)
    requires
        0 <= i <= text.len(),
    ensures
        left.old == 0 && left.new == 0 ==> follows(left, text, i),
        (left.old > 0 || left.new > 0) && i == text.len() ==> !follows(left, text, i),
        i < text.len() && text[i].len() > 0 && (left.old > 0 || left.new > 0) ==> follows(left, text, i)
            == (match text[i][0] {
            '+' => left.new > 0 && follows(
                Left { old: left.old, new: (left.new - 1) as nat },
                text,
                i + 1,
            ),
            '-' => left.old > 0 && follows(
                Left { old: (left.old - 1) as nat, new: left.new },
                text,
                i + 1,
            ),
            ' ' => left.old > 0 && left.new > 0 && follows(
                Left { old: (left.old - 1) as nat, new: (left.new - 1) as nat },
                text,
                i + 1,
            ),
            '\\' => follows(left, text, i + 1),
            _ => false,
        }),
{
}

/// A place is none where its start is no number, or where something follows a comma that is none.
pub proof fn law_other_places_are_none(start: Seq<char>, rest: Seq<char>)
    requires
        !start.contains(','),
        !rest.contains(','),
    ensures
        parsed(start, u32::MAX as nat) is None ==> start_and_count(start) is None && start_and_count(
            start.push(',') + rest,
        ) is None,
        parsed(rest, u32::MAX as nat) is None ==> start_and_count(start.push(',') + rest) is None,
{
    law_split_undoes_join(start, ',', rest);
    law_split_undoes_join(rest, ',', Seq::empty());
}

/// What can be read of a difference: nothing stands against it but a header without its second
/// signs, and lines with greater numbers than there are.
pub proof fn law_what_can_be_read(
    text: Seq<Seq<char>>,
    line: Seq<char>,
    p: Progress,
    left: Left,
)
    ensures
        diff_fits(text) <==> forall|i: int|
            0 <= i < text.len() ==> (#[trigger] hunk_at(text, i) matches Some((_, (start, count)))
                ==> start + count <= 0xffff_ffff),
        hunk_fits(line) <==> (hunk_range_of(line) matches Some((start, count)) ==> start + count
            <= 0xffff_ffff),
        unreadable(p, left, line) <==> role_of(left, line) == Role::Starts && between_signs(line)
            is None || (role_of(left, line) == Role::Adds || role_of(left, line) == Role::Keeps)
            && p.file is Some && p.next >= 0xffff_ffff,
{
    reveal(unreadable);
    if diff_fits(text) {
        assert forall|i: int| 0 <= i < text.len() implies (#[trigger] hunk_at(text, i) matches Some(
            (_, (start, count)),
        ) ==> start + count <= 0xffff_ffff) by {
            assert(fits_u32(hunk_at(text, i)));
        }
    }
}

} // verus!
