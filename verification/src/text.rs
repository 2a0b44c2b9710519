//! Text as sequences of characters: the splitting, trimming, number reading and padding that the
//! rest of the library needs, each with a definition over `Seq<char>`.
use vstd::prelude::*;
use vstd::utf8::{decode_utf8, valid_utf8};

verus! {

broadcast use vstd::seq::group_seq_axioms;

/// `String::push` appends one character to the end of a string.
pub assume_specification[ String::push ](s: &mut String, c: char)
    ensures
        final(s)@ == old(s)@.push(c),
;

// ---------------------------------------------------------------------------------------------
// Characters
// ---------------------------------------------------------------------------------------------
/// The characters with Unicode's `White_Space` property.
pub open spec fn is_white(c: char) -> bool {
    ||| 0x09 <= c as u32 <= 0x0D
    ||| c as u32 == 0x20
    ||| c as u32 == 0x85
    ||| c as u32 == 0xA0
    ||| c as u32 == 0x1680
    ||| 0x2000 <= c as u32 <= 0x200A
    ||| c as u32 == 0x2028
    ||| c as u32 == 0x2029
    ||| c as u32 == 0x202F
    ||| c as u32 == 0x205F
    ||| c as u32 == 0x3000
}

/// Says whether `c` is white space.
pub fn is_whitespace(c: char) -> (r: bool)
    ensures
        r == is_white(c),
{
    let u: u32 = c as u32;
    (0x09 <= u && u <= 0x0D) || u == 0x20 || u == 0x85 || u == 0xA0 || u == 0x1680 || (0x2000 <= u
        && u <= 0x200A) || u == 0x2028 || u == 0x2029 || u == 0x202F || u == 0x205F || u == 0x3000
}

/// The code of a character.
fn code(c: char) -> (r: u32)
    ensures
        r == c as int,
        r == c as u32,
{
    c as u32
}

pub open spec fn is_digit(c: char) -> bool {
    0x30 <= c as u32 <= 0x39
}

/// Says whether `c` is a digit.
pub fn is_ascii_digit(c: char) -> (r: bool)
    ensures
        r == is_digit(c),
{
    let u: u32 = code(c);
    0x30 <= u && u <= 0x39
}

/// The number that a digit stands for.
pub open spec fn digit_value(c: char) -> nat {
    (c as u32 - 0x30) as nat
}

/// The digit that stands for `d`.
pub open spec fn digit(d: nat) -> char {
    if d == 0 {
        '0'
    } else if d == 1 {
        '1'
    } else if d == 2 {
        '2'
    } else if d == 3 {
        '3'
    } else if d == 4 {
        '4'
    } else if d == 5 {
        '5'
    } else if d == 6 {
        '6'
    } else if d == 7 {
        '7'
    } else if d == 8 {
        '8'
    } else {
        '9'
    }
}

fn digit_char(d: u128) -> (c: char)
    requires
        d < 10,
    ensures
        c == digit(d as nat),
{
    if d == 0 {
        '0'
    } else if d == 1 {
        '1'
    } else if d == 2 {
        '2'
    } else if d == 3 {
        '3'
    } else if d == 4 {
        '4'
    } else if d == 5 {
        '5'
    } else if d == 6 {
        '6'
    } else if d == 7 {
        '7'
    } else if d == 8 {
        '8'
    } else {
        '9'
    }
}

// ---------------------------------------------------------------------------------------------
// Moving between strings and characters
// ---------------------------------------------------------------------------------------------
/// The characters of a string.
pub fn chars(s: &str) -> (r: Vec<char>)
    ensures
        r@ == s@,
{
    let mut out: Vec<char> = Vec::new();
    for c in it: s.chars()
        invariant
            it.seq() == s@,
            out@ == s@.take(it.index()),
    {
        out.push(c);
        assert(s@.take(it.index() + 1) =~= s@.take(it.index()).push(c));
    }
    assert(s@.take(s@.len() as int) =~= s@);
    out
}

/// The string made of the characters `v[from]` up to, and without, `v[to]`.
pub fn slice_text(v: &Vec<char>, from: usize, to: usize) -> (r: String)
    requires
        from <= to <= v@.len(),
    ensures
        r@ == v@.subrange(from as int, to as int),
{
    let mut out = String::new();
    let mut i: usize = from;
    while i < to
        invariant
            from <= i <= to <= v@.len(),
            out@ =~= v@.subrange(from as int, i as int),
        decreases to - i,
    {
        out.push(v[i]);
        assert(v@.subrange(from as int, i + 1) =~= v@.subrange(from as int, i as int).push(
            v@[i as int],
        ));
        i = i + 1;
    }
    out
}

/// Says whether two strings hold the same characters.
pub fn same(a: &str, b: &str) -> (r: bool)
    ensures
        r == (a@ == b@),
{
    let x = a.to_string();
    let y = b.to_string();
    x == y
}

/// Two strings, one after the other.
pub fn join2(a: &str, b: &str) -> (r: String)
    ensures
        r@ == a@ + b@,
{
    let mut out = a.to_string();
    out.append(b);
    out
}

/// Three strings, one after the other.
pub fn join3(a: &str, b: &str, c: &str) -> (r: String)
    ensures
        r@ == a@ + b@ + c@,
{
    let mut out = join2(a, b);
    out.append(c);
    out
}

/// `part`, `n` times over.
pub open spec fn repeated(part: Seq<char>, n: nat) -> Seq<char>
    decreases n,
{
    if n == 0 {
        Seq::empty()
    } else {
        repeated(part, (n - 1) as nat) + part
    }
}

/// `part`, `n` times over.
pub fn repeat(part: &str, n: usize) -> (r: String)
    ensures
        r@ == repeated(part@, n as nat),
{
    let mut out = String::new();
    let mut i: usize = 0;
    while i < n
        invariant
            i <= n,
            out@ == repeated(part@, i as nat),
        decreases n - i,
    {
        out.append(part);
        i = i + 1;
    }
    out
}

/// Reading bytes as UTF-8: the text that they encode, or nothing where they encode none.
pub open spec fn utf8_text(bytes: Seq<u8>) -> Option<Seq<char>> {
    if valid_utf8(bytes) {
        Some(decode_utf8(bytes))
    } else {
        None
    }
}

/// `String::from_utf8` succeeds on well-formed UTF-8, and then holds the encoded characters; on
/// other bytes it fails.
#[verifier::external_body]
pub(crate) fn from_utf8(bytes: &Vec<u8>) -> (r: Option<String>)
    ensures
        match r {
            Some(s) => utf8_text(bytes@) == Some(s@),
            None => utf8_text(bytes@) is None,
        },
{
    String::from_utf8(bytes.to_vec()).ok()
}

/// The text that `String::from_utf8_lossy` makes of some bytes.
pub uninterp spec fn utf8_lossy(bytes: Seq<u8>) -> Seq<char>;

/// `String::from_utf8_lossy` turns any bytes into text: well-formed UTF-8 into the characters that
/// it encodes, and what is not well-formed into replacement characters.
#[verifier::external_body]
pub(crate) fn from_utf8_lossy(bytes: &[u8]) -> (r: String)
    ensures
        r@ == utf8_lossy(bytes@),
        valid_utf8(bytes@) ==> r@ == decode_utf8(bytes@),
{
    String::from_utf8_lossy(bytes).to_string()
}

// ---------------------------------------------------------------------------------------------
// Searching
// ---------------------------------------------------------------------------------------------
/// `p` stands in `s` at place `k`.
pub open spec fn occurs_at(s: Seq<char>, p: Seq<char>, k: int) -> bool {
    0 <= k && k + p.len() <= s.len() && s.subrange(k, k + p.len()) == p
}

pub open spec fn has_prefix(s: Seq<char>, p: Seq<char>) -> bool {
    occurs_at(s, p, 0)
}

fn occurs(v: &Vec<char>, p: &Vec<char>, k: usize) -> (r: bool)
    ensures
        r == occurs_at(v@, p@, k as int),
{
    if k > v.len() || v.len() - k < p.len() {
        return false;
    }
    let n: usize = v.len();
    let mut i: usize = 0;
    while i < p.len()
        invariant
            i <= p@.len(),
            n == v@.len(),
            k + p@.len() <= n,
            forall|j: int| 0 <= j < i ==> v@[k + j] == p@[j],
        decreases p@.len() - i,
    {
        if v[k + i] != p[i] {
            assert(v@.subrange(k as int, k + p@.len())[i as int] != p@[i as int]);
            return false;
        }
        i = i + 1;
    }
    assert(v@.subrange(k as int, k + p@.len()) =~= p@);
    true
}

/// Says whether `s` begins with `p`.
pub fn starts_with(s: &str, p: &str) -> (r: bool)
    ensures
        r == has_prefix(s@, p@),
{
    let v = chars(s);
    let q = chars(p);
    occurs(&v, &q, 0)
}

/// What follows `p` in `s`, where `s` begins with `p`.
pub open spec fn after_prefix(s: Seq<char>, p: Seq<char>) -> Option<Seq<char>> {
    if has_prefix(s, p) {
        Some(s.skip(p.len() as int))
    } else {
        None
    }
}

/// What follows `p` in `s`, where `s` begins with `p`.
pub fn strip_prefix(s: &str, p: &str) -> (r: Option<String>)
    ensures
        r.deep_view() == after_prefix(s@, p@),
{
    let v = chars(s);
    let q = chars(p);
    if occurs(&v, &q, 0) {
        let rest = slice_text(&v, q.len(), v.len());
        assert(rest@ =~= s@.skip(p@.len() as int));
        Some(rest)
    } else {
        None
    }
}

/// The first place at or after `from` at which `p` stands in `s`.
pub open spec fn find_from(s: Seq<char>, p: Seq<char>, from: int) -> Option<int>
    decreases s.len() - from + 1,
{
    if from < 0 || from + p.len() > s.len() {
        None
    } else if occurs_at(s, p, from) {
        Some(from)
    } else {
        find_from(s, p, from + 1)
    }
}

fn find_chars(v: &Vec<char>, p: &Vec<char>, from: usize) -> (r: Option<usize>)
    requires
        from <= v@.len(),
    ensures
        match r {
            Some(k) => find_from(v@, p@, from as int) == Some(k as int) && occurs_at(
                v@,
                p@,
                k as int,
            ) && from <= k,
            None => find_from(v@, p@, from as int) is None,
        },
{
    let mut k: usize = from;
    while k <= v.len()
        invariant
            from <= k <= v@.len() + 1,
            find_from(v@, p@, from as int) == find_from(v@, p@, k as int),
        decreases v@.len() + 1 - k,
    {
        if v.len() - k < p.len() {
            return None;
        }
        if occurs(v, p, k) {
            return Some(k);
        }
        if k == v.len() {
            assert(find_from(v@, p@, k + 1) is None);
            return None;
        }
        k = k + 1;
    }
    None
}

/// The last place, before `to`, at which `p` stands in `s`.
pub open spec fn rfind_before(s: Seq<char>, p: Seq<char>, to: int) -> Option<int>
    decreases to,
{
    if to <= 0 {
        None
    } else if occurs_at(s, p, to - 1) {
        Some(to - 1)
    } else {
        rfind_before(s, p, to - 1)
    }
}

/// The last place at which `p` stands in `s`.
pub fn rfind(s: &str, p: &str) -> (r: Option<usize>)
    ensures
        match r {
            Some(k) => rfind_before(s@, p@, s@.len() as int) == Some(k as int) && occurs_at(
                s@,
                p@,
                k as int,
            ),
            None => rfind_before(s@, p@, s@.len() as int) is None,
        },
{
    let v = chars(s);
    let q = chars(p);
    let mut k: usize = v.len();
    while k > 0
        invariant
            k <= v@.len(),
            v@ == s@,
            q@ == p@,
            rfind_before(s@, p@, s@.len() as int) == rfind_before(s@, p@, k as int),
        decreases k,
    {
        if occurs(&v, &q, k - 1) {
            return Some(k - 1);
        }
        k = k - 1;
    }
    None
}

/// Says whether `p` stands anywhere in `s`.
pub fn contains(s: &str, p: &str) -> (r: bool)
    ensures
        r == (find_from(s@, p@, 0) is Some),
{
    let v = chars(s);
    let q = chars(p);
    find_chars(&v, &q, 0).is_some()
}

// ---------------------------------------------------------------------------------------------
// Splitting
// ---------------------------------------------------------------------------------------------
/// The pieces of `s` between the characters that `at` marks. There is one piece more than there
/// are marked characters.
pub open spec fn pieces(s: Seq<char>, at: spec_fn(char) -> bool) -> Seq<Seq<char>>
    decreases s.len(),
{
    if s.len() == 0 {
        seq![Seq::<char>::empty()]
    } else {
        let before = pieces(s.drop_last(), at);
        if at(s.last()) {
            before.push(Seq::empty())
        } else {
            before.drop_last().push(before.last().push(s.last()))
        }
    }
}

/// Marks `c`.
pub open spec fn marks(c: char) -> spec_fn(char) -> bool {
    |x: char| x == c
}

/// The pieces of `s` between occurrences of `c`.
pub open spec fn split_at_char(s: Seq<char>, c: char) -> Seq<Seq<char>> {
    pieces(s, marks(c))
}

/// The pieces of `s` between occurrences of `c`.
pub fn split_char(s: &str, c: char) -> (r: Vec<String>)
    ensures
        r.deep_view() == split_at_char(s@, c),
        r@.len() > 0,
{
    let v = chars(s);
    let mut out: Vec<String> = Vec::new();
    let mut cur = String::new();
    let mut i: usize = 0;
    assert(out.deep_view().push(cur@) =~= split_at_char(s@.take(0), c));
    while i < v.len()
        invariant
            i <= v@.len(),
            v@ == s@,
            out.deep_view().push(cur@) == split_at_char(s@.take(i as int), c),
        decreases v@.len() - i,
    {
        let ghost before = out.deep_view().push(cur@);
        let x: char = v[i];
        assert(s@.take(i + 1).drop_last() =~= s@.take(i as int));
        assert(before.drop_last() =~= out.deep_view());
        if x == c {
            let ghost old_out = out.deep_view();
            out.push(cur);
            cur = String::new();
            assert(out.deep_view() =~= before);
        } else {
            cur.push(x);
        }
        i = i + 1;
    }
    assert(s@.take(s@.len() as int) =~= s@);
    let ghost before = out.deep_view().push(cur@);
    out.push(cur);
    assert(out.deep_view() =~= before);
    out
}

/// `piece` without a carriage return at its end.
pub open spec fn without_cr(piece: Seq<char>) -> Seq<char> {
    if piece.len() > 0 && piece.last() == '\r' {
        piece.drop_last()
    } else {
        piece
    }
}

/// The lines of `s`: what stands before each line feed, without a carriage return before it, and
/// what stands after the last line feed, if that is anything.
pub open spec fn lines_of(s: Seq<char>) -> Seq<Seq<char>> {
    let parts = split_at_char(s, '\n');
    let ended = parts.drop_last().map_values(|p: Seq<char>| without_cr(p));
    if parts.last().len() == 0 {
        ended
    } else {
        ended.push(parts.last())
    }
}

/// The lines of `s`.
pub fn lines(s: &str) -> (r: Vec<String>)
    ensures
        r.deep_view() == lines_of(s@),
{
    let parts = split_char(s, '\n');
    let ghost all = split_at_char(s@, '\n');
    let n: usize = parts.len() - 1;
    let mut out: Vec<String> = Vec::new();
    let mut i: usize = 0;
    while i < n
        invariant
            i <= n,
            n == all.len() - 1,
            parts.deep_view() == all,
            out.deep_view() =~= all.take(i as int).map_values(|p: Seq<char>| without_cr(p)),
        decreases n - i,
    {
        let p = chars(parts[i].as_str());
        assert(p@ == all[i as int]);
        if p.len() > 0 && p[p.len() - 1] == '\r' {
            let cut = slice_text(&p, 0, p.len() - 1);
            assert(cut@ =~= p@.drop_last());
            out.push(cut);
        } else {
            out.push(parts[i].clone());
        }
        assert(out.deep_view().last() == without_cr(all[i as int]));
        assert(all.take(i + 1).map_values(|q: Seq<char>| without_cr(q)) =~= all.take(
            i as int,
        ).map_values(|q: Seq<char>| without_cr(q)).push(without_cr(all[i as int])));
        i = i + 1;
    }
    assert(all.take(n as int) =~= all.drop_last());
    assert(parts.deep_view()[n as int] == all.last());
    if !parts[n].as_str().is_empty() {
        let ghost before = out.deep_view();
        out.push(parts[n].clone());
        assert(out.deep_view() =~= before.push(all.last()));
    }
    out
}

/// The members of `parts` that are not empty, in order.
pub open spec fn non_empty(parts: Seq<Seq<char>>) -> Seq<Seq<char>>
    decreases parts.len(),
{
    if parts.len() == 0 {
        Seq::empty()
    } else if parts.last().len() == 0 {
        non_empty(parts.drop_last())
    } else {
        non_empty(parts.drop_last()).push(parts.last())
    }
}

/// The words of `s`: its pieces between white space, without the empty ones.
pub open spec fn words_of(s: Seq<char>) -> Seq<Seq<char>> {
    non_empty(pieces(s, |x: char| is_white(x)))
}

/// The words of `s`.
pub fn split_whitespace(s: &str) -> (r: Vec<String>)
    ensures
        r.deep_view() == words_of(s@),
{
    let v = chars(s);
    let ghost white = |x: char| is_white(x);
    let mut out: Vec<String> = Vec::new();
    let mut cur = String::new();
    let ghost mut done: Seq<Seq<char>> = Seq::empty();
    let mut i: usize = 0;
    assert(done.push(cur@) =~= pieces(s@.take(0), white));
    while i < v.len()
        invariant
            i <= v@.len(),
            v@ == s@,
            white == (|x: char| is_white(x)),
            out.deep_view() =~= non_empty(done),
            done.push(cur@) == pieces(s@.take(i as int), white),
        decreases v@.len() - i,
    {
        let x: char = v[i];
        let ghost before = done.push(cur@);
        assert(s@.take(i + 1).drop_last() =~= s@.take(i as int));
        assert(before.drop_last() =~= done);
        if is_whitespace(x) {
            proof {
                done = before;
            }
            if !cur.as_str().is_empty() {
                out.push(cur);
            }
            cur = String::new();
        } else {
            cur.push(x);
        }
        i = i + 1;
    }
    assert(s@.take(s@.len() as int) =~= s@);
    let ghost before = done.push(cur@);
    assert(before.drop_last() =~= done);
    if !cur.as_str().is_empty() {
        out.push(cur);
    }
    out
}

/// The pieces of `s` between occurrences of `p`, looked for from place `from` on: each occurrence
/// is looked for behind the end of the one before.
pub open spec fn split_at_text_from(s: Seq<char>, p: Seq<char>, from: int) -> Seq<Seq<char>>
    decreases s.len() - from,
{
    match find_from(s, p, from) {
        Some(k) => if from <= k && k + p.len() <= s.len() && p.len() > 0 {
            seq![s.subrange(from, k)] + split_at_text_from(s, p, (k + p.len()) as int)
        } else {
            seq![s.skip(from)]
        },
        None => seq![s.skip(from)],
    }
}

/// The pieces of `s` between occurrences of `p`.
pub open spec fn split_at_text(s: Seq<char>, p: Seq<char>) -> Seq<Seq<char>> {
    split_at_text_from(s, p, 0)
}

/// The pieces of `s` between occurrences of `p`.
pub fn split_text(s: &str, p: &str) -> (r: Vec<String>)
    requires
        p@.len() > 0,
    ensures
        r.deep_view() == split_at_text(s@, p@),
        r@.len() > 0,
{
    let v = chars(s);
    let q = chars(p);
    let n: usize = v.len();
    let mut out: Vec<String> = Vec::new();
    let mut from: usize = 0;
    assert(out.deep_view() + split_at_text_from(s@, p@, 0) =~= split_at_text(s@, p@));
    loop
        invariant
            from <= v@.len(),
            n == v@.len(),
            v@ == s@,
            q@ == p@,
            p@.len() > 0,
            out.deep_view() + split_at_text_from(s@, p@, from as int) == split_at_text(s@, p@),
        decreases v@.len() - from,
    {
        let ghost before = out.deep_view();
        match find_chars(&v, &q, from) {
            Some(k) => {
                let piece = slice_text(&v, from, k);
                out.push(piece);
                let next: usize = k + q.len();
                assert(out.deep_view() =~= before.push(piece@));
                assert(out.deep_view() + split_at_text_from(s@, p@, next as int) =~= before + (
                seq![piece@] + split_at_text_from(s@, p@, next as int)));
                from = next;
            },
            None => {
                let piece = slice_text(&v, from, v.len());
                assert(piece@ =~= s@.skip(from as int));
                out.push(piece);
                assert(out.deep_view() =~= before + seq![piece@]);
                return out;
            },
        }
    }
}

/// What stands before and after the first `c` of `s`.
pub open spec fn cut_at(s: Seq<char>, c: char) -> Option<(Seq<char>, Seq<char>)>
    decreases s.len(),
{
    if s.len() == 0 {
        None
    } else if s[0] == c {
        Some((Seq::empty(), s.drop_first()))
    } else {
        match cut_at(s.drop_first(), c) {
            Some((a, b)) => Some((seq![s[0]] + a, b)),
            None => None,
        }
    }
}

proof fn lemma_cut_at(s: Seq<char>, c: char, k: int)
    requires
        0 <= k < s.len(),
        s[k] == c,
        forall|j: int| 0 <= j < k ==> s[j] != c,
    ensures
        cut_at(s, c) == Some((s.take(k), s.skip(k + 1))),
    decreases k,
{
    if k == 0 {
        assert(s.take(0) =~= Seq::empty());
        assert(s.skip(1) =~= s.drop_first());
    } else {
        let t = s.drop_first();
        lemma_cut_at(t, c, k - 1);
        assert(seq![s[0]] + t.take(k - 1) =~= s.take(k));
        assert(t.skip(k) =~= s.skip(k + 1));
    }
}

proof fn lemma_cut_at_none(s: Seq<char>, c: char)
    requires
        !s.contains(c),
    ensures
        cut_at(s, c) is None,
    decreases s.len(),
{
    if s.len() > 0 {
        assert(s[0] != c) by {
            assert(s.contains(s[0]));
        }
        assert forall|x: char| s.drop_first().contains(x) implies s.contains(x) by {
            let i = choose|i: int| 0 <= i < s.drop_first().len() && s.drop_first()[i] == x;
            assert(s[i + 1] == x);
        }
        lemma_cut_at_none(s.drop_first(), c);
    }
}

/// What stands before and after the first `c` of `s`.
pub fn split_once(s: &str, c: char) -> (r: Option<(String, String)>)
    ensures
        r.deep_view() == cut_at(s@, c),
{
    let v = chars(s);
    let mut i: usize = 0;
    while i < v.len()
        invariant
            i <= v@.len(),
            v@ == s@,
            forall|j: int| 0 <= j < i ==> v@[j] != c,
        decreases v@.len() - i,
    {
        if v[i] == c {
            let a = slice_text(&v, 0, i);
            let b = slice_text(&v, i + 1, v.len());
            proof {
                lemma_cut_at(s@, c, i as int);
            }
            assert(a@ =~= s@.take(i as int));
            assert(b@ =~= s@.skip(i + 1));
            return Some((a, b));
        }
        i = i + 1;
    }
    proof {
        lemma_cut_at_none(s@, c);
    }
    None
}

// ---------------------------------------------------------------------------------------------
// Trimming
// ---------------------------------------------------------------------------------------------
/// `s` without the white space at its start.
pub open spec fn trim_start(s: Seq<char>) -> Seq<char>
    decreases s.len(),
{
    if s.len() > 0 && is_white(s[0]) {
        trim_start(s.drop_first())
    } else {
        s
    }
}

/// `s` without the white space at its end.
pub open spec fn trim_end(s: Seq<char>) -> Seq<char>
    decreases s.len(),
{
    if s.len() > 0 && is_white(s.last()) {
        trim_end(s.drop_last())
    } else {
        s
    }
}

/// `s` without the white space at its two ends.
pub open spec fn trimmed(s: Seq<char>) -> Seq<char> {
    trim_end(trim_start(s))
}

/// `s` without the white space at its end.
pub fn trim_right(s: &str) -> (r: String)
    ensures
        r@ == trim_end(s@),
{
    let v = chars(s);
    let mut to: usize = v.len();
    assert(s@.take(to as int) =~= s@);
    while to > 0 && is_whitespace(v[to - 1])
        invariant
            to <= v@.len(),
            v@ == s@,
            trim_end(s@) == trim_end(s@.take(to as int)),
        decreases to,
    {
        assert(s@.take(to as int).drop_last() =~= s@.take(to - 1));
        to = to - 1;
    }
    let r = slice_text(&v, 0, to);
    assert(r@ =~= s@.take(to as int));
    r
}

/// `s` without the white space at its two ends.
pub fn trim(s: &str) -> (r: String)
    ensures
        r@ == trimmed(s@),
{
    let v = chars(s);
    let mut from: usize = 0;
    assert(s@.skip(0) =~= s@);
    while from < v.len() && is_whitespace(v[from])
        invariant
            from <= v@.len(),
            v@ == s@,
            trim_start(s@) == trim_start(s@.skip(from as int)),
        decreases v@.len() - from,
    {
        assert(s@.skip(from as int).drop_first() =~= s@.skip(from + 1));
        from = from + 1;
    }
    let rest = slice_text(&v, from, v.len());
    assert(rest@ =~= s@.skip(from as int));
    trim_right(rest.as_str())
}

/// Says whether `s` holds nothing but white space.
pub fn is_blank(s: &str) -> (r: bool)
    ensures
        r == (trimmed(s@).len() == 0),
{
    let t = trim(s);
    t.as_str().is_empty()
}

// ---------------------------------------------------------------------------------------------
// Numbers
// ---------------------------------------------------------------------------------------------
/// The number that a run of digits stands for.
pub open spec fn digits_value(s: Seq<char>) -> nat
    decreases s.len(),
{
    if s.len() == 0 {
        0
    } else {
        digits_value(s.drop_last()) * 10 + digit_value(s.last())
    }
}

pub open spec fn all_digits(s: Seq<char>) -> bool {
    forall|i: int| 0 <= i < s.len() ==> is_digit(#[trigger] s[i])
}

/// Reading an unsigned number of at most `max`: digits, with or without one plus sign before them.
pub open spec fn parsed(s: Seq<char>, max: nat) -> Option<nat> {
    let d = if s.len() > 0 && s[0] == '+' {
        s.drop_first()
    } else {
        s
    };
    if d.len() > 0 && all_digits(d) && digits_value(d) <= max {
        Some(digits_value(d))
    } else {
        None
    }
}

proof fn lemma_digits_value_grows(s: Seq<char>, k: int)
    requires
        0 <= k <= s.len(),
    ensures
        digits_value(s.take(k)) <= digits_value(s),
    decreases s.len() - k,
{
    if k < s.len() {
        assert(s.take(k + 1).drop_last() =~= s.take(k));
        lemma_digits_value_grows(s, k + 1);
    } else {
        assert(s.take(k) =~= s);
    }
}

/// Reads an unsigned number of at most `max`.
pub fn parse_number(s: &str, max: u64) -> (r: Option<u64>)
    ensures
        match r {
            Some(n) => parsed(s@, max as nat) == Some(n as nat) && n <= max,
            None => parsed(s@, max as nat) is None,
        },
{
    let v = chars(s);
    let start: usize = if v.len() > 0 && v[0] == '+' {
        1
    } else {
        0
    };
    let ghost d = if s@.len() > 0 && s@[0] == '+' {
        s@.drop_first()
    } else {
        s@
    };
    assert(d =~= v@.skip(start as int));
    if v.len() == start {
        return None;
    }
    let mut value: u64 = 0;
    let mut i: usize = start;
    assert(d.take(0) =~= Seq::empty());
    while i < v.len()
        invariant
            start <= i <= v@.len(),
            d == v@.skip(start as int),
            value == digits_value(d.take(i - start)),
            value <= max,
            forall|j: int| 0 <= j < i - start ==> is_digit(#[trigger] d[j]),
            v@ == s@,
            d.len() > 0,
            d == (if s@.len() > 0 && s@[0] == '+' {
                s@.drop_first()
            } else {
                s@
            }),
        decreases v@.len() - i,
    {
        let c: char = v[i];
        assert(d[i - start] == c);
        let u: u32 = code(c);
        if u < 0x30 || u > 0x39 {
            assert(!is_digit(d[i - start]));
            return None;
        }
        let x: u64 = (u - 0x30) as u64;
        assert(d.take(i + 1 - start).drop_last() =~= d.take(i - start));
        assert(digits_value(d.take(i + 1 - start)) == value * 10 + x);
        if x > max || value > max / 10 || value * 10 > max - x {
            assert(value * 10 + x > max);
            proof {
                lemma_digits_value_grows(d, i + 1 - start);
            }
            return None;
        }
        value = value * 10 + x;
        i = i + 1;
    }
    assert(d.take(d.len() as int) =~= d);
    Some(value)
}

/// Reads a `u32`.
pub fn parse_u32(s: &str) -> (r: Option<u32>)
    ensures
        match r {
            Some(n) => parsed(s@, u32::MAX as nat) == Some(n as nat),
            None => parsed(s@, u32::MAX as nat) is None,
        },
{
    match parse_number(s, u32::MAX as u64) {
        Some(n) => Some(n as u32),
        None => None,
    }
}

/// The decimal digits of `n`.
pub open spec fn decimal(n: nat) -> Seq<char>
    decreases n,
{
    if n < 10 {
        seq![digit(n)]
    } else {
        decimal(n / 10).push(digit(n % 10))
    }
}

/// The decimal digits of `n`.
pub fn decimal_text(n: u128) -> (r: String)
    ensures
        r@ == decimal(n as nat),
    decreases n,
{
    if n < 10 {
        let mut out = String::new();
        out.push(digit_char(n));
        assert(out@ =~= seq![digit(n as nat)]);
        out
    } else {
        let mut out = decimal_text(n / 10);
        out.push(digit_char(n % 10));
        out
    }
}

/// A signed number in decimal, with a minus sign before a negative one.
pub open spec fn signed_decimal(n: int) -> Seq<char> {
    if n < 0 {
        seq!['-'] + decimal((-n) as nat)
    } else {
        decimal(n as nat)
    }
}

/// A signed number in decimal.
pub fn signed_decimal_text(n: i64) -> (r: String)
    ensures
        r@ == signed_decimal(n as int),
{
    if n < 0 {
        let mut out = String::new();
        out.push('-');
        assert(out@ =~= seq!['-']);
        let magnitude: u64 = ((-(n + 1)) as u64) + 1;
        let digits = decimal_text(magnitude as u128);
        out.append(digits.as_str());
        out
    } else {
        decimal_text(n as u128)
    }
}

/// `n` in decimal, with a zero before it where that is a single digit.
pub open spec fn two_digits(n: nat) -> Seq<char> {
    if n < 10 {
        seq!['0'] + decimal(n)
    } else {
        decimal(n)
    }
}

/// `n` in decimal, in at least two digits.
pub fn two_digits_text(n: u128) -> (r: String)
    ensures
        r@ == two_digits(n as nat),
{
    let digits = decimal_text(n);
    if n < 10 {
        let mut out = String::new();
        out.push('0');
        assert(out@ =~= seq!['0']);
        out.append(digits.as_str());
        out
    } else {
        digits
    }
}

// ---------------------------------------------------------------------------------------------
// Columns
// ---------------------------------------------------------------------------------------------
/// `n` spaces.
pub open spec fn spaces(n: nat) -> Seq<char> {
    repeated(" "@, n)
}

/// The width that `s` lacks of `width`.
pub open spec fn lacking(s: Seq<char>, width: nat) -> nat {
    if s.len() < width {
        (width - s.len()) as nat
    } else {
        0
    }
}

/// `s` at the left edge of a column of at least `width` characters.
pub open spec fn left_aligned(s: Seq<char>, width: nat) -> Seq<char> {
    s + spaces(lacking(s, width))
}

/// `s` at the right edge of a column of at least `width` characters.
pub open spec fn right_aligned(s: Seq<char>, width: nat) -> Seq<char> {
    spaces(lacking(s, width)) + s
}

/// `s` in the middle of a column of at least `width` characters, nearer to the left edge where it
/// cannot be in the middle.
pub open spec fn centered(s: Seq<char>, width: nat) -> Seq<char> {
    spaces(lacking(s, width) / 2) + s + spaces((lacking(s, width) - lacking(s, width) / 2) as nat)
}

fn missing_width(s: &str, width: usize) -> (r: usize)
    ensures
        r == lacking(s@, width as nat),
        r <= width,
{
    let n: usize = s.unicode_len();
    if n < width {
        width - n
    } else {
        0
    }
}

/// `s` at the left edge of a column of at least `width` characters.
pub fn pad_right(s: &str, width: usize) -> (r: String)
    ensures
        r@ == left_aligned(s@, width as nat),
{
    let pad = repeat(" ", missing_width(s, width));
    join2(s, pad.as_str())
}

/// `s` at the right edge of a column of at least `width` characters.
pub fn pad_left(s: &str, width: usize) -> (r: String)
    ensures
        r@ == right_aligned(s@, width as nat),
{
    let pad = repeat(" ", missing_width(s, width));
    join2(pad.as_str(), s)
}

/// `s` in the middle of a column of at least `width` characters.
pub fn pad_both(s: &str, width: usize) -> (r: String)
    ensures
        r@ == centered(s@, width as nat),
{
    let gap: usize = missing_width(s, width);
    let left = repeat(" ", gap / 2);
    let right = repeat(" ", gap - gap / 2);
    join3(left.as_str(), s, right.as_str())
}

// ---------------------------------------------------------------------------------------------
// Order
// ---------------------------------------------------------------------------------------------
/// `a` comes before `b` in the order of strings: by the first character in which they differ, or
/// by length where one is the start of the other.
pub open spec fn before(a: Seq<char>, b: Seq<char>) -> bool
    decreases a.len(),
{
    if b.len() == 0 {
        false
    } else if a.len() == 0 {
        true
    } else if a[0] == b[0] {
        before(a.drop_first(), b.drop_first())
    } else {
        (a[0] as int) < (b[0] as int)
    }
}

/// Says whether `a` comes before `b` in the order of strings.
pub fn comes_before(a: &str, b: &str) -> (r: bool)
    ensures
        r == before(a@, b@),
{
    let v = chars(a);
    let w = chars(b);
    let mut i: usize = 0;
    assert(a@.skip(0) =~= a@);
    assert(b@.skip(0) =~= b@);
    while i < v.len() && i < w.len()
        invariant
            i <= v@.len(),
            i <= w@.len(),
            v@ == a@,
            w@ == b@,
            before(a@, b@) == before(a@.skip(i as int), b@.skip(i as int)),
        decreases v@.len() - i,
    {
        let x: u32 = code(v[i]);
        let y: u32 = code(w[i]);
        assert(a@.skip(i as int).drop_first() =~= a@.skip(i + 1));
        assert(b@.skip(i as int).drop_first() =~= b@.skip(i + 1));
        if v[i] != w[i] {
            return x < y;
        }
        i = i + 1;
    }
    i < w.len()
}

/// The order of strings is total: of two different strings one comes before the other.
pub proof fn lemma_before_total(a: Seq<char>, b: Seq<char>)
    ensures
        a == b || before(a, b) || before(b, a),
        !(before(a, b) && before(b, a)),
    decreases a.len(),
{
    if a.len() > 0 && b.len() > 0 && a[0] == b[0] {
        lemma_before_total(a.drop_first(), b.drop_first());
        if a.drop_first() == b.drop_first() {
            assert(a =~= seq![a[0]] + a.drop_first());
            assert(b =~= seq![b[0]] + b.drop_first());
        }
    } else if a.len() == 0 && b.len() == 0 {
        assert(a =~= b);
    }
}

/// The order of strings is transitive.
pub proof fn lemma_before_transitive(a: Seq<char>, b: Seq<char>, c: Seq<char>)
    requires
        before(a, b),
        before(b, c),
    ensures
        before(a, c),
    decreases a.len(),
{
    if a.len() > 0 && b.len() > 0 && c.len() > 0 && a[0] == b[0] && b[0] == c[0] {
        lemma_before_transitive(a.drop_first(), b.drop_first(), c.drop_first());
    }
}

// ---------------------------------------------------------------------------------------------
// Reading back
// ---------------------------------------------------------------------------------------------
proof fn lemma_digit(d: nat)
    requires
        d < 10,
    ensures
        is_digit(digit(d)),
        digit_value(digit(d)) == d,
        digit(d) != '+',
{
}

proof fn lemma_decimal(n: nat)
    ensures
        decimal(n).len() > 0,
        all_digits(decimal(n)),
        digits_value(decimal(n)) == n,
    decreases n,
{
    lemma_digit(n % 10);
    if n >= 10 {
        lemma_decimal(n / 10);
        assert(decimal(n).drop_last() =~= decimal(n / 10));
    } else {
        assert(decimal(n).drop_last() =~= Seq::empty());
        assert(digits_value(Seq::<char>::empty()) == 0);
    }
}

/// A number that was written is read back.
pub proof fn law_decimal_is_read(n: nat, max: nat)
    requires
        n <= max,
    ensures
        parsed(decimal(n), max) == Some(n),
        forall|i: int| 0 <= i < decimal(n).len() ==> !is_white(#[trigger] decimal(n)[i]),
{
    lemma_decimal(n);
    assert(is_digit(decimal(n)[0]));
    assert forall|i: int| 0 <= i < decimal(n).len() implies !is_white(
        #[trigger] decimal(n)[i],
    ) by {
        assert(is_digit(decimal(n)[i]));
    }
}

/// A word that was written as a line is read back without the line's end.
pub proof fn law_line_end_is_trimmed(s: Seq<char>)
    requires
        s.len() > 0,
        !is_white(s[0]),
        !is_white(s.last()),
    ensures
        trimmed(s.push('\n')) == s,
{
    let line = s.push('\n');
    assert(trim_start(line) == line);
    assert(line.drop_last() =~= s);
    assert(is_white('\n'));
    assert(trim_end(line) == trim_end(s));
}

proof fn lemma_trim_shortens(s: Seq<char>)
    ensures
        trim_start(s).len() <= s.len(),
        trim_end(s).len() <= s.len(),
        s.len() > 0 && is_white(s[0]) ==> trim_start(s).len() < s.len(),
        s.len() > 0 && is_white(s.last()) ==> trim_end(s).len() < s.len(),
    decreases s.len(),
{
    if s.len() > 0 {
        lemma_trim_shortens(s.drop_first());
        lemma_trim_shortens(s.drop_last());
    }
}

/// A text without white space at its ends that was written as a line is read back without the
/// line's end.
pub proof fn law_trimmed_line(s: Seq<char>)
    requires
        trimmed(s) == s,
    ensures
        trimmed(s.push('\n')) == s,
{
    if s.len() > 0 {
        lemma_trim_shortens(s);
        lemma_trim_shortens(trim_start(s));
        assert(!is_white(s[0]));
        assert(!is_white(s.last()));
        law_line_end_is_trimmed(s);
    } else {
        let line = s.push('\n');
        assert(is_white('\n'));
        assert(line.drop_first() =~= s);
        assert(trim_start(line) == trim_start(s));
        assert(trim_start(s) == s);
    }
}

proof fn lemma_pieces_unmarked(s: Seq<char>, at: spec_fn(char) -> bool)
    ensures
        pieces(s, at).len() > 0,
        forall|i: int, j: int|
            0 <= i < pieces(s, at).len() && 0 <= j < pieces(s, at)[i].len() ==> !at(
                #[trigger] pieces(s, at)[i][j],
            ),
    decreases s.len(),
{
    if s.len() > 0 {
        lemma_pieces_unmarked(s.drop_last(), at);
    }
}

proof fn lemma_non_empty(parts: Seq<Seq<char>>, i: int)
    requires
        0 <= i < non_empty(parts).len(),
    ensures
        non_empty(parts)[i].len() > 0,
        exists|k: int| 0 <= k < parts.len() && parts[k] == non_empty(parts)[i],
    decreases parts.len(),
{
    let d = parts.drop_last();
    if parts.last().len() > 0 && i == non_empty(d).len() {
        assert(parts[parts.len() - 1] == non_empty(parts)[i]);
    } else {
        lemma_non_empty(d, i);
        let k = choose|k: int| 0 <= k < d.len() && d[k] == non_empty(d)[i];
        assert(parts[k] == non_empty(parts)[i]);
    }
}

/// A word is not empty, and no character of it is white space.
pub proof fn law_words_are_not_white(s: Seq<char>, i: int)
    requires
        0 <= i < words_of(s).len(),
    ensures
        words_of(s)[i].len() > 0,
        forall|j: int| 0 <= j < words_of(s)[i].len() ==> !is_white(#[trigger] words_of(s)[i][j]),
{
    let white = |x: char| is_white(x);
    let parts = pieces(s, white);
    lemma_pieces_unmarked(s, white);
    lemma_non_empty(parts, i);
    let k = choose|k: int| 0 <= k < parts.len() && parts[k] == non_empty(parts)[i];
    assert forall|j: int| 0 <= j < words_of(s)[i].len() implies !is_white(
        #[trigger] words_of(s)[i][j],
    ) by {
        assert(!white(parts[k][j]));
    }
}

// ---------------------------------------------------------------------------------------------
// Putting together what was split
// ---------------------------------------------------------------------------------------------
proof fn lemma_pieces_some(s: Seq<char>, at: spec_fn(char) -> bool)
    ensures
        pieces(s, at).len() > 0,
    decreases s.len(),
{
    if s.len() > 0 {
        lemma_pieces_some(s.drop_last(), at);
    }
}

proof fn lemma_pieces_plain(s: Seq<char>, at: spec_fn(char) -> bool)
    requires
        forall|i: int| 0 <= i < s.len() ==> !at(#[trigger] s[i]),
    ensures
        pieces(s, at) == seq![s],
    decreases s.len(),
{
    if s.len() > 0 {
        let d = s.drop_last();
        assert forall|i: int| 0 <= i < d.len() implies !at(#[trigger] d[i]) by {
            assert(d[i] == s[i]);
        }
        lemma_pieces_plain(d, at);
        assert(!at(s[s.len() - 1]));
        assert(d.push(s.last()) =~= s);
        assert(pieces(s, at) =~= seq![s]);
    } else {
        assert(s =~= Seq::empty());
    }
}

proof fn lemma_pieces_join(a: Seq<char>, c: char, b: Seq<char>, at: spec_fn(char) -> bool)
    requires
        at(c),
    ensures
        pieces(a.push(c) + b, at) == pieces(a, at) + pieces(b, at),
    decreases b.len(),
{
    let whole = a.push(c) + b;
    if b.len() == 0 {
        assert(whole.drop_last() =~= a);
        assert(pieces(whole, at) =~= pieces(a, at) + pieces(b, at));
    } else {
        let d = b.drop_last();
        lemma_pieces_join(a, c, d, at);
        lemma_pieces_some(d, at);
        assert(whole.drop_last() =~= a.push(c) + d);
        assert(whole.last() == b.last());
        let front = pieces(a, at);
        let back = pieces(d, at);
        assert((front + back).last() == back.last());
        assert((front + back).drop_last() =~= front + back.drop_last());
        assert(pieces(whole, at) =~= front + pieces(b, at));
    }
}

/// There is at least one piece.
pub proof fn law_pieces_some(s: Seq<char>, c: char)
    ensures
        split_at_char(s, c).len() > 0,
{
    lemma_pieces_some(s, marks(c));
}

/// A number is written with digits, and at least one.
pub proof fn law_decimal_is_digits(n: nat)
    ensures
        decimal(n).len() > 0,
        forall|i: int| 0 <= i < decimal(n).len() ==> is_digit(#[trigger] decimal(n)[i]),
{
    lemma_decimal(n);
    assert forall|i: int| 0 <= i < decimal(n).len() implies is_digit(
        #[trigger] decimal(n)[i],
    ) by {
        assert(all_digits(decimal(n)));
    }
}

/// A text without `c` is one piece, and what stands before a `c` and behind it is split by itself:
/// splitting undoes joining.
pub proof fn law_split_undoes_join(a: Seq<char>, c: char, b: Seq<char>)
    ensures
        !a.contains(c) ==> split_at_char(a, c) == seq![a],
        split_at_char(a.push(c) + b, c) == split_at_char(a, c) + split_at_char(b, c),
{
    let at = marks(c);
    lemma_pieces_join(a, c, b, at);
    if !a.contains(c) {
        assert forall|i: int| 0 <= i < a.len() implies !at(#[trigger] a[i]) by {
            assert(a.contains(a[i]));
        }
        lemma_pieces_plain(a, at);
    }
}

proof fn lemma_lines_split(parts: Seq<Seq<char>>, more: Seq<Seq<char>>)
    requires
        more.len() > 0,
    ensures
        (parts + more).drop_last().map_values(|p: Seq<char>| without_cr(p)) == parts.map_values(
            |p: Seq<char>| without_cr(p),
        ) + more.drop_last().map_values(|p: Seq<char>| without_cr(p)),
        (parts + more).last() == more.last(),
{
    assert((parts + more).drop_last() =~= parts + more.drop_last());
    assert((parts + more.drop_last()).map_values(|p: Seq<char>| without_cr(p))
        =~= parts.map_values(|p: Seq<char>| without_cr(p)) + more.drop_last().map_values(
        |p: Seq<char>| without_cr(p),
    ));
}

/// The lines of a text that ends with a line feed and of what follows it are those of the two, and
/// a line that was written is read back, where it holds no line feed and does not end with a
/// carriage return.
pub proof fn law_lines_are_read_back(a: Seq<char>, b: Seq<char>)
    ensures
        lines_of(a.push('\n') + b) == lines_of(a.push('\n')) + lines_of(b),
        !a.contains('\n') && !(a.len() > 0 && a.last() == '\r') ==> lines_of(a.push('\n'))
            == seq![a],
        lines_of(Seq::empty()) == Seq::<Seq<char>>::empty(),
{
    let none = Seq::<char>::empty();
    let at = marks('\n');
    law_split_undoes_join(a, '\n', b);
    law_split_undoes_join(a, '\n', none);
    law_split_undoes_join(none, '\n', none);
    assert(!none.contains('\n'));
    assert(a.push('\n') + none =~= a.push('\n'));
    lemma_pieces_some(b, at);
    lemma_pieces_some(a, at);
    let parts = split_at_char(a, '\n');
    let more = split_at_char(b, '\n');
    lemma_lines_split(parts, more);
    lemma_lines_split(parts, seq![none]);
    let ended = parts.map_values(|p: Seq<char>| without_cr(p));
    assert(seq![none].drop_last() =~= Seq::<Seq<char>>::empty());
    assert(seq![none].drop_last().map_values(|p: Seq<char>| without_cr(p)) =~= Seq::<
        Seq<char>,
    >::empty());
    assert(lines_of(a.push('\n')) =~= ended);
    assert(lines_of(a.push('\n') + b) =~= ended + lines_of(b));
    if !a.contains('\n') && !(a.len() > 0 && a.last() == '\r') {
        assert(parts == seq![a]);
        assert(ended =~= seq![a]);
    }
    assert(lines_of(none) =~= Seq::<Seq<char>>::empty());
}

proof fn lemma_non_empty_join(a: Seq<Seq<char>>, b: Seq<Seq<char>>)
    ensures
        non_empty(a + b) == non_empty(a) + non_empty(b),
    decreases b.len(),
{
    if b.len() == 0 {
        assert(a + b =~= a);
        assert(non_empty(a) + non_empty(b) =~= non_empty(a));
    } else {
        lemma_non_empty_join(a, b.drop_last());
        assert((a + b).drop_last() =~= a + b.drop_last());
        assert((a + b).last() == b.last());
        assert(non_empty(a + b) =~= non_empty(a) + non_empty(b));
    }
}

/// White space parts words: a text without it is one word, unless it is empty, and what stands
/// before white space and behind it has its words by itself.
pub proof fn law_words_are_parted(a: Seq<char>, c: char, b: Seq<char>)
    ensures
        a.len() > 0 && (forall|i: int| 0 <= i < a.len() ==> !is_white(#[trigger] a[i]))
            ==> words_of(a) == seq![a],
        is_white(c) ==> words_of(a.push(c) + b) == words_of(a) + words_of(b),
        words_of(Seq::empty()) == Seq::<Seq<char>>::empty(),
{
    let white = |x: char| is_white(x);
    if is_white(c) {
        lemma_pieces_join(a, c, b, white);
        lemma_non_empty_join(pieces(a, white), pieces(b, white));
    }
    if a.len() > 0 && (forall|i: int| 0 <= i < a.len() ==> !is_white(#[trigger] a[i])) {
        assert forall|i: int| 0 <= i < a.len() implies !white(#[trigger] a[i]) by {
            assert(!is_white(a[i]));
        }
        lemma_pieces_plain(a, white);
        assert(seq![a].drop_last() =~= Seq::empty());
        assert(non_empty(seq![a]) =~= seq![a]) by {
            assert(non_empty(seq![a].drop_last()) =~= Seq::<Seq<char>>::empty());
        }
    }
    let none = Seq::<char>::empty();
    assert(pieces(none, white) == seq![none]);
    assert(seq![none].drop_last() =~= Seq::empty());
    assert(non_empty(seq![none].drop_last()) =~= Seq::<Seq<char>>::empty());
    assert(non_empty(seq![none]) =~= Seq::<Seq<char>>::empty());
}

/// A text is cut where the character first stands, and not where it does not.
pub proof fn law_cut(a: Seq<char>, c: char, b: Seq<char>)
    requires
        !a.contains(c),
    ensures
        cut_at(a.push(c) + b, c) == Some((a, b)),
        cut_at(a, c) is None,
    decreases a.len(),
{
    let s = a.push(c) + b;
    if a.len() == 0 {
        assert(s[0] == c);
        assert(s.drop_first() =~= b);
        assert(a =~= Seq::empty());
    } else {
        assert(a.contains(a[0]));
        assert(s[0] == a[0]);
        let rest = a.drop_first();
        assert(!rest.contains(c)) by {
            if rest.contains(c) {
                let i = rest.index_of(c);
                assert(a[i + 1] == c);
            }
        }
        assert(s.drop_first() =~= rest.push(c) + b);
        law_cut(rest, c, b);
        assert(seq![a[0]] + rest =~= a);
    }
}

/// What is found is the first from the given place on, or the last before it; nothing is found just
/// where there is none.
pub proof fn law_found(s: Seq<char>, p: Seq<char>, from: int)
    requires
        0 <= from <= s.len(),
    ensures
        match find_from(s, p, from) {
            Some(k) => from <= k && occurs_at(s, p, k) && forall|j: int|
                from <= j < k ==> !occurs_at(s, p, j),
            None => forall|j: int| from <= j ==> !occurs_at(s, p, j),
        },
        match rfind_before(s, p, from) {
            Some(k) => 0 <= k < from && occurs_at(s, p, k) && forall|j: int|
                k < j < from ==> !occurs_at(s, p, j),
            None => forall|j: int| 0 <= j < from ==> !occurs_at(s, p, j),
        },
{
    lemma_found(s, p, from);
    lemma_found_before(s, p, from);
}

proof fn lemma_found(s: Seq<char>, p: Seq<char>, from: int)
    requires
        0 <= from,
    ensures
        match find_from(s, p, from) {
            Some(k) => from <= k && occurs_at(s, p, k) && forall|j: int|
                from <= j < k ==> !occurs_at(s, p, j),
            None => forall|j: int| from <= j ==> !occurs_at(s, p, j),
        },
    decreases s.len() - from + 1,
{
    if from + p.len() <= s.len() && !occurs_at(s, p, from) {
        lemma_found(s, p, from + 1);
    }
}

proof fn lemma_found_before(s: Seq<char>, p: Seq<char>, to: int)
    requires
        0 <= to,
    ensures
        match rfind_before(s, p, to) {
            Some(k) => 0 <= k < to && occurs_at(s, p, k) && forall|j: int|
                k < j < to ==> !occurs_at(s, p, j),
            None => forall|j: int| 0 <= j < to ==> !occurs_at(s, p, j),
        },
    decreases to,
{
    if to > 0 && !occurs_at(s, p, to - 1) {
        lemma_found_before(s, p, to - 1);
    }
}

/// White space and nothing else.
pub open spec fn all_white(s: Seq<char>) -> bool {
    forall|i: int| 0 <= i < s.len() ==> is_white(#[trigger] s[i])
}

proof fn lemma_trim_start_white(a: Seq<char>, s: Seq<char>)
    requires
        all_white(a),
        s.len() > 0 ==> !is_white(s[0]),
    ensures
        trim_start(a + s) == s,
    decreases a.len(),
{
    if a.len() == 0 {
        assert(a + s =~= s);
    } else {
        assert(is_white((a + s)[0]));
        assert((a + s).drop_first() =~= a.drop_first() + s);
        assert forall|i: int| 0 <= i < a.drop_first().len() implies is_white(
            #[trigger] a.drop_first()[i],
        ) by {
            assert(is_white(a[i + 1]));
        }
        lemma_trim_start_white(a.drop_first(), s);
    }
}

proof fn lemma_trim_end_white(s: Seq<char>, b: Seq<char>)
    requires
        all_white(b),
        s.len() > 0 ==> !is_white(s.last()),
    ensures
        trim_end(s + b) == s,
    decreases b.len(),
{
    if b.len() == 0 {
        assert(s + b =~= s);
    } else {
        assert((s + b).last() == b.last());
        assert(is_white(b[b.len() - 1]));
        assert((s + b).drop_last() =~= s + b.drop_last());
        assert forall|i: int| 0 <= i < b.drop_last().len() implies is_white(
            #[trigger] b.drop_last()[i],
        ) by {
            assert(is_white(b[i]));
        }
        lemma_trim_end_white(s, b.drop_last());
    }
}

/// Trimming takes away the white space around a text, all of it, and nothing else.
pub proof fn law_trimming(a: Seq<char>, s: Seq<char>, b: Seq<char>)
    requires
        all_white(a),
        all_white(b),
        s.len() > 0 ==> !is_white(s[0]) && !is_white(s.last()),
    ensures
        trimmed(a + s + b) == s,
{
    if s.len() > 0 {
        assert(a + s + b =~= a + (s + b));
        assert((s + b)[0] == s[0]);
        lemma_trim_start_white(a, s + b);
        lemma_trim_end_white(s, b);
    } else {
        assert(a + s + b =~= (a + b) + s);
        lemma_trim_start_white(a + b, s);
        assert(s =~= Seq::empty());
    }
}

/// A text that trimming leaves as it is has no white space at its ends.
pub proof fn law_trimmed_ends(s: Seq<char>)
    requires
        trimmed(s) == s,
        s.len() > 0,
    ensures
        !is_white(s[0]),
        !is_white(s.last()),
{
    lemma_trim_shortens(s);
    lemma_trim_shortens(trim_start(s));
}

/// A part over and over is as long as all of them, and each of its characters is the part's.
pub proof fn law_repeated(part: Seq<char>, n: nat)
    ensures
        repeated(part, n).len() == n * part.len(),
        part.len() == 1 ==> forall|i: int|
            0 <= i < n ==> #[trigger] repeated(part, n)[i] == part[0],
    decreases n,
{
    if n > 0 {
        law_repeated(part, (n - 1) as nat);
        assert(n * part.len() == (n - 1) * part.len() + part.len()) by (nonlinear_arith)
            requires
                n > 0,
        ;
    } else {
        assert(0 * part.len() == 0) by (nonlinear_arith);
    }
}

/// A column is as wide as it should be, or as the text where that is wider; the text stands in it
/// where it should, and around it are spaces.
pub proof fn law_columns(s: Seq<char>, width: nat)
    ensures
        ({
            let wide = if s.len() < width {
                width
            } else {
                s.len()
            };
            let before: int = (wide - s.len()) / 2;
            &&& left_aligned(s, width).len() == wide
            &&& left_aligned(s, width).take(s.len() as int) == s
            &&& forall|i: int| s.len() <= i < wide ==> #[trigger] left_aligned(s, width)[i] == ' '
            &&& right_aligned(s, width).len() == wide
            &&& right_aligned(s, width).skip(wide - s.len()) == s
            &&& forall|i: int|
                0 <= i < wide - s.len() ==> #[trigger] right_aligned(s, width)[i] == ' '
            &&& centered(s, width).len() == wide
            &&& centered(s, width).subrange(before, before + s.len()) == s
            &&& forall|i: int|
                0 <= i < before || before + s.len() <= i < wide ==> #[trigger] centered(
                    s,
                    width,
                )[i] == ' '
        }),
{
    reveal_strlit(" ");
    let n = lacking(s, width);
    let before = n / 2;
    let behind = (n - n / 2) as nat;
    law_repeated(" "@, n);
    law_repeated(" "@, before);
    law_repeated(" "@, behind);
    assert(n * 1 == n && before * 1 == before && behind * 1 == behind);
    assert(left_aligned(s, width).take(s.len() as int) =~= s);
    assert(right_aligned(s, width).skip(n as int) =~= s);
    assert(centered(s, width).subrange(before as int, (before + s.len()) as int) =~= s);
}

/// White space is what Unicode calls so, digits are the ten of ASCII, and neither is the other.
pub proof fn law_characters(c: char)
    ensures
        is_white(c) <==> c == ' ' || '\t' <= c <= '\r' || c == '\u{85}' || c == '\u{a0}' || c
            == '\u{1680}' || '\u{2000}' <= c <= '\u{200a}' || c == '\u{2028}' || c == '\u{2029}' || c
            == '\u{202f}' || c == '\u{205f}' || c == '\u{3000}',
        is_digit(c) <==> '0' <= c <= '9',
        is_digit(c) ==> !is_white(c) && digit(digit_value(c)) == c,
{
}

/// A number is read digit by digit, each counting for ten times as much as the one behind it; a plus
/// sign before it changes nothing; and nothing but digits is a number.
pub proof fn law_number_is_read(s: Seq<char>, c: char, max: nat)
    ensures
        parsed(s, max) matches Some(n) ==> (is_digit(c) && 10 * n + (c as u32 - '0' as u32) <= max
            ==> parsed(s.push(c), max) == Some((10 * n + (c as u32 - '0' as u32)) as nat)),
        is_digit(c) && digit_value(c) <= max ==> parsed(seq![c], max) == Some(
            (c as u32 - '0' as u32) as nat,
        ),
        s.len() > 0 && is_digit(s[0]) ==> parsed(seq!['+'] + s, max) == parsed(s, max),
        parsed(s, max) matches Some(n) ==> n <= max && s.len() > 0 && forall|i: int|
            0 < i < s.len() ==> is_digit(#[trigger] s[i]),
        !is_digit(c) ==> parsed(s.push(c), max) is None,
{
    let d = if s.len() > 0 && s[0] == '+' {
        s.drop_first()
    } else {
        s
    };
    if let Some(n) = parsed(s, max) {
        let more = d.push(c);
        assert(more.drop_last() =~= d);
        if s[0] == '+' {
            assert(s.push(c).drop_first() =~= more);
        }
        if is_digit(c) {
            assert forall|i: int| 0 <= i < more.len() implies is_digit(#[trigger] more[i]) by {
                if i < d.len() {
                    assert(is_digit(d[i]));
                }
            }
        }
        assert forall|i: int| 0 < i < s.len() implies is_digit(#[trigger] s[i]) by {
            if s[0] == '+' {
                assert(d[i - 1] == s[i]);
            } else {
                assert(d[i] == s[i]);
            }
        }
    }
    assert(seq![c].drop_last() =~= Seq::<char>::empty());
    assert(digits_value(seq![c].drop_last()) == 0);
    if s.len() > 0 && is_digit(s[0]) {
        assert((seq!['+'] + s).drop_first() =~= s);
    }
    if !is_digit(c) {
        let t = s.push(c);
        let last = t.len() - 1;
        assert(t[last] == c);
        if t[0] == '+' && t.len() > 1 {
            assert(t.drop_first()[last - 1] == c);
        }
    }
}

/// A number is written digit by digit, the last digit last.
pub proof fn law_decimal_is_written(n: nat, d: nat)
    requires
        d < 10,
    ensures
        decimal(d) == seq![digit(d)],
        n > 0 ==> decimal(10 * n + d) == decimal(n).push(digit(d)),
        digit(d) as u32 == '0' as u32 + d,
{
    assert((10 * n + d) / 10 == n);
    assert((10 * n + d) % 10 == d);
    assert(decimal(d) =~= seq![digit(d)]);
}

/// Texts are in the order of their first characters that differ, and one that another starts with
/// comes before it.
pub proof fn law_order_of_texts(common: Seq<char>, a: Seq<char>, b: Seq<char>)
    ensures
        before(common + a, common + b) == before(a, b),
        a.len() > 0 && b.len() > 0 && a[0] != b[0] ==> before(a, b) == ((a[0] as int) < (b[0] as int)),
        b.len() > 0 ==> before(Seq::empty(), b),
        !before(a, Seq::empty()),
    decreases common.len(),
{
    if common.len() == 0 {
        assert(common + a =~= a);
        assert(common + b =~= b);
    } else {
        assert((common + a).drop_first() =~= common.drop_first() + a);
        assert((common + b).drop_first() =~= common.drop_first() + b);
        law_order_of_texts(common.drop_first(), a, b);
    }
}

/// A carriage return before a line's end is no part of the line.
pub proof fn law_carriage_return_is_dropped(a: Seq<char>, b: Seq<char>)
    requires
        !a.contains('\n'),
    ensures
        lines_of(a.push('\r').push('\n') + b) == seq![a] + lines_of(b),
{
    let line = a.push('\r');
    law_lines_are_read_back(line, b);
    assert(!line.contains('\n')) by {
        if line.contains('\n') {
            let i = line.index_of('\n');
            assert(i < a.len());
            assert(a[i] == '\n');
            assert(a.contains('\n'));
        }
    }
    let none = Seq::<char>::empty();
    law_split_undoes_join(line, '\n', none);
    law_split_undoes_join(none, '\n', none);
    assert(!none.contains('\n'));
    assert(line.push('\n') + none =~= line.push('\n'));
    let parts = split_at_char(line.push('\n'), '\n');
    assert(parts =~= seq![line, none]);
    assert(line.drop_last() =~= a);
    assert(without_cr(line) == a);
    assert(lines_of(line.push('\n')) =~= seq![a]);
}

/// Two digits are written where one would do, and a number below none has a minus sign before it.
pub proof fn law_two_digits_and_signs(a: nat, b: nat, n: nat)
    requires
        a < 10,
        b < 10,
    ensures
        two_digits(10 * a + b) == seq![digit(a), digit(b)],
        signed_decimal(n as int) == decimal(n),
        n > 0 ==> signed_decimal(-(n as int)) == seq!['-'] + decimal(n),
{
    law_decimal_is_written(a, b);
    law_decimal_is_written(0, a);
    if a == 0 {
        assert(two_digits(10 * a + b) =~= seq![digit(a), digit(b)]);
    } else {
        assert(two_digits(10 * a + b) =~= seq![digit(a), digit(b)]);
    }
}

/// A text that starts with another has it as its first characters, and what follows is the rest.
pub proof fn law_prefix(p: Seq<char>, rest: Seq<char>, s: Seq<char>)
    ensures
        has_prefix(p + rest, p),
        after_prefix(p + rest, p) == Some(rest),
        after_prefix(s, p) matches Some(t) ==> s == p + t,
        !has_prefix(s, p) ==> after_prefix(s, p) is None,
{
    assert((p + rest).subrange(0, p.len() as int) =~= p);
    assert((p + rest).skip(p.len() as int) =~= rest);
    if has_prefix(s, p) {
        assert(s =~= s.subrange(0, p.len() as int) + s.skip(p.len() as int));
    }
}

proof fn lemma_split_behind(a: Seq<char>, s: Seq<char>, p: Seq<char>, from: int)
    requires
        p.len() > 0,
        0 <= from <= s.len(),
    ensures
        split_at_text_from(a + s, p, a.len() + from) == split_at_text_from(s, p, from),
    decreases s.len() - from,
{
    let all = a + s;
    let n = a.len() as int;
    lemma_found(s, p, from);
    lemma_found(all, p, n + from);
    assert forall|j: int| from <= j implies occurs_at(all, p, n + j) == occurs_at(s, p, j) by {
        if j + p.len() <= s.len() {
            assert(all.subrange(n + j, n + j + p.len()) =~= s.subrange(j, j + p.len()));
        }
    }
    match find_from(s, p, from) {
        Some(k) => {
            assert(occurs_at(all, p, n + k));
            let m = find_from(all, p, n + from);
            assert(m is Some);
            assert(m->Some_0 == n + k) by {
                let x = m->Some_0;
                assert(occurs_at(s, p, x - n) == occurs_at(all, p, n + (x - n)));
                if x < n + k {
                    assert(!occurs_at(s, p, x - n));
                }
                if n + k < x {
                    assert(!occurs_at(all, p, n + k));
                }
            }
            assert(all.subrange(n + from, n + k) =~= s.subrange(from, k));
            lemma_split_behind(a, s, p, (k + p.len()) as int);
        },
        None => {
            assert(find_from(all, p, n + from) is None) by {
                if let Some(x) = find_from(all, p, n + from) {
                    assert(occurs_at(s, p, x - n) == occurs_at(all, p, n + (x - n)));
                }
            }
            assert(all.skip(n + from) =~= s.skip(from));
        },
    }
}

/// A text is split at each occurrence of another: a part in which it does not occur, nor where the
/// two meet, is the first piece, and the pieces of what follows are the others.
pub proof fn law_split_at_text(a: Seq<char>, p: Seq<char>, b: Seq<char>)
    requires
        p.len() > 0,
        forall|j: int| 0 <= j < a.len() ==> !occurs_at(a + p + b, p, j),
    ensures
        split_at_text(a + p + b, p) == seq![a] + split_at_text(b, p),
{
    let all = a + p + b;
    let n = a.len() as int;
    law_found(all, p, 0);
    assert(all.subrange(n, n + p.len()) =~= p);
    assert(occurs_at(all, p, n));
    assert(find_from(all, p, 0) == Some(n));
    assert(all.subrange(0, n) =~= a);
    assert(all =~= (a + p) + b);
    lemma_split_behind(a + p, b, p, 0);
}

} // verus!
