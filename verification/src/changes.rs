//! Differences between two texts, line by line.
use crate::text::chars;
use vstd::prelude::*;

verus! {

broadcast use vstd::seq::group_seq_axioms;

/// What became of a line.
#[derive(Debug, Clone, Copy, PartialEq, Eq, Structural)]
pub enum ChangeTag {
    Equal,
    Delete,
    Insert,
}

/// A line of one text or of both, with its line end.
#[derive(Debug)]
pub struct Change {
    pub tag: ChangeTag,
    pub value: String,
}

/// What a `Change` holds.
pub struct ChangeView {
    pub tag: ChangeTag,
    pub value: Seq<char>,
}

impl DeepView for Change {
    type V = ChangeView;

    open spec fn deep_view(&self) -> ChangeView {
        ChangeView { tag: self.tag, value: self.value@ }
    }
}

/// How many line feeds and carriage returns a text has.
pub open spec fn line_ends(s: Seq<char>) -> nat
    decreases s.len(),
{
    if s.len() == 0 {
        0
    } else {
        line_ends(s.drop_last()) + if s.last() == '\n' || s.last() == '\r' {
            1nat
        } else {
            0nat
        }
    }
}

/// Two texts with few enough lines for their lines to be numbered.
pub open spec fn comparable(old: Seq<char>, new: Seq<char>) -> bool {
    line_ends(old) + line_ends(new) + 2 <= u32::MAX
}

fn count_line_ends(s: &str) -> (r: usize)
    ensures
        r == line_ends(s@),
{
    let v = chars(s);
    let mut n: usize = 0;
    let mut i: usize = 0;
    assert(s@.take(0) =~= Seq::empty());
    while i < v.len()
        invariant
            i <= v@.len(),
            v@ == s@,
            n == line_ends(s@.take(i as int)),
            n <= i,
        decreases v@.len() - i,
    {
        assert(s@.take(i + 1).drop_last() =~= s@.take(i as int));
        if v[i] == '\n' || v[i] == '\r' {
            n = n + 1;
        }
        i = i + 1;
    }
    assert(s@.take(i as int) =~= s@);
    n
}

/// Says whether two texts have few enough lines to be compared.
pub fn are_comparable(old: &str, new: &str) -> (r: bool)
    ensures
        r == comparable(old@, new@),
{
    let a: u128 = count_line_ends(old) as u128;
    let b: u128 = count_line_ends(new) as u128;
    a + b + 2 <= u32::MAX as u128
}

/// The changes that `similar` finds from one text to another.
pub uninterp spec fn text_changes(old: Seq<char>, new: Seq<char>) -> Seq<ChangeView>;

/// `similar::TextDiff::from_lines` with `iter_all_changes`: the lines of both texts in order, each
/// as equal, deleted or inserted. The contract says that the result is a function of the two
/// texts; which of the possible sequences of changes it is, it leaves unsaid.
#[verifier::external_body]
pub(crate) fn diff_texts(old: &str, new: &str) -> (r: Vec<Change>)
    requires
        comparable(old@, new@),
    ensures
        r.deep_view() == text_changes(old@, new@),
{
    let diff = similar::TextDiff::from_lines(old, new);
    diff.iter_all_changes().map(
        |c|
            Change {
                tag: match c.tag() {
                    similar::ChangeTag::Equal => ChangeTag::Equal,
                    similar::ChangeTag::Delete => ChangeTag::Delete,
                    similar::ChangeTag::Insert => ChangeTag::Insert,
                },
                value: c.value().to_string(),
            },
    ).collect()
}

/// The line ends of a text are those of its parts.
pub proof fn law_line_ends(a: Seq<char>, b: Seq<char>, c: char)
    ensures
        line_ends(a + b) == line_ends(a) + line_ends(b),
        line_ends(seq![c]) == (if c == '\n' || c == '\r' {
            1nat
        } else {
            0nat
        }),
    decreases b.len(),
{
    if b.len() == 0 {
        assert(a + b =~= a);
    } else {
        assert((a + b).drop_last() =~= a + b.drop_last());
        law_line_ends(a, b.drop_last(), c);
    }
    assert(seq![c].drop_last() =~= Seq::<char>::empty());
    assert(line_ends(seq![c].drop_last()) == 0);
}

/// Two texts can be compared unless they have more lines than there are numbers.
pub proof fn law_what_can_be_compared(old: Seq<char>, new: Seq<char>)
    ensures
        comparable(old, new) <==> line_ends(old) + line_ends(new) <= 0xffff_fffd,
        old.len() + new.len() <= 0xffff_fffd ==> comparable(old, new),
{
    lemma_line_ends_bound(old);
    lemma_line_ends_bound(new);
}

proof fn lemma_line_ends_bound(s: Seq<char>)
    ensures
        line_ends(s) <= s.len(),
    decreases s.len(),
{
    if s.len() > 0 {
        lemma_line_ends_bound(s.drop_last());
    }
}

} // verus!
