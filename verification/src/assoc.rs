//! Lists of pairs looked up by their string key: each key stands at most once, and the pairs keep
//! the order in which their keys came.
use crate::text::{before, comes_before, lemma_before_total, lemma_before_transitive, same};
use vstd::prelude::*;

verus! {

broadcast use vstd::seq::group_seq_axioms;

/// The place of the first pair with the key `key`, or the number of pairs where none has it.
pub open spec fn place_of<V>(pairs: Seq<(Seq<char>, V)>, key: Seq<char>) -> int
    decreases pairs.len(),
{
    if pairs.len() == 0 || pairs[0].0 == key {
        0
    } else {
        1 + place_of(pairs.drop_first(), key)
    }
}

/// Some pair has the key `key`.
pub open spec fn has_key<V>(pairs: Seq<(Seq<char>, V)>, key: Seq<char>) -> bool {
    place_of(pairs, key) < pairs.len()
}

/// The value that stands beside `key`.
pub open spec fn value_of<V>(pairs: Seq<(Seq<char>, V)>, key: Seq<char>) -> Option<V> {
    if has_key(pairs, key) {
        Some(pairs[place_of(pairs, key)].1)
    } else {
        None
    }
}

/// `pairs` with `value` beside `key`: in place of the value that stood there, or in a new pair at
/// the end.
pub open spec fn with_value<V>(pairs: Seq<(Seq<char>, V)>, key: Seq<char>, value: V) -> Seq<
    (Seq<char>, V),
> {
    if has_key(pairs, key) {
        pairs.update(place_of(pairs, key), (key, value))
    } else {
        pairs.push((key, value))
    }
}

/// No key stands twice.
pub open spec fn keys_unique<V>(pairs: Seq<(Seq<char>, V)>) -> bool {
    forall|i: int, j: int|
        0 <= i < j < pairs.len() ==> (#[trigger] pairs[i]).0 != (#[trigger] pairs[j]).0
}

pub proof fn lemma_place_of<V>(pairs: Seq<(Seq<char>, V)>, key: Seq<char>, k: int)
    requires
        0 <= k <= pairs.len(),
        forall|j: int| 0 <= j < k ==> (#[trigger] pairs[j]).0 != key,
        k < pairs.len() ==> pairs[k].0 == key,
    ensures
        place_of(pairs, key) == k,
    decreases k,
{
    if k > 0 {
        assert(pairs[0].0 != key);
        lemma_place_of(pairs.drop_first(), key, k - 1);
    }
}

pub proof fn lemma_place_bounds<V>(pairs: Seq<(Seq<char>, V)>, key: Seq<char>)
    ensures
        0 <= place_of(pairs, key) <= pairs.len(),
        has_key(pairs, key) ==> pairs[place_of(pairs, key)].0 == key,
        forall|j: int| 0 <= j < place_of(pairs, key) ==> (#[trigger] pairs[j]).0 != key,
    decreases pairs.len(),
{
    if pairs.len() > 0 && pairs[0].0 != key {
        let rest = pairs.drop_first();
        lemma_place_bounds(rest, key);
        assert forall|j: int| 0 <= j < place_of(pairs, key) implies (#[trigger] pairs[j]).0
            != key by {
            if j > 0 {
                assert(rest[j - 1] == pairs[j]);
            }
        }
    }
}

/// Putting a value beside a key keeps every key at one place.
pub proof fn lemma_with_value_unique<V>(pairs: Seq<(Seq<char>, V)>, key: Seq<char>, value: V)
    requires
        keys_unique(pairs),
    ensures
        keys_unique(with_value(pairs, key, value)),
{
    lemma_place_bounds(pairs, key);
}

/// A value that was put beside a key is found there, and the other keys' values are as before.
pub proof fn lemma_with_value_found<V>(
    pairs: Seq<(Seq<char>, V)>,
    key: Seq<char>,
    value: V,
    other: Seq<char>,
)
    ensures
        value_of(with_value(pairs, key, value), key) == Some(value),
        other != key ==> value_of(with_value(pairs, key, value), other) == value_of(pairs, other),
{
    lemma_place_bounds(pairs, key);
    lemma_place_bounds(pairs, other);
    let after = with_value(pairs, key, value);
    lemma_place_of(after, key, place_of(pairs, key));
    if other != key {
        if has_key(pairs, other) {
            assert forall|j: int| 0 <= j < place_of(pairs, other) implies (#[trigger] after[j]).0
                != other by {
                if j < pairs.len() && j != place_of(pairs, key) {
                    assert(after[j] == pairs[j]);
                }
            }
            lemma_place_of(after, other, place_of(pairs, other));
        } else {
            assert forall|j: int| 0 <= j < after.len() implies (#[trigger] after[j]).0 != other by {
                if j < pairs.len() && j != place_of(pairs, key) {
                    assert(after[j] == pairs[j]);
                }
            }
            lemma_place_of(after, other, after.len() as int);
        }
    }
}

/// The place of the pair with the key `key`.
pub fn find<V: DeepView>(pairs: &Vec<(String, V)>, key: &str) -> (r: Option<usize>)
    ensures
        match r {
            Some(i) => has_key(pairs.deep_view(), key@) && i == place_of(pairs.deep_view(), key@) && i
                < pairs@.len(),
            None => !has_key(pairs.deep_view(), key@),
        },
{
    let mut i: usize = 0;
    while i < pairs.len()
        invariant
            i <= pairs@.len(),
            forall|j: int| 0 <= j < i ==> (#[trigger] pairs.deep_view()[j]).0 != key@,
        decreases pairs@.len() - i,
    {
        if same(pairs[i].0.as_str(), key) {
            proof {
                lemma_place_of(pairs.deep_view(), key@, i as int);
            }
            return Some(i);
        }
        i = i + 1;
    }
    proof {
        lemma_place_of(pairs.deep_view(), key@, i as int);
    }
    None
}

/// The value that stands beside `key`.
pub fn get<'a, V: DeepView>(pairs: &'a Vec<(String, V)>, key: &str) -> (r: Option<&'a V>)
    ensures
        match r {
            Some(v) => value_of(pairs.deep_view(), key@) == Some(v.deep_view()),
            None => value_of(pairs.deep_view(), key@) is None,
        },
{
    match find(pairs, key) {
        Some(i) => Some(&pairs[i].1),
        None => None,
    }
}

/// Puts `value` beside `key`.
pub fn put<V: DeepView>(pairs: &mut Vec<(String, V)>, key: String, value: V)
    ensures
        final(pairs).deep_view() == with_value(old(pairs).deep_view(), key@, value.deep_view()),
{
    let ghost before = pairs.deep_view();
    match find(pairs, key.as_str()) {
        Some(i) => {
            let ghost k = key@;
            pairs.set(i, (key, value));
            assert(pairs.deep_view() =~= before.update(i as int, (k, value.deep_view())));
        },
        None => {
            let ghost k = key@;
            pairs.push((key, value));
            assert(pairs.deep_view() =~= before.push((k, value.deep_view())));
        },
    }
}

// ---------------------------------------------------------------------------------------------
// Order
// ---------------------------------------------------------------------------------------------
/// `pairs` with a pair put in front of those at the end whose keys come after its own.
pub open spec fn with_pair<V>(pairs: Seq<(Seq<char>, V)>, pair: (Seq<char>, V)) -> Seq<
    (Seq<char>, V),
>
    decreases pairs.len(),
{
    if pairs.len() == 0 || !before(pair.0, pairs.last().0) {
        pairs.push(pair)
    } else {
        with_pair(pairs.drop_last(), pair).push(pairs.last())
    }
}

/// The pairs by their keys; those with one key in the order in which they stood.
pub open spec fn by_key<V>(pairs: Seq<(Seq<char>, V)>) -> Seq<(Seq<char>, V)>
    decreases pairs.len(),
{
    if pairs.len() == 0 {
        pairs
    } else {
        with_pair(by_key(pairs.drop_last()), pairs.last())
    }
}

/// No pair has a key that comes after that of a later pair.
pub open spec fn keys_ordered<V>(pairs: Seq<(Seq<char>, V)>) -> bool {
    forall|i: int, j: int|
        0 <= i < j < pairs.len() ==> !before((#[trigger] pairs[j]).0, (#[trigger] pairs[i]).0)
}

proof fn lemma_with_pair_at<V>(pairs: Seq<(Seq<char>, V)>, pair: (Seq<char>, V), i: int)
    requires
        0 <= i <= pairs.len(),
        forall|j: int| i <= j < pairs.len() ==> before(pair.0, (#[trigger] pairs[j]).0),
        i > 0 ==> !before(pair.0, pairs[i - 1].0),
    ensures
        with_pair(pairs, pair) == pairs.insert(i, pair),
    decreases pairs.len() - i,
{
    if i == pairs.len() {
        assert(pairs.insert(i, pair) =~= pairs.push(pair));
    } else {
        let d = pairs.drop_last();
        assert(before(pair.0, pairs[pairs.len() - 1].0));
        lemma_with_pair_at(d, pair, i);
        assert(d.insert(i, pair).push(pairs.last()) =~= pairs.insert(i, pair));
    }
}

proof fn lemma_with_pair<V>(pairs: Seq<(Seq<char>, V)>, pair: (Seq<char>, V))
    requires
        keys_ordered(pairs),
    ensures
        keys_ordered(with_pair(pairs, pair)),
        with_pair(pairs, pair).to_multiset() == pairs.to_multiset().insert(pair),
    decreases pairs.len(),
{
    broadcast use vstd::seq_lib::group_to_multiset_ensures;

    if pairs.len() == 0 || !before(pair.0, pairs.last().0) {
        let out = pairs.push(pair);
        assert forall|i: int, j: int| 0 <= i < j < out.len() implies !before(
            (#[trigger] out[j]).0,
            (#[trigger] out[i]).0,
        ) by {
            if j == pairs.len() && i < pairs.len() - 1 {
                // out[i] does not come after the last pair, which does not come after the new one.
                let last = pairs.last();
                assert(pairs[pairs.len() - 1] == last && pairs[i] == out[i]);
                lemma_before_total(pair.0, out[i].0);
                lemma_before_total(last.0, out[i].0);
                if before(pair.0, out[i].0) {
                    if out[i].0 == last.0 {
                    } else {
                        lemma_before_transitive(pair.0, out[i].0, last.0);
                    }
                }
            }
        }
    } else {
        let d = pairs.drop_last();
        assert forall|i: int, j: int| 0 <= i < j < d.len() implies !before(
            (#[trigger] d[j]).0,
            (#[trigger] d[i]).0,
        ) by {
            assert(pairs[i] == d[i] && pairs[j] == d[j]);
        }
        lemma_with_pair(d, pair);
        let e = with_pair(d, pair);
        let last = pairs.last();
        let out = e.push(last);
        assert(pairs =~= d.push(last));
        assert forall|i: int, j: int| 0 <= i < j < out.len() implies !before(
            (#[trigger] out[j]).0,
            (#[trigger] out[i]).0,
        ) by {
            if j == e.len() {
                assert(e.to_multiset().contains(out[i])) by {
                    assert(e[i] == out[i]);
                    assert(e.contains(out[i]));
                }
                if out[i] != pair {
                    assert(d.to_multiset().contains(out[i]));
                    assert(d.contains(out[i]));
                    let k = choose|k: int| 0 <= k < d.len() && d[k] == out[i];
                    assert(pairs[k] == out[i] && pairs[pairs.len() - 1] == last);
                } else {
                    lemma_before_total(last.0, pair.0);
                    if before(last.0, pair.0) {
                        lemma_before_transitive(last.0, pair.0, last.0);
                        lemma_before_total(last.0, last.0);
                    }
                }
            }
        }
        assert(out.to_multiset() =~= pairs.to_multiset().insert(pair));
    }
}

/// Ordering pairs by their keys puts no pair behind one with a later key, and keeps just the pairs
/// that there were.
pub proof fn law_by_key<V>(pairs: Seq<(Seq<char>, V)>)
    ensures
        keys_ordered(by_key(pairs)),
        by_key(pairs).to_multiset() == pairs.to_multiset(),
        by_key(pairs).len() == pairs.len(),
    decreases pairs.len(),
{
    broadcast use vstd::seq_lib::group_to_multiset_ensures;

    if pairs.len() > 0 {
        law_by_key(pairs.drop_last());
        lemma_with_pair(by_key(pairs.drop_last()), pairs.last());
        assert(pairs =~= pairs.drop_last().push(pairs.last()));
        assert(by_key(pairs).to_multiset().len() == by_key(pairs).len());
    }
}

/// Two lists of the same pairs, in which no key stands twice, are the same once they are ordered.
pub proof fn law_order_is_unique<V>(one: Seq<(Seq<char>, V)>, other: Seq<(Seq<char>, V)>)
    requires
        one.to_multiset() == other.to_multiset(),
        keys_unique(one),
    ensures
        by_key(one) == by_key(other),
{
    broadcast use vstd::seq_lib::group_to_multiset_ensures;

    law_by_key(one);
    law_by_key(other);
    let a = by_key(one);
    let b = by_key(other);
    assert(one.len() == one.to_multiset().len() && other.len() == other.to_multiset().len());
    assert forall|x: (Seq<char>, V), y: (Seq<char>, V)|
        a.to_multiset().contains(x) && a.to_multiset().contains(y) && x.0 == y.0 implies x
        == y by {
        assert(one.contains(x) && one.contains(y));
        let i = choose|i: int| 0 <= i < one.len() && one[i] == x;
        let j = choose|j: int| 0 <= j < one.len() && one[j] == y;
        if i < j {
            assert(one[i].0 != one[j].0);
        } else if j < i {
            assert(one[j].0 != one[i].0);
        }
    }
    lemma_same_order(a, b);
}

proof fn lemma_same_order<V>(a: Seq<(Seq<char>, V)>, b: Seq<(Seq<char>, V)>)
    requires
        a.to_multiset() == b.to_multiset(),
        a.len() == b.len(),
        keys_ordered(a),
        keys_ordered(b),
        forall|x: (Seq<char>, V), y: (Seq<char>, V)|
            a.to_multiset().contains(x) && a.to_multiset().contains(y) && x.0 == y.0 ==> x == y,
    ensures
        a == b,
    decreases a.len(),
{
    broadcast use vstd::seq_lib::group_to_multiset_ensures;

    if a.len() == 0 {
        assert(a =~= b);
    } else {
        let x = a.last();
        let y = b.last();
        assert(a.contains(x) && b.contains(y));
        assert(a.to_multiset().contains(x) && a.to_multiset().contains(y));
        assert(b.contains(x) && a.contains(y));
        let i = choose|i: int| 0 <= i < b.len() && b[i] == x;
        let j = choose|j: int| 0 <= j < a.len() && a[j] == y;
        assert(x.0 == y.0) by {
            lemma_before_total(x.0, y.0);
            if i < b.len() - 1 {
                assert(!before(b[b.len() - 1].0, b[i].0));
            }
            if j < a.len() - 1 {
                assert(!before(a[a.len() - 1].0, a[j].0));
            }
        }
        assert(x == y);
        let c = a.drop_last();
        let d = b.drop_last();
        assert(a =~= c.push(x) && b =~= d.push(y));
        assert(c.to_multiset() =~= a.to_multiset().remove(x));
        assert(d.to_multiset() =~= b.to_multiset().remove(y));
        assert forall|k: int, m: int| 0 <= k < m < c.len() implies !before(
            (#[trigger] c[m]).0,
            (#[trigger] c[k]).0,
        ) by {
            assert(c[m] == a[m] && c[k] == a[k]);
        }
        assert forall|k: int, m: int| 0 <= k < m < d.len() implies !before(
            (#[trigger] d[m]).0,
            (#[trigger] d[k]).0,
        ) by {
            assert(d[m] == b[m] && d[k] == b[k]);
        }
        assert forall|p: (Seq<char>, V), q: (Seq<char>, V)|
            c.to_multiset().contains(p) && c.to_multiset().contains(q) && p.0 == q.0 implies p
            == q by {
            assert(a.to_multiset().contains(p) && a.to_multiset().contains(q));
        }
        lemma_same_order(c, d);
    }
}

/// Orders pairs by their keys.
pub fn sort_by_key<V: DeepView>(pairs: Vec<(String, V)>) -> (r: Vec<(String, V)>)
    ensures
        r.deep_view() == by_key(pairs.deep_view()),
{
    let ghost all = pairs.deep_view();
    let n: usize = pairs.len();
    let mut left = pairs;
    let mut out: Vec<(String, V)> = Vec::new();
    let mut done: usize = 0;
    assert(out.deep_view() =~= all.take(0));
    assert(left.deep_view() =~= all.skip(0));
    while done < n
        invariant
            done <= n,
            n == all.len(),
            left.deep_view() == all.skip(done as int),
            left@.len() == n - done,
            out.deep_view() == by_key(all.take(done as int)),
        decreases n - done,
    {
        let ghost before_out = out.deep_view();
        let ghost rest = left.deep_view();
        assert(rest[0] == all[done as int]);
        let pair = left.remove(0);
        assert(pair.deep_view() == all[done as int]);
        assert(left.deep_view() =~= rest.drop_first());
        assert(rest.drop_first() =~= all.skip(done + 1));
        let mut i: usize = out.len();
        while i > 0 && comes_before(pair.0.as_str(), out[i - 1].0.as_str())
            invariant
                i <= out@.len(),
                out.deep_view() == before_out,
                forall|j: int|
                    i <= j < before_out.len() ==> before(
                        pair.0@,
                        (#[trigger] before_out[j]).0,
                    ),
            decreases i,
        {
            i = i - 1;
            assert(before_out[i as int].0 == out@[i as int].0@);
        }
        proof {
            if i > 0 {
                assert(before_out[i - 1].0 == out@[i - 1].0@);
            }
            lemma_with_pair_at(before_out, all[done as int], i as int);
        }
        out.insert(i, pair);
        assert(out.deep_view() =~= before_out.insert(i as int, all[done as int]));
        assert(all.take(done + 1).drop_last() =~= all.take(done as int));
        done = done + 1;
    }
    assert(all.take(done as int) =~= all);
    out
}

} // verus!
