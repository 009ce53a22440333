//! The fields of a payload as a mapping from name to value, kept in ascending
//! order of the names.

use vstd::prelude::*;
use vstd::string::*;
use vstd::utf8::encode_utf8;
use crate::order::{compare_keys, key_before, lemma_before_asymmetric, lemma_before_total,
    lemma_before_transitive, lemma_utf8_injective, Place};

verus! {

/// A field as text: its name and its value.
pub type Pair = (Seq<char>, Seq<char>);

/// The pairs that a list of owned strings holds.
pub open spec fn text_pairs(list: Seq<(String, String)>) -> Seq<Pair> {
    Seq::new(list.len(), |i: int| (list[i].0@, list[i].1@))
}

/// Some pair of `list` has the name `key`.
pub open spec fn names(list: Seq<Pair>, key: Seq<char>) -> bool {
    exists|i: int| 0 <= i < list.len() && #[trigger] list[i].0 == key
}

/// The mapping that a list of pairs stands for. Of two pairs with one name the
/// later one counts.
pub open spec fn pairs_map(list: Seq<Pair>) -> Map<Seq<char>, Seq<char>>
    decreases list.len(),
{
    if list.len() == 0 {
        Map::empty()
    } else {
        pairs_map(list.drop_last()).insert(list.last().0, list.last().1)
    }
}

/// No name occurs twice in `list`.
pub open spec fn distinct_names(list: Seq<Pair>) -> bool {
    forall|i: int, j: int| 0 <= i < j < list.len() ==> list[i].0 != list[j].0
}

/// The names of `list` ascend strictly.
pub open spec fn ascending(list: Seq<Pair>) -> bool {
    forall|i: int, j: int| 0 <= i < j < list.len() ==> key_before(list[i].0, list[j].0)
}

/// The one ascending list that stands for `fields`.
pub open spec fn canonical(fields: Map<Seq<char>, Seq<char>>) -> Seq<Pair> {
    choose|list: Seq<Pair>| ascending(list) && pairs_map(list) == fields
}

/// A pair on its line: the name, an equals sign, the value.
pub open spec fn line(pair: Pair) -> Seq<char> {
    pair.0 + seq!['='] + pair.1
}

/// The lines of `list`, a line feed between each two and none at the end.
pub open spec fn lines(list: Seq<Pair>) -> Seq<char>
    decreases list.len(),
{
    if list.len() == 0 {
        Seq::empty()
    } else if list.len() == 1 {
        line(list[0])
    } else {
        lines(list.drop_last()) + seq!['\n'] + line(list.last())
    }
}

/// The text that is signed for `fields`: one line for each field, in ascending
/// order of the names.
pub open spec fn signing_text(fields: Map<Seq<char>, Seq<char>>) -> Seq<char> {
    lines(canonical(fields))
}

/// The names of the mapping are the names of the list.
pub proof fn lemma_map_names(list: Seq<Pair>, key: Seq<char>)
    ensures
        pairs_map(list).contains_key(key) <==> names(list, key),
        pairs_map(list).contains_key(key) ==> exists|i: int|
            0 <= i < list.len() && #[trigger] list[i] == (key, pairs_map(list)[key]),
    decreases list.len(),
{
    if list.len() > 0 {
        let front = list.drop_last();
        let n = list.len() - 1;
        lemma_map_names(front, key);
        if list[n].0 == key {
            assert(list[n] == (key, pairs_map(list)[key]));
        } else {
            if names(list, key) {
                let i = choose|i: int| 0 <= i < list.len() && #[trigger] list[i].0 == key;
                assert(front[i].0 == key);
            }
            if pairs_map(front).contains_key(key) {
                let i = choose|i: int|
                    0 <= i < front.len() && #[trigger] front[i] == (key, pairs_map(front)[key]);
                assert(list[i] == (key, pairs_map(list)[key]));
            }
        }
    }
}

/// A pair after which its name does not come again gives the name its value.
pub proof fn lemma_map_value(list: Seq<Pair>, i: int)
    requires
        0 <= i < list.len(),
        forall|j: int| i < j < list.len() ==> list[j].0 != list[i].0,
    ensures
        pairs_map(list).contains_key(list[i].0),
        pairs_map(list)[list[i].0] == list[i].1,
    decreases list.len(),
{
    if i < list.len() - 1 {
        let front = list.drop_last();
        assert(front[i] == list[i]);
        assert forall|j: int| i < j < front.len() implies front[j].0 != front[i].0 by {
            assert(front[j] == list[j]);
        }
        lemma_map_value(front, i);
    }
}

/// In an ascending list no name occurs twice.
pub proof fn lemma_ascending_distinct(list: Seq<Pair>)
    requires
        ascending(list),
    ensures
        distinct_names(list),
{
    assert forall|i: int, j: int| 0 <= i < j < list.len() implies list[i].0 != list[j].0 by {
        assert(key_before(list[i].0, list[j].0));
        lemma_before_asymmetric(encode_utf8(list[i].0), encode_utf8(list[j].0));
    }
}

/// Two ascending lists that stand for the same mapping are the same list.
pub proof fn lemma_ascending_unique(a: Seq<Pair>, b: Seq<Pair>)
    requires
        ascending(a),
        ascending(b),
        pairs_map(a) == pairs_map(b),
    ensures
        a == b,
    decreases a.len(),
{
    lemma_ascending_distinct(a);
    lemma_ascending_distinct(b);
    if a.len() == 0 {
        if b.len() > 0 {
            lemma_map_value(b, 0);
        }
        assert(a =~= b);
    } else if b.len() == 0 {
        lemma_map_value(a, 0);
    } else {
        let m = a.len() - 1;
        let n = b.len() - 1;
        lemma_map_value(a, m);
        lemma_map_value(b, n);
        lemma_map_names(a, b[n].0);
        lemma_map_names(b, a[m].0);
        let i = choose|i: int| 0 <= i < a.len() && #[trigger] a[i].0 == b[n].0;
        let j = choose|j: int| 0 <= j < b.len() && #[trigger] b[j].0 == a[m].0;
        if i < m && j < n {
            // each list would hold its last name before the other's
            assert(key_before(a[i].0, a[m].0));
            assert(key_before(b[j].0, b[n].0));
            lemma_before_asymmetric(encode_utf8(a[i].0), encode_utf8(a[m].0));
        }
        assert(a[m].0 == b[n].0);
        assert(a[m] == b[n]);
        let x = a.drop_last();
        let y = b.drop_last();
        assert forall|k: Seq<char>| #[trigger]
            pairs_map(x).dom().contains(k) <==> pairs_map(y).dom().contains(k) by {
            lemma_front_of_distinct(a, k);
            lemma_front_of_distinct(b, k);
        }
        assert(pairs_map(x).dom() =~= pairs_map(y).dom());
        assert forall|k: Seq<char>| pairs_map(x).dom().contains(k) implies (#[trigger] pairs_map(
            x,
        )[k]) == pairs_map(y)[k] by {
            lemma_front_of_distinct(a, k);
            lemma_front_of_distinct(b, k);
        }
        assert(pairs_map(x) =~= pairs_map(y));
        lemma_ascending_unique(x, y);
        assert(a =~= x.push(a[m]));
        assert(b =~= y.push(b[n]));
    }
}

/// Without its last pair, a list of distinct names stands for the mapping
/// without the last name.
pub proof fn lemma_front_of_distinct(list: Seq<Pair>, key: Seq<char>)
    requires
        list.len() > 0,
        distinct_names(list),
    ensures
        pairs_map(list.drop_last()).contains_key(key) <==> (pairs_map(list).contains_key(key)
            && key != list.last().0),
        pairs_map(list.drop_last()).contains_key(key) ==> pairs_map(list.drop_last())[key]
            == pairs_map(list)[key],
{
    let front = list.drop_last();
    lemma_map_names(front, key);
    if names(front, key) {
        let i = choose|i: int| 0 <= i < front.len() && #[trigger] front[i].0 == key;
        assert(list[i].0 == key);
    }
}

/// An ascending list is the canonical list of its mapping.
pub proof fn lemma_canonical(list: Seq<Pair>)
    requires
        ascending(list),
    ensures
        canonical(pairs_map(list)) == list,
{
    let other = canonical(pairs_map(list));
    lemma_ascending_unique(other, list);
}

/// What a list of distinct names says of its mapping: each pair of the list is
/// an entry of the mapping, and each entry is a pair of the list.
pub proof fn lemma_map_of_distinct(list: Seq<Pair>)
    requires
        distinct_names(list),
    ensures
        forall|p: Pair| #[trigger]
            list.contains(p) ==> pairs_map(list).contains_key(p.0) && pairs_map(list)[p.0] == p.1,
        forall|k: Seq<char>| #[trigger]
            pairs_map(list).contains_key(k) ==> list.contains((k, pairs_map(list)[k])),
{
    assert forall|p: Pair| #[trigger] list.contains(p) implies pairs_map(list).contains_key(p.0)
        && pairs_map(list)[p.0] == p.1 by {
        let i = choose|i: int| 0 <= i < list.len() && list[i] == p;
        lemma_map_value(list, i);
    }
    assert forall|k: Seq<char>| #[trigger] pairs_map(list).contains_key(k) implies list.contains(
        (k, pairs_map(list)[k]),
    ) by {
        lemma_map_names(list, k);
        let i = choose|i: int|
            0 <= i < list.len() && #[trigger] list[i] == (k, pairs_map(list)[k]);
        assert(list[i] == (k, pairs_map(list)[k]));
    }
}

/// A list of distinct names that holds the pairs of another one, but for the
/// name `key`, which it gives `value`, stands for the other's mapping with that
/// entry put in.
pub proof fn lemma_map_put(old_list: Seq<Pair>, new_list: Seq<Pair>, key: Seq<char>, value: Seq<char>)
    requires
        distinct_names(old_list),
        distinct_names(new_list),
        forall|p: Pair| #[trigger]
            new_list.contains(p) <==> p == (key, value) || (old_list.contains(p) && p.0 != key),
    ensures
        pairs_map(new_list) == pairs_map(old_list).insert(key, value),
{
    let a = pairs_map(new_list);
    let b = pairs_map(old_list).insert(key, value);
    lemma_map_of_distinct(old_list);
    lemma_map_of_distinct(new_list);
    assert(new_list.contains((key, value)));
    assert forall|k: Seq<char>| #[trigger] a.dom().contains(k) <==> b.dom().contains(k) by {
        if a.contains_key(k) {
            assert(new_list.contains((k, a[k])));
        }
        if k != key && pairs_map(old_list).contains_key(k) {
            assert(old_list.contains((k, pairs_map(old_list)[k])));
            assert(new_list.contains((k, pairs_map(old_list)[k])));
        }
    }
    assert(a.dom() =~= b.dom());
    assert forall|k: Seq<char>| a.dom().contains(k) implies (#[trigger] a[k]) == b[k] by {
        assert(new_list.contains((k, a[k])));
    }
    assert(a =~= b);
}

/// A list of distinct names that holds the pairs of another one, but for the
/// name `key`, stands for the other's mapping without that name.
pub proof fn lemma_map_drop(old_list: Seq<Pair>, new_list: Seq<Pair>, key: Seq<char>)
    requires
        distinct_names(old_list),
        distinct_names(new_list),
        forall|p: Pair| #[trigger] new_list.contains(p) <==> old_list.contains(p) && p.0 != key,
    ensures
        pairs_map(new_list) == pairs_map(old_list).remove(key),
{
    let a = pairs_map(new_list);
    let b = pairs_map(old_list).remove(key);
    lemma_map_of_distinct(old_list);
    lemma_map_of_distinct(new_list);
    assert forall|k: Seq<char>| #[trigger] a.dom().contains(k) <==> b.dom().contains(k) by {
        if a.contains_key(k) {
            assert(new_list.contains((k, a[k])));
        }
        if k != key && pairs_map(old_list).contains_key(k) {
            assert(old_list.contains((k, pairs_map(old_list)[k])));
            assert(new_list.contains((k, pairs_map(old_list)[k])));
        }
    }
    assert(a.dom() =~= b.dom());
    assert forall|k: Seq<char>| a.dom().contains(k) implies (#[trigger] a[k]) == b[k] by {
        assert(new_list.contains((k, a[k])));
    }
    assert(a =~= b);
}

/// An ascending list with one more entry put in: the ascending list of the
/// mapping with that entry.
pub proof fn lemma_put(list: Seq<Pair>, key: Seq<char>, value: Seq<char>) -> (put: Seq<Pair>)
    requires
        ascending(list),
    ensures
        ascending(put),
        pairs_map(put) == pairs_map(list).insert(key, value),
    decreases list.len(),
{
    if list.len() == 0 {
        let put = seq![(key, value)];
        assert(put.drop_last() =~= list);
        put
    } else {
        let front = list.drop_last();
        let last = list.last();
        lemma_before_total(encode_utf8(last.0), encode_utf8(key));
        if last.0 != key && encode_utf8(last.0) == encode_utf8(key) {
            lemma_utf8_injective(last.0, key);
        }
        if key_before(last.0, key) {
            let put = list.push((key, value));
            assert(put.drop_last() =~= list);
            assert forall|i: int, j: int| 0 <= i < j < put.len() implies key_before(
                put[i].0,
                put[j].0,
            ) by {
                if j < list.len() {
                    assert(key_before(list[i].0, list[j].0));
                } else if i < list.len() - 1 {
                    assert(key_before(list[i].0, list[list.len() - 1].0));
                    lemma_before_transitive(
                        encode_utf8(list[i].0),
                        encode_utf8(last.0),
                        encode_utf8(key),
                    );
                }
            }
            put
        } else if last.0 == key {
            let put = front.push((key, value));
            assert(put.drop_last() =~= front);
            assert forall|i: int, j: int| 0 <= i < j < put.len() implies key_before(
                put[i].0,
                put[j].0,
            ) by {
                assert(key_before(list[i].0, list[j].0));
            }
            assert(pairs_map(put) =~= pairs_map(list).insert(key, value));
            put
        } else {
            assert(ascending(front)) by {
                assert forall|i: int, j: int| 0 <= i < j < front.len() implies key_before(
                    front[i].0,
                    front[j].0,
                ) by {
                    assert(key_before(list[i].0, list[j].0));
                }
            }
            let inner = lemma_put(front, key, value);
            let put = inner.push(last);
            assert(put.drop_last() =~= inner);
            assert forall|i: int, j: int| 0 <= i < j < put.len() implies key_before(
                put[i].0,
                put[j].0,
            ) by {
                if j < inner.len() {
                    assert(key_before(inner[i].0, inner[j].0));
                } else if inner[i].0 != key {
                    lemma_map_names(inner, inner[i].0);
                    lemma_map_names(front, inner[i].0);
                    let at = choose|at: int|
                        0 <= at < front.len() && #[trigger] front[at].0 == inner[i].0;
                    assert(key_before(list[at].0, list[list.len() - 1].0));
                }
            }
            assert(pairs_map(put) =~= pairs_map(list).insert(key, value));
            put
        }
    }
}

/// Every list of pairs has its canonical list: an ascending list that stands
/// for the same mapping. So for the fields of every payload there is a text
/// to sign.
pub proof fn lemma_canonical_exists(list: Seq<Pair>)
    ensures
        ascending(canonical(pairs_map(list))),
        pairs_map(canonical(pairs_map(list))) == pairs_map(list),
    decreases list.len(),
{
    if list.len() == 0 {
        assert(ascending(list));
    } else {
        let front = list.drop_last();
        lemma_canonical_exists(front);
        let put = lemma_put(canonical(pairs_map(front)), list.last().0, list.last().1);
        assert(ascending(put) && pairs_map(put) == pairs_map(list));
    }
}

/// A list of distinct names stands for a mapping of as many entries.
pub proof fn lemma_map_size(list: Seq<Pair>)
    requires
        distinct_names(list),
    ensures
        pairs_map(list).dom().finite(),
        pairs_map(list).len() == list.len(),
    decreases list.len(),
{
    if list.len() > 0 {
        let front = list.drop_last();
        assert(distinct_names(front)) by {
            assert forall|i: int, j: int| 0 <= i < j < front.len() implies front[i].0
                != front[j].0 by {
                assert(list[i].0 != list[j].0);
            }
        }
        lemma_map_size(front);
        lemma_front_of_distinct(list, list.last().0);
    }
}

/// In whatever order a list gives its pairs, it stands for the same mapping,
/// and so the same text is signed for it, as long as it names no field twice.
pub proof fn lemma_order_independent(a: Seq<Pair>, b: Seq<Pair>)
    requires
        distinct_names(a),
        a.to_multiset() == b.to_multiset(),
    ensures
        pairs_map(a) == pairs_map(b),
        signing_text(pairs_map(a)) == signing_text(pairs_map(b)),
{
    let x = pairs_map(a);
    let y = pairs_map(b);
    a.to_multiset_ensures();
    b.to_multiset_ensures();
    lemma_map_of_distinct(a);
    assert forall|k: Seq<char>| y.contains_key(k) implies x.contains_key(k) && x[k] == y[k] by {
        lemma_map_names(b, k);
        let i = choose|i: int| 0 <= i < b.len() && #[trigger] b[i] == (k, y[k]);
        assert(b.contains((k, y[k])));
        assert(b.to_multiset().count((k, y[k])) > 0);
        assert(a.to_multiset().count((k, y[k])) > 0);
    }
    assert forall|k: Seq<char>| #[trigger] x.dom().contains(k) <==> y.dom().contains(k) by {
        if x.contains_key(k) {
            assert(a.contains((k, x[k])));
            assert(a.to_multiset().count((k, x[k])) > 0);
            assert(b.to_multiset().count((k, x[k])) > 0);
            let i = choose|i: int| 0 <= i < b.len() && b[i] == (k, x[k]);
            assert(b[i].0 == k);
            lemma_map_names(b, k);
        }
    }
    assert(x.dom() =~= y.dom());
    assert forall|k: Seq<char>| x.dom().contains(k) implies (#[trigger] x[k]) == y[k] by {
        assert(y.contains_key(k));
    }
    assert(x =~= y);
}

/// Puts the entry into an ascending list: in place of the entry of that name,
/// or where the order asks for it.
fn put(entries: &mut Vec<(String, String)>, key: String, value: String)
    requires
        ascending(text_pairs(old(entries)@)),
    ensures
        ascending(text_pairs(final(entries)@)),
        pairs_map(text_pairs(final(entries)@)) == pairs_map(text_pairs(old(entries)@)).insert(
            key@,
            value@,
        ),
{
    let ghost before = text_pairs(entries@);
    let n = entries.len();
    let mut i: usize = 0;
    let mut stop = false;
    let mut same = false;
    while i < n && !stop
        invariant
            n == entries.len(),
            text_pairs(entries@) == before,
            i <= n,
            forall|j: int| 0 <= j < i ==> key_before(#[trigger] before[j].0, key@),
            stop ==> i < n,
            stop && same ==> before[i as int].0 == key@,
            stop && !same ==> key_before(key@, before[i as int].0),
        decreases n - i + (if stop { 0int } else { 1int }),
    {
        let place = compare_keys(entries[i].0.as_str(), key.as_str());
        if place == Place::Before {
            i = i + 1;
        } else {
            stop = true;
            same = place == Place::Same;
        }
    }
    proof {
        lemma_ascending_distinct(before);
    }
    if stop && same {
        entries[i] = (key, value);
        proof {
            let after = text_pairs(entries@);
            assert(after =~= before.update(i as int, (key@, value@)));
            assert forall|a: int, b: int| 0 <= a < b < after.len() implies key_before(
                after[a].0,
                after[b].0,
            ) by {
                assert(key_before(before[a].0, before[b].0));
            }
            lemma_ascending_distinct(after);
            assert forall|p: Pair| #[trigger]
                after.contains(p) <==> p == (key@, value@) || (before.contains(p) && p.0
                    != key@) by {
                if after.contains(p) {
                    let j = choose|j: int| 0 <= j < after.len() && after[j] == p;
                    if j != i {
                        assert(before[j] == p);
                    }
                }
                if before.contains(p) && p.0 != key@ {
                    let j = choose|j: int| 0 <= j < before.len() && before[j] == p;
                    assert(after[j] == p);
                }
                assert(after[i as int] == (key@, value@));
            }
            lemma_map_put(before, after, key@, value@);
        }
    } else {
        entries.insert(i, (key, value));
        proof {
            let after = text_pairs(entries@);
            assert(after =~= before.insert(i as int, (key@, value@)));
            assert forall|a: int, b: int| 0 <= a < b < after.len() implies key_before(
                after[a].0,
                after[b].0,
            ) by {
                if b < i {
                    assert(key_before(before[a].0, before[b].0));
                } else if b == i {
                    assert(key_before(before[a].0, key@));
                } else if a < i {
                    assert(key_before(before[a].0, before[b - 1].0));
                } else if a == i {
                    if b - 1 > i {
                        assert(key_before(before[i as int].0, before[b - 1].0));
                        lemma_before_transitive(
                            encode_utf8(key@),
                            encode_utf8(before[i as int].0),
                            encode_utf8(before[b - 1].0),
                        );
                    }
                } else {
                    assert(key_before(before[a - 1].0, before[b - 1].0));
                }
            }
            lemma_ascending_distinct(after);
            assert forall|p: Pair| #[trigger]
                after.contains(p) <==> p == (key@, value@) || (before.contains(p) && p.0
                    != key@) by {
                if after.contains(p) {
                    let j = choose|j: int| 0 <= j < after.len() && after[j] == p;
                    if j < i {
                        assert(before[j] == p);
                    } else if j > i {
                        assert(before[j - 1] == p);
                        assert(after[i as int].0 == key@);
                    }
                }
                if before.contains(p) && p.0 != key@ {
                    let j = choose|j: int| 0 <= j < before.len() && before[j] == p;
                    if j < i {
                        assert(after[j] == p);
                    } else {
                        assert(after[j + 1] == p);
                    }
                }
                assert(after[i as int] == (key@, value@));
            }
            lemma_map_put(before, after, key@, value@);
        }
    }
}

/// The place of the entry `key` in an ascending list, if it is there.
fn find(entries: &Vec<(String, String)>, key: &str) -> (at: Option<usize>)
    requires
        ascending(text_pairs(entries@)),
    ensures
        at is Some <==> pairs_map(text_pairs(entries@)).contains_key(key@),
        at matches Some(i) ==> i < entries.len() && entries[i as int].0@ == key@
            && entries[i as int].1@ == pairs_map(text_pairs(entries@))[key@],
{
    let ghost list = text_pairs(entries@);
    let n = entries.len();
    let mut i: usize = 0;
    while i < n
        invariant
            ascending(list),
            list == text_pairs(entries@),
            n == entries.len(),
            i <= n,
            forall|j: int| 0 <= j < i ==> (#[trigger] list[j]).0 != key@,
        decreases n - i,
    {
        if compare_keys(entries[i].0.as_str(), key) == Place::Same {
            proof {
                lemma_ascending_distinct(list);
                lemma_map_value(list, i as int);
            }
            return Some(i);
        }
        i = i + 1;
    }
    proof {
        lemma_map_names(list, key@);
    }
    None
}

/// Takes the entry at `at` out of an ascending list.
fn take(entries: &mut Vec<(String, String)>, at: usize) -> (entry: (String, String))
    requires
        ascending(text_pairs(old(entries)@)),
        at < old(entries).len(),
    ensures
        entry == old(entries)[at as int],
        ascending(text_pairs(final(entries)@)),
        pairs_map(text_pairs(final(entries)@)) == pairs_map(text_pairs(old(entries)@)).remove(
            entry.0@,
        ),
{
    let ghost before = text_pairs(entries@);
    let entry = entries.remove(at);
    proof {
        let after = text_pairs(entries@);
        let key = entry.0@;
        lemma_ascending_distinct(before);
        assert(before[at as int].0 == key);
        assert(after =~= before.remove(at as int));
        assert forall|a: int, b: int| 0 <= a < b < after.len() implies key_before(
            after[a].0,
            after[b].0,
        ) by {
            let x = if a < at { a } else { a + 1 };
            let y = if b < at { b } else { b + 1 };
            assert(key_before(before[x].0, before[y].0));
        }
        lemma_ascending_distinct(after);
        assert forall|p: Pair| #[trigger]
            after.contains(p) <==> before.contains(p) && p.0 != key by {
            if after.contains(p) {
                let j = choose|j: int| 0 <= j < after.len() && after[j] == p;
                let x = if j < at { j } else { j + 1 };
                assert(before[x] == p);
            }
            if before.contains(p) && p.0 != key {
                let j = choose|j: int| 0 <= j < before.len() && before[j] == p;
                let x = if j < at { j } else { j - 1 };
                assert(after[x] == p);
            }
        }
        lemma_map_drop(before, after, key);
    }
    entry
}

/// The fields of a payload: a mapping from each name to its value.
pub struct RawPairs {
    entries: Vec<(String, String)>,
}

impl View for RawPairs {
    type V = Map<Seq<char>, Seq<char>>;

    closed spec fn view(&self) -> Map<Seq<char>, Seq<char>> {
        pairs_map(text_pairs(self.entries@))
    }
}

impl RawPairs {
    /// The fields are kept in strictly ascending order of their names.
    #[verifier::type_invariant]
    spec fn ordered(self) -> bool {
        ascending(text_pairs(self.entries@))
    }

    /// A mapping without fields.
    pub fn new() -> (fields: RawPairs)
        ensures
            fields@ == Map::<Seq<char>, Seq<char>>::empty(),
    {
        let entries: Vec<(String, String)> = Vec::new();
        assert(text_pairs(entries@) =~= Seq::<Pair>::empty());
        RawPairs { entries }
    }

    /// The number of fields.
    pub fn len(&self) -> (n: usize)
        ensures
            n == self@.len(),
    {
        proof {
            use_type_invariant(self);
            lemma_ascending_distinct(text_pairs(self.entries@));
            lemma_map_size(text_pairs(self.entries@));
        }
        self.entries.len()
    }

    /// Gives the field `key` the value `value`, whether or not it had one.
    pub fn insert(&mut self, key: String, value: String)
        ensures
            final(self)@ == old(self)@.insert(key@, value@),
    {
        proof {
            use_type_invariant(&*self);
        }
        let mut entries: Vec<(String, String)> = Vec::new();
        std::mem::swap(&mut entries, &mut self.entries);
        put(&mut entries, key, value);
        self.entries = entries;
    }

    /// The mapping that a list of pairs stands for. Where the list names a
    /// field more than once, the last value counts.
    pub fn from_pairs(pairs: Vec<(String, String)>) -> (fields: RawPairs)
        ensures
            fields@ == pairs_map(text_pairs(pairs@)),
    {
        let mut fields = RawPairs::new();
        let mut i: usize = 0;
        while i < pairs.len()
            invariant
                i <= pairs.len(),
                fields@ == pairs_map(text_pairs(pairs@).take(i as int)),
            decreases pairs.len() - i,
        {
            let key = pairs[i].0.clone();
            let value = pairs[i].1.clone();
            fields.insert(key, value);
            i = i + 1;
            proof {
                let all = text_pairs(pairs@);
                assert(all.take(i as int).drop_last() =~= all.take(i - 1));
            }
        }
        assert(text_pairs(pairs@).take(i as int) =~= text_pairs(pairs@));
        fields
    }

    /// The value of the field `key`, if the mapping has it.
    pub fn get(&self, key: &str) -> (value: Option<&str>)
        ensures
            value is Some <==> self@.contains_key(key@),
            value matches Some(text) ==> text@ == self@[key@],
    {
        proof {
            use_type_invariant(self);
        }
        match find(&self.entries, key) {
            Some(i) => Some(self.entries[i].1.as_str()),
            None => None,
        }
    }

    /// Takes the field `key` out of the mapping and returns its value, if the
    /// mapping had it.
    pub fn remove(&mut self, key: &str) -> (value: Option<String>)
        ensures
            final(self)@ == old(self)@.remove(key@),
            value is Some <==> old(self)@.contains_key(key@),
            value matches Some(text) ==> text@ == old(self)@[key@],
    {
        proof {
            use_type_invariant(&*self);
        }
        match find(&self.entries, key) {
            Some(i) => {
                let mut entries: Vec<(String, String)> = Vec::new();
                std::mem::swap(&mut entries, &mut self.entries);
                let entry = take(&mut entries, i);
                self.entries = entries;
                Some(entry.1)
            },
            None => {
                assert(self@ =~= old(self)@.remove(key@));
                None
            },
        }
    }

    /// The text that is signed for these fields: for each field a line of its
    /// name, an equals sign and its value, the lines in ascending order of the
    /// names, a line feed between each two and none at the end.
    pub fn signing_string(&self) -> (text: String)
        ensures
            text@ == signing_text(self@),
    {
        let ghost list = text_pairs(self.entries@);
        let mut text = String::new();
        let n = self.entries.len();
        let mut i: usize = 0;
        while i < n
            invariant
                list == text_pairs(self.entries@),
                n == self.entries.len(),
                i <= n,
                text@ == lines(list.take(i as int)),
            decreases n - i,
        {
            if i > 0 {
                text.push('\n');
            }
            text.append(self.entries[i].0.as_str());
            text.push('=');
            text.append(self.entries[i].1.as_str());
            i = i + 1;
            proof {
                let now = list.take(i as int);
                assert(now.drop_last() =~= list.take(i - 1));
                assert(now.last() == list[i - 1]);
                assert(text@ =~= lines(now));
            }
        }
        proof {
            use_type_invariant(self);
            assert(list.take(i as int) =~= list);
            lemma_canonical(list);
        }
        text
    }
}

} // verus!
