//! Property lists kept in key order with each key once: the ordered maps
//! from property names to JSON values that records and requests carry.

use vstd::prelude::*;
use crate::text::chars_of;
use crate::value::{JsonValue, JsonView};
use crate::records::{find_key, lemma_find_key_bounds};

verus! {

/// Strict order of property names: by character, the first difference
/// deciding and a proper prefix coming first. This is the order of `String`
/// (UTF-8 keeps the order of code points).
pub open spec fn key_lt(a: Seq<char>, b: Seq<char>) -> bool
    decreases a.len(),
{
    if b.len() == 0 {
        false
    } else if a.len() == 0 {
        true
    } else if a[0] != b[0] {
        (a[0] as int) < (b[0] as int)
    } else {
        key_lt(a.drop_first(), b.drop_first())
    }
}

/// No name comes before itself.
pub proof fn lemma_key_lt_irreflexive(a: Seq<char>)
    ensures
        !key_lt(a, a),
    decreases a.len(),
{
    if a.len() > 0 {
        lemma_key_lt_irreflexive(a.drop_first());
    }
}

/// The order is transitive.
pub proof fn lemma_key_lt_transitive(a: Seq<char>, b: Seq<char>, c: Seq<char>)
    requires
        key_lt(a, b),
        key_lt(b, c),
    ensures
        key_lt(a, c),
    decreases a.len(),
{
    if a.len() > 0 && b.len() > 0 && c.len() > 0 && a[0] == b[0] && b[0] == c[0] {
        lemma_key_lt_transitive(a.drop_first(), b.drop_first(), c.drop_first());
    }
}

/// Of two different names, one comes first.
pub proof fn lemma_key_lt_total(a: Seq<char>, b: Seq<char>)
    requires
        a != b,
    ensures
        key_lt(a, b) || key_lt(b, a),
    decreases a.len(),
{
    if a.len() > 0 && b.len() > 0 && a[0] == b[0] {
        if a.drop_first() == b.drop_first() {
            assert(a =~= seq![a[0]] + a.drop_first());
            assert(b =~= seq![b[0]] + b.drop_first());
        }
        lemma_key_lt_total(a.drop_first(), b.drop_first());
    } else if a.len() == 0 && b.len() == 0 {
        assert(a =~= b);
    }
}

/// Whether `a` comes before `b` in the order of names.
pub fn key_less(a: &str, b: &str) -> (r: bool)
    ensures
        r == key_lt(a@, b@),
{
    let x = chars_of(a);
    let y = chars_of(b);
    let mut i: usize = 0;
    assert(a@.skip(0) =~= a@);
    assert(b@.skip(0) =~= b@);
    while i < x.len() && i < y.len()
        invariant
            x@ == a@,
            y@ == b@,
            i <= x.len(),
            i <= y.len(),
            key_lt(a@, b@) == key_lt(a@.skip(i as int), b@.skip(i as int)),
        decreases x.len() - i,
    {
        if x[i] != y[i] {
            return x[i] < y[i];
        }
        assert(a@.skip(i as int).drop_first() =~= a@.skip(i as int + 1));
        assert(b@.skip(i as int).drop_first() =~= b@.skip(i as int + 1));
        i = i + 1;
    }
    i < y.len()
}

/// The entries are in strictly increasing key order.
pub open spec fn sorted_keys(s: Seq<(String, JsonValue)>) -> bool {
    forall|i: int, j: int| 0 <= i < j < s.len() ==> key_lt((#[trigger] s[i]).0@, (#[trigger] s[j]).0@)
}

/// The map that the entries describe; a later entry for a key wins.
pub open spec fn prop_map(s: Seq<(String, JsonValue)>) -> Map<Seq<char>, JsonValue>
    decreases s.len(),
{
    if s.len() == 0 {
        Map::empty()
    } else {
        prop_map(s.drop_last()).insert(s.last().0@, s.last().1)
    }
}

/// For entries in key order, the map holds exactly their keys, each with its
/// entry's value.
pub proof fn lemma_prop_map_entries(s: Seq<(String, JsonValue)>)
    requires
        sorted_keys(s),
    ensures
        forall|i: int| 0 <= i < s.len() ==> prop_map(s).dom().contains((#[trigger] s[i]).0@) && prop_map(s)[s[i].0@]
            == s[i].1,
        forall|k: Seq<char>| prop_map(s).dom().contains(k) ==> exists|i: int| 0 <= i < s.len() && (#[trigger] s[i]).0@ == k,
    decreases s.len(),
{
    if s.len() > 0 {
        let t = s.drop_last();
        assert(sorted_keys(t)) by {
            assert forall|i: int, j: int| 0 <= i < j < t.len() implies key_lt((#[trigger] t[i]).0@, (#[trigger] t[j]).0@) by {
                assert(t[i] == s[i] && t[j] == s[j]);
            }
        }
        lemma_prop_map_entries(t);
        assert forall|i: int| 0 <= i < s.len() implies prop_map(s).dom().contains((#[trigger] s[i]).0@) && prop_map(s)[s[i].0@]
            == s[i].1 by {
            if i < s.len() - 1 {
                assert(t[i] == s[i]);
                assert(key_lt(s[i].0@, s[s.len() - 1].0@));
                lemma_key_lt_irreflexive(s[i].0@);
            }
        }
        assert forall|k: Seq<char>| prop_map(s).dom().contains(k) implies exists|i: int| 0 <= i < s.len() && (#[trigger] s[i]).0@ == k by {
            if k == s.last().0@ {
                assert(s[s.len() - 1].0@ == k);
            } else {
                assert(prop_map(t).dom().contains(k));
                let i = choose|i: int| 0 <= i < t.len() && (#[trigger] t[i]).0@ == k;
                assert(s[i] == t[i]);
            }
        }
    }
}

/// Sets `key` to `value` in a property list kept in key order: an entry
/// with that key is replaced, otherwise a new entry goes where the order
/// puts it.
pub fn insert_prop(props: &mut Vec<(String, JsonValue)>, key: String, value: JsonValue)
    requires
        sorted_keys(old(props)@),
    ensures
        sorted_keys(final(props)@),
        prop_map(final(props)@) == prop_map(old(props)@).insert(key@, value),
{
    let ghost s = props@;
    let ghost k = key@;
    let ghost v = value;
    let mut i: usize = 0;
    while i < props.len() && key_less(props[i].0.as_str(), key.as_str())
        invariant
            props@ == s,
            k == key@,
            sorted_keys(s),
            i <= s.len(),
            forall|j: int| 0 <= j < i ==> key_lt((#[trigger] s[j]).0@, k),
        decreases s.len() - i,
    {
        i = i + 1;
    }
    proof {
        lemma_prop_map_entries(s);
    }
    let replace = i < props.len() && crate::text::str_eq(props[i].0.as_str(), key.as_str());
    if replace {
        props.remove(i);
        props.insert(i, (key, value));
        let ghost t = props@;
        assert(t =~= s.update(i as int, (t[i as int].0, v)));
        assert(sorted_keys(t)) by {
            assert forall|a: int, b: int| 0 <= a < b < t.len() implies key_lt((#[trigger] t[a]).0@, (#[trigger] t[b]).0@) by {
                assert(key_lt(s[a].0@, s[b].0@));
            }
        }
        proof {
            lemma_prop_map_entries(t);
            assert forall|q: Seq<char>| #[trigger] prop_map(t).dom().contains(q) == prop_map(s).insert(k, v).dom().contains(q) by {
                if prop_map(t).dom().contains(q) {
                    let j = choose|j: int| 0 <= j < t.len() && (#[trigger] t[j]).0@ == q;
                    if j != i {
                        assert(t[j] == s[j]);
                    }
                }
                if prop_map(s).dom().contains(q) {
                    let j = choose|j: int| 0 <= j < s.len() && (#[trigger] s[j]).0@ == q;
                    if j != i {
                        assert(t[j] == s[j]);
                    } else {
                        assert(t[j].0@ == q);
                    }
                }
                if q == k {
                    assert(t[i as int].0@ == k);
                }
            }
            assert forall|q: Seq<char>| #[trigger] prop_map(t).dom().contains(q) implies prop_map(t)[q] == prop_map(s).insert(k, v)[q] by {
                let j = choose|j: int| 0 <= j < t.len() && (#[trigger] t[j]).0@ == q;
                if j != i {
                    assert(t[j] == s[j]);
                    assert(q != k) by {
                        lemma_key_lt_irreflexive(k);
                    }
                }
            }
            assert(prop_map(t) =~= prop_map(s).insert(k, v));
        }
    } else {
        props.insert(i, (key, value));
        let ghost t = props@;
        assert(t =~= s.insert(i as int, (t[i as int].0, v)));
        proof {
            if i < s.len() {
                assert(s[i as int].0@ != k);
                assert(!key_lt(s[i as int].0@, k));
                lemma_key_lt_total(s[i as int].0@, k);
            }
        }
        assert(sorted_keys(t)) by {
            assert forall|a: int, b: int| 0 <= a < b < t.len() implies key_lt((#[trigger] t[a]).0@, (#[trigger] t[b]).0@) by {
                if b < i {
                    assert(key_lt(s[a].0@, s[b].0@));
                } else if b == i {
                    assert(key_lt(s[a].0@, k));
                } else if a < i {
                    assert(key_lt(s[a].0@, k));
                    assert(key_lt(k, s[i as int].0@));
                    if b - 1 > i {
                        assert(key_lt(s[i as int].0@, s[b - 1].0@));
                        lemma_key_lt_transitive(k, s[i as int].0@, s[b - 1].0@);
                    }
                    lemma_key_lt_transitive(s[a].0@, k, s[b - 1].0@);
                } else if a == i {
                    assert(key_lt(k, s[i as int].0@));
                    if b - 1 > i {
                        assert(key_lt(s[i as int].0@, s[b - 1].0@));
                        lemma_key_lt_transitive(k, s[i as int].0@, s[b - 1].0@);
                    }
                } else {
                    assert(key_lt(s[a - 1].0@, s[b - 1].0@));
                }
            }
        }
        proof {
            lemma_prop_map_entries(t);
            assert forall|q: Seq<char>| #[trigger] prop_map(t).dom().contains(q) == prop_map(s).insert(k, v).dom().contains(q) by {
                if prop_map(t).dom().contains(q) {
                    let j = choose|j: int| 0 <= j < t.len() && (#[trigger] t[j]).0@ == q;
                    if j < i {
                        assert(t[j] == s[j]);
                    } else if j > i {
                        assert(t[j] == s[j - 1]);
                    }
                }
                if prop_map(s).dom().contains(q) {
                    let j = choose|j: int| 0 <= j < s.len() && (#[trigger] s[j]).0@ == q;
                    if j < i {
                        assert(t[j] == s[j]);
                    } else {
                        assert(t[j + 1] == s[j]);
                    }
                }
                if q == k {
                    assert(t[i as int].0@ == k);
                }
            }
            assert forall|q: Seq<char>| #[trigger] prop_map(t).dom().contains(q) implies prop_map(t)[q] == prop_map(s).insert(k, v)[q] by {
                let j = choose|j: int| 0 <= j < t.len() && (#[trigger] t[j]).0@ == q;
                if j != i {
                    lemma_key_lt_irreflexive(k);
                    if j < i {
                        assert(t[j] == s[j]);
                        assert(key_lt(s[j].0@, k));
                    } else {
                        assert(t[j] == s[j - 1]);
                        assert(key_lt(k, t[j].0@));
                    }
                }
            }
            assert(prop_map(t) =~= prop_map(s).insert(k, v));
        }
    }
}


/// The map of plain values that the entries describe; a later entry wins.
pub open spec fn props_view(s: Seq<(String, JsonValue)>) -> Map<Seq<char>, JsonView>
    decreases s.len(),
{
    if s.len() == 0 {
        Map::empty()
    } else {
        props_view(s.drop_last()).insert(s.last().0@, s.last().1@)
    }
}

/// The map of plain values has the keys of the map of values, each value
/// seen as plain data.
pub proof fn lemma_props_view(s: Seq<(String, JsonValue)>)
    ensures
        forall|k: Seq<char>| #[trigger] props_view(s).dom().contains(k) == prop_map(s).dom().contains(k),
        forall|k: Seq<char>| #[trigger] props_view(s).dom().contains(k) ==> props_view(s)[k] == prop_map(s)[k]@,
    decreases s.len(),
{
    if s.len() > 0 {
        let t = s.drop_last();
        lemma_props_view(t);
        assert forall|k: Seq<char>| #[trigger] props_view(s).dom().contains(k) == prop_map(s).dom().contains(k) by {
            assert(props_view(t).dom().contains(k) == prop_map(t).dom().contains(k));
        }
        assert forall|k: Seq<char>| #[trigger] props_view(s).dom().contains(k) implies props_view(s)[k] == prop_map(s)[k]@ by {
            if k != s.last().0@ {
                assert(props_view(t).dom().contains(k));
            }
        }
    }
}

/// A key that `find_key` does not find is on no entry.
pub proof fn lemma_find_key_none(m: Seq<(String, JsonValue)>, k: Seq<char>)
    ensures
        find_key(m, k) is None ==> forall|i: int| 0 <= i < m.len() ==> (#[trigger] m[i]).0@ != k,
    decreases m.len(),
{
    if m.len() > 0 {
        lemma_find_key_none(m.drop_last(), k);
        if find_key(m, k) is None {
            assert forall|i: int| 0 <= i < m.len() implies (#[trigger] m[i]).0@ != k by {
                if i < m.len() - 1 {
                    assert(m[i] == m.drop_last()[i]);
                }
            }
        }
    }
}

/// In a list kept in key order, `find_key` finds a key exactly when the map
/// holds it, at the entry holding its value.
pub proof fn lemma_find_key_sorted(s: Seq<(String, JsonValue)>, k: Seq<char>)
    requires
        sorted_keys(s),
    ensures
        find_key(s, k) matches Some(i) ==> 0 <= i < s.len() && s[i].0@ == k && prop_map(s).dom().contains(k)
            && prop_map(s)[k] == s[i].1,
        find_key(s, k) is None ==> !prop_map(s).dom().contains(k),
{
    lemma_prop_map_entries(s);
    lemma_find_key_bounds(s, k);
    lemma_find_key_none(s, k);
}

/// Removing an entry from a list kept in key order keeps the order and
/// removes the entry's key from the map.
pub proof fn lemma_remove_sorted(s: Seq<(String, JsonValue)>, i: int)
    requires
        sorted_keys(s),
        0 <= i < s.len(),
    ensures
        sorted_keys(s.remove(i)),
        prop_map(s.remove(i)) == prop_map(s).remove(s[i].0@),
{
    let t = s.remove(i);
    let k = s[i].0@;
    assert(sorted_keys(t)) by {
        assert forall|a: int, b: int| 0 <= a < b < t.len() implies key_lt((#[trigger] t[a]).0@, (#[trigger] t[b]).0@) by {
            let a2 = if a < i { a } else { a + 1 };
            let b2 = if b < i { b } else { b + 1 };
            assert(t[a] == s[a2] && t[b] == s[b2]);
        }
    }
    lemma_prop_map_entries(s);
    lemma_prop_map_entries(t);
    assert forall|q: Seq<char>| #[trigger] prop_map(t).dom().contains(q) == prop_map(s).remove(k).dom().contains(q) by {
        if prop_map(t).dom().contains(q) {
            let j = choose|j: int| 0 <= j < t.len() && (#[trigger] t[j]).0@ == q;
            let j2 = if j < i { j } else { j + 1 };
            assert(t[j] == s[j2]);
            if j2 < i {
                assert(key_lt(s[j2].0@, k));
            } else {
                assert(key_lt(k, s[j2].0@));
            }
            lemma_key_lt_irreflexive(k);
        }
        if prop_map(s).remove(k).dom().contains(q) {
            let j = choose|j: int| 0 <= j < s.len() && (#[trigger] s[j]).0@ == q;
            if j < i {
                assert(t[j] == s[j]);
            } else {
                assert(t[j - 1] == s[j]);
            }
        }
    }
    assert forall|q: Seq<char>| #[trigger] prop_map(t).dom().contains(q) implies prop_map(t)[q] == prop_map(s).remove(k)[q] by {
        let j = choose|j: int| 0 <= j < t.len() && (#[trigger] t[j]).0@ == q;
        let j2 = if j < i { j } else { j + 1 };
        assert(t[j] == s[j2]);
    }
    assert(prop_map(t) =~= prop_map(s).remove(k));
}

} // verus!
