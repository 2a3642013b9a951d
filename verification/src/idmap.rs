//! Maps keyed by id, read back in increasing order of id.

use vstd::prelude::*;
use std::collections::BTreeMap;
use crate::snapshot::{ids_increasing, id_map, lemma_id_map_entries};

verus! {

broadcast use vstd::std_specs::btree::group_btree_axioms;
use vstd::std_specs::btree::{increasing_seq, spec_keys_iter};
use vstd::std_specs::cmp::OrdSpec;
use vstd::std_specs::iter::IteratorSpec;

/// Ids compare as the integers they are.
pub open spec fn ids_ordered() -> bool {
    vstd::laws_cmp::obeys_cmp::<i64>()
}

/// Ids and references to ids are ordered as integers.
pub proof fn lemma_ids_ordered()
    ensures
        ids_ordered(),
        vstd::laws_cmp::obeys_cmp::<i64>(),
        vstd::laws_cmp::obeys_cmp::<&i64>(),
{
    broadcast use vstd::laws_cmp::group_laws_cmp;
}

/// Ids a map's key iterator yields come in increasing order.
proof fn lemma_increasing_ids(s: Seq<&i64>)
    requires
        increasing_seq(s),
    ensures
        forall|i: int, j: int| 0 <= i < j < s.len() ==> *s[i] < *s[j],
{
    lemma_ids_ordered();
    vstd::std_specs::btree::axiom_increasing_seq_meaning::<&i64>(s);
    assert forall|i: int, j: int| 0 <= i < j < s.len() implies *s[i] < *s[j] by {
        assert(OrdSpec::cmp_spec(&s[i], &s[j]) is Less);
    }
}

/// The ids of a map, in increasing order.
pub fn keys_in_order<T>(m: &BTreeMap<i64, T>) -> (r: Vec<i64>)
    ensures
        forall|i: int, j: int| 0 <= i < j < r@.len() ==> r@[i] < r@[j],
        r@.to_set() == m@.dom(),
{
    proof {
        lemma_ids_ordered();
    }
    let ghost s0 = spec_keys_iter(m).remaining();
    let mut r: Vec<i64> = Vec::new();
    for k in it: m.keys()
        invariant
            s0 == spec_keys_iter(m).remaining(),
            it.seq() == s0,
            r@ == s0.take(it.index()).map_values(|x: &i64| *x),
    {
        r.push(*k);
        assert(r@ =~= s0.take(it.index() + 1).map_values(|x: &i64| *x));
    }
    assert(r@ =~= s0.map_values(|x: &i64| *x));
    proof {
        lemma_increasing_ids(s0);
        assert(r@ =~= s0.unref());
    }
    r
}

/// The entries of a map keyed by id, in increasing order of id.
pub fn into_sorted_entries<T>(m: BTreeMap<i64, T>) -> (r: Vec<(i64, T)>)
    ensures
        ids_increasing(r@),
        id_map(r@) == m@,
{
    proof {
        lemma_ids_ordered();
    }
    let ghost m0 = m@;
    let keys = keys_in_order(&m);
    let mut m = m;
    let mut r: Vec<(i64, T)> = Vec::new();
    let mut i: usize = 0;
    while i < keys.len()
        invariant
            ids_ordered(),
            forall|a: int, b: int| 0 <= a < b < keys@.len() ==> keys@[a] < keys@[b],
            keys@.to_set() == m0.dom(),
            i <= keys@.len(),
            r@.len() == i,
            forall|j: int| 0 <= j < i ==> (#[trigger] r@[j]).0 == keys@[j] && r@[j].1 == m0[keys@[j]],
            forall|k: i64| #[trigger] m@.contains_key(k) <==> m0.contains_key(k) && !keys@.take(i as int).contains(k),
            forall|k: i64| #[trigger] m@.contains_key(k) ==> m@[k] == m0[k],
        decreases keys.len() - i,
    {
        let k = keys[i];
        assert(keys@.to_set().contains(k));
        assert(!keys@.take(i as int).contains(k)) by {
            if keys@.take(i as int).contains(k) {
                let j = choose|j: int| 0 <= j < i && #[trigger] keys@.take(i as int)[j] == k;
                assert(keys@[j] == k);
            }
        }
        let v = m.remove(&k);
        match v {
            Some(x) => {
                r.push((k, x));
            },
            None => {
                assert(false);
            },
        }
        assert forall|k2: i64| #[trigger] m@.contains_key(k2) <==> m0.contains_key(k2) && !keys@.take(i as int + 1).contains(k2) by {
            if keys@.take(i as int + 1).contains(k2) && k2 != k {
                let j = choose|j: int| 0 <= j < i + 1 && #[trigger] keys@.take(i as int + 1)[j] == k2;
                assert(keys@.take(i as int)[j] == k2);
            }
            if keys@.take(i as int).contains(k2) {
                let j = choose|j: int| 0 <= j < i && #[trigger] keys@.take(i as int)[j] == k2;
                assert(keys@.take(i as int + 1)[j] == k2);
            }
            if k2 == k {
                assert(keys@.take(i as int + 1)[i as int] == k);
            }
        }
        i = i + 1;
    }
    assert(ids_increasing(r@));
    proof {
        lemma_id_map_entries(r@);
        assert forall|k: i64| id_map(r@).dom().contains(k) <==> m0.dom().contains(k) by {
            if m0.dom().contains(k) {
                assert(keys@.to_set().contains(k));
                let j = choose|j: int| 0 <= j < keys@.len() && #[trigger] keys@[j] == k;
                assert(r@[j].0 == k);
            }
            if id_map(r@).dom().contains(k) {
                let j = choose|j: int| 0 <= j < r@.len() && (#[trigger] r@[j]).0 == k;
                assert(keys@.contains(keys@[j]));
            }
        }
        assert forall|k: i64| id_map(r@).dom().contains(k) implies id_map(r@)[k] == m0[k] by {
            let j = choose|j: int| 0 <= j < r@.len() && (#[trigger] r@[j]).0 == k;
        }
        assert(id_map(r@) =~= m0);
    }
    r
}
}
