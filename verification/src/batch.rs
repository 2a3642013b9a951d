//! The per-model counts a batch reply reports, grouped by operation.

use vstd::prelude::*;
use crate::text::str_eq;

verus! {

/// One count of a batch reply: how many `op` operations touched `model`.
#[derive(Debug, Clone)]
pub struct BatchCount {
    pub op: String,
    pub model: String,
    pub count: u64,
}

/// The map a list of keyed entries describes; a later entry for a key wins.
pub open spec fn entry_map<V>(s: Seq<(String, V)>) -> Map<Seq<char>, V>
    decreases s.len(),
{
    if s.len() == 0 {
        Map::empty()
    } else {
        entry_map(s.drop_last()).insert(s.last().0@, s.last().1)
    }
}

/// No key occurs twice.
pub open spec fn distinct_keys<V>(s: Seq<(String, V)>) -> bool {
    forall|i: int, j: int| 0 <= i < j < s.len() ==> (#[trigger] s[i]).0@ != (#[trigger] s[j]).0@
}

/// Replacing the value of the entry at `i` replaces the key's value in the
/// map.
proof fn lemma_entry_map_update<V>(s: Seq<(String, V)>, i: int, v: V)
    requires
        0 <= i < s.len(),
        distinct_keys(s),
    ensures
        entry_map(s.update(i, (s[i].0, v))) == entry_map(s).insert(s[i].0@, v),
    decreases s.len(),
{
    let t = s.update(i, (s[i].0, v));
    if i == s.len() - 1 {
        assert(t.drop_last() =~= s.drop_last());
        assert(entry_map(t) =~= entry_map(s).insert(s[i].0@, v));
    } else {
        let d = s.drop_last();
        assert(distinct_keys(d));
        lemma_entry_map_update(d, i, v);
        assert(t.drop_last() =~= d.update(i, (s[i].0, v)));
        assert(s.last().0@ != s[i].0@);
        assert(entry_map(t) =~= entry_map(s).insert(s[i].0@, v));
    }
}

/// A key no entry has is not in the map.
proof fn lemma_entry_map_absent<V>(s: Seq<(String, V)>, k: Seq<char>)
    requires
        forall|j: int| 0 <= j < s.len() ==> (#[trigger] s[j]).0@ != k,
    ensures
        !entry_map(s).dom().contains(k),
    decreases s.len(),
{
    if s.len() > 0 {
        lemma_entry_map_absent(s.drop_last(), k);
    }
}

/// The value at the entry of key `k`, when the keys are distinct.
proof fn lemma_entry_map_at<V>(s: Seq<(String, V)>, i: int)
    requires
        0 <= i < s.len(),
        distinct_keys(s),
    ensures
        entry_map(s).dom().contains(s[i].0@),
        entry_map(s)[s[i].0@] == s[i].1,
    decreases s.len(),
{
    if i < s.len() - 1 {
        lemma_entry_map_at(s.drop_last(), i);
    }
}

/// Sets the value of `key`: the entry with that key gets `value`, or a new
/// entry is added at the end.
pub fn set_entry<V>(v: &mut Vec<(String, V)>, key: String, value: V)
    requires
        distinct_keys(old(v)@),
    ensures
        distinct_keys(final(v)@),
        entry_map(final(v)@) == entry_map(old(v)@).insert(key@, value),
{
    let ghost s = v@;
    let mut i: usize = 0;
    while i < v.len()
        invariant
            v@ == s,
            s == old(v)@,
            distinct_keys(s),
            i <= v.len(),
            forall|j: int| 0 <= j < i ==> (#[trigger] s[j]).0@ != key@,
        decreases v.len() - i,
    {
        if str_eq(v[i].0.as_str(), key.as_str()) {
            let ghost val = value;
            let (k, _old) = v.remove(i);
            v.insert(i, (k, value));
            proof {
                assert(s[i as int].0@ == key@);
                assert(v@ =~= s.update(i as int, (s[i as int].0, value)));
                lemma_entry_map_update(s, i as int, val);
                assert(distinct_keys(v@));
            }
            return;
        }
        i = i + 1;
    }
    v.push((key, value));
    proof {
        assert(v@.drop_last() =~= s);
        assert(distinct_keys(v@));
    }
}

/// The counts of a reply by operation and then by model; a later count of
/// the same operation and model replaces an earlier one.
pub open spec fn counts_by_op(c: Seq<BatchCount>) -> Map<Seq<char>, Map<Seq<char>, u64>>
    decreases c.len(),
{
    if c.len() == 0 {
        Map::empty()
    } else {
        let m = counts_by_op(c.drop_last());
        let x = c.last();
        let inner = if m.dom().contains(x.op@) {
            m[x.op@]
        } else {
            Map::empty()
        };
        m.insert(x.op@, inner.insert(x.model@, x.count))
    }
}

/// Grouped counts as plain maps.
pub open spec fn groups_view(g: Seq<(String, Vec<(String, u64)>)>) -> Map<Seq<char>, Map<Seq<char>, u64>> {
    entry_map(g).map_values(|inner: Vec<(String, u64)>| entry_map(inner@))
}

/// Whether every group has distinct model keys.
pub open spec fn groups_ok(g: Seq<(String, Vec<(String, u64)>)>) -> bool {
    distinct_keys(g) && forall|i: int| 0 <= i < g.len() ==> distinct_keys((#[trigger] g[i]).1@)
}

/// The counts of a batch reply grouped by operation, each group keyed by
/// model (the `counts` object of the batch result).
pub fn group_batch_counts(counts: &Vec<BatchCount>) -> (r: Vec<(String, Vec<(String, u64)>)>)
    ensures
        groups_ok(r@),
        groups_view(r@) == counts_by_op(counts@),
{
    let mut g: Vec<(String, Vec<(String, u64)>)> = Vec::new();
    let mut n: usize = 0;
    assert(groups_view(g@) =~= counts_by_op(counts@.take(0)));
    while n < counts.len()
        invariant
            n <= counts.len(),
            groups_ok(g@),
            groups_view(g@) == counts_by_op(counts@.take(n as int)),
        decreases counts.len() - n,
    {
        let c = &counts[n];
        let ghost before = g@;
        proof {
            assert(counts@.take(n as int + 1).drop_last() =~= counts@.take(n as int));
            assert(counts@.take(n as int + 1).last() == counts@[n as int]);
        }
        let mut i: usize = 0;
        while i < g.len() && !str_eq(g[i].0.as_str(), c.op.as_str())
            invariant
                g@ == before,
                groups_ok(before),
                i <= g.len(),
                forall|j: int| 0 <= j < i ==> (#[trigger] before[j]).0@ != c.op@,
            decreases g.len() - i,
        {
            i = i + 1;
        }
        if i < g.len() {
            proof {
                assert(before[i as int].0@ == c.op@);
                lemma_entry_map_at(before, i as int);
                assert(groups_view(before).dom().contains(c.op@));
                assert(groups_view(before)[c.op@] == entry_map(before[i as int].1@));
            }
            let (op, mut inner) = g.remove(i);
            let ghost old_inner = inner@;
            assert(distinct_keys(old_inner)) by {
                assert(before[i as int].1@ == old_inner);
            }
            set_entry(&mut inner, c.model.clone(), c.count);
            let ghost new_inner = inner;
            g.insert(i, (op, inner));
            proof {
                assert(g@ =~= before.update(i as int, (before[i as int].0, new_inner)));
                lemma_entry_map_update(before, i as int, new_inner);
                assert(entry_map(g@) == entry_map(before).insert(c.op@, new_inner));
                assert(entry_map(new_inner@) == entry_map(old_inner).insert(c.model@, c.count));
                assert forall|j: int| 0 <= j < g@.len() implies distinct_keys((#[trigger] g@[j]).1@) by {
                    if j != i {
                        assert(g@[j] == before[j]);
                    }
                }
                assert(distinct_keys(g@));
                assert(groups_view(g@) =~= counts_by_op(counts@.take(n as int + 1)));
            }
        } else {
            let mut inner: Vec<(String, u64)> = Vec::new();
            inner.push((c.model.clone(), c.count));
            let ghost new_inner = inner;
            g.push((c.op.clone(), inner));
            proof {
                lemma_entry_map_absent(before, c.op@);
                assert(g@.drop_last() =~= before);
                assert(new_inner@.drop_last() =~= Seq::<(String, u64)>::empty());
                assert(entry_map(Seq::<(String, u64)>::empty()) == Map::<Seq<char>, u64>::empty());
                assert(new_inner@.last().0@ == c.model@ && new_inner@.last().1 == c.count);
                assert(entry_map(new_inner@) =~= Map::<Seq<char>, u64>::empty().insert(c.model@, c.count));
                assert(!groups_view(before).dom().contains(c.op@));
                assert forall|j: int| 0 <= j < g@.len() implies distinct_keys((#[trigger] g@[j]).1@) by {
                    if j < before.len() {
                        assert(g@[j] == before[j]);
                    }
                }
                assert(distinct_keys(g@));
                assert(groups_view(g@) =~= counts_by_op(counts@.take(n as int + 1)));
            }
        }
        n = n + 1;
    }
    assert(counts@.take(n as int) =~= counts@);
    g
}

} // verus!
