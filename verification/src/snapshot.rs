//! How the flight-deck gateway puts together what the workspace service
//! returned: the nodes and edges of a snapshot, the records of a read-only
//! query, and the evidence shown beside them.

use vstd::prelude::*;
use crate::gateway::{
    FlightDeckNode, FlightDeckEdge, flight_deck_node, flight_deck_edge, is_flight_deck_node, is_flight_deck_edge,
    included_edges_spec,
};
use crate::records::{StoredNode, StoredRel};
use vstd::map_lib::*;
use std::collections::BTreeMap;
use crate::idmap::{ids_ordered, lemma_ids_ordered, into_sorted_entries};

verus! {

broadcast use vstd::std_specs::btree::group_btree_axioms;

/// Entries in strictly increasing order of id.
pub open spec fn ids_increasing<T>(v: Seq<(i64, T)>) -> bool {
    forall|i: int, j: int| 0 <= i < j < v.len() ==> (#[trigger] v[i]).0 < (#[trigger] v[j]).0
}

/// The map the entries describe; a later entry for an id wins.
pub open spec fn id_map<T>(v: Seq<(i64, T)>) -> Map<i64, T>
    decreases v.len(),
{
    if v.len() == 0 {
        Map::empty()
    } else {
        id_map(v.drop_last()).insert(v.last().0, v.last().1)
    }
}

/// For entries in increasing order, the map holds exactly their ids, each
/// with its entry.
pub proof fn lemma_id_map_entries<T>(v: Seq<(i64, T)>)
    requires
        ids_increasing(v),
    ensures
        forall|i: int| 0 <= i < v.len() ==> id_map(v).dom().contains((#[trigger] v[i]).0) && id_map(v)[v[i].0] == v[i].1,
        forall|k: i64| id_map(v).dom().contains(k) ==> exists|i: int| 0 <= i < v.len() && (#[trigger] v[i]).0 == k,
    decreases v.len(),
{
    if v.len() > 0 {
        let t = v.drop_last();
        assert(ids_increasing(t)) by {
            assert forall|i: int, j: int| 0 <= i < j < t.len() implies (#[trigger] t[i]).0 < (#[trigger] t[j]).0 by {
                assert(t[i] == v[i] && t[j] == v[j]);
            }
        }
        lemma_id_map_entries(t);
        assert forall|i: int| 0 <= i < v.len() implies id_map(v).dom().contains((#[trigger] v[i]).0) && id_map(v)[v[i].0] == v[i].1 by {
            if i < v.len() - 1 {
                assert(t[i] == v[i]);
                assert(v[i].0 < v[v.len() - 1].0);
            }
        }
        assert forall|k: i64| id_map(v).dom().contains(k) implies exists|i: int| 0 <= i < v.len() && (#[trigger] v[i]).0 == k by {
            if k == v.last().0 {
                assert(v[v.len() - 1].0 == k);
            } else {
                assert(id_map(t).dom().contains(k));
                let i = choose|i: int| 0 <= i < t.len() && (#[trigger] t[i]).0 == k;
                assert(v[i] == t[i]);
            }
        }
    }
}


/// Dropping the last entry of a list in increasing order drops its id.
pub proof fn lemma_id_map_drop_last<T>(v: Seq<(i64, T)>)
    requires
        ids_increasing(v),
        v.len() > 0,
    ensures
        id_map(v.drop_last()) == id_map(v).remove(v.last().0),
        !id_map(v.drop_last()).dom().contains(v.last().0),
{
    let t = v.drop_last();
    assert(ids_increasing(t)) by {
        assert forall|i: int, j: int| 0 <= i < j < t.len() implies (#[trigger] t[i]).0 < (#[trigger] t[j]).0 by {
            assert(t[i] == v[i] && t[j] == v[j]);
        }
    }
    lemma_id_map_entries(t);
    if id_map(t).dom().contains(v.last().0) {
        let i = choose|i: int| 0 <= i < t.len() && (#[trigger] t[i]).0 == v.last().0;
        assert(t[i] == v[i]);
        assert(v[i].0 < v[v.len() - 1].0);
    }
    assert(id_map(t) =~= id_map(v).remove(v.last().0));
}

/// Two lists in increasing order of id that describe the same map are the
/// same list.
pub proof fn lemma_id_lists_unique<T>(a: Seq<(i64, T)>, b: Seq<(i64, T)>)
    requires
        ids_increasing(a),
        ids_increasing(b),
        id_map(a) == id_map(b),
    ensures
        a == b,
    decreases a.len(),
{
    lemma_id_map_entries(a);
    lemma_id_map_entries(b);
    if a.len() == 0 {
        if b.len() > 0 {
            assert(id_map(b).dom().contains(b[0].0));
        }
        assert(a =~= b);
    } else {
        assert(id_map(a).dom().contains(a[a.len() - 1].0));
        assert(b.len() > 0) by {
            if b.len() == 0 {
                assert(id_map(b) =~= Map::<i64, T>::empty());
            }
        }
        let ka = a.last().0;
        let kb = b.last().0;
        assert(id_map(b).dom().contains(ka));
        assert(id_map(a).dom().contains(kb));
        let i = choose|i: int| 0 <= i < b.len() && (#[trigger] b[i]).0 == ka;
        let j = choose|j: int| 0 <= j < a.len() && (#[trigger] a[j]).0 == kb;
        if ka != kb {
            if i < b.len() - 1 {
                assert(b[i].0 < b[b.len() - 1].0);
            }
            if j < a.len() - 1 {
                assert(a[j].0 < a[a.len() - 1].0);
            }
        }
        assert(ka == kb);
        assert(id_map(a)[ka] == a.last().1);
        assert(id_map(b)[kb] == b.last().1);
        lemma_id_map_drop_last(a);
        lemma_id_map_drop_last(b);
        let a2 = a.drop_last();
        let b2 = b.drop_last();
        assert(ids_increasing(a2)) by {
            assert forall|x: int, y: int| 0 <= x < y < a2.len() implies (#[trigger] a2[x]).0 < (#[trigger] a2[y]).0 by {
                assert(a2[x] == a[x] && a2[y] == a[y]);
            }
        }
        assert(ids_increasing(b2)) by {
            assert forall|x: int, y: int| 0 <= x < y < b2.len() implies (#[trigger] b2[x]).0 < (#[trigger] b2[y]).0 by {
                assert(b2[x] == b[x] && b2[y] == b[y]);
            }
        }
        lemma_id_lists_unique(a2, b2);
        assert(a =~= a2.push(a.last()));
        assert(b =~= b2.push(b.last()));
    }
}

/// The entries of a map in increasing order of id.
pub open spec fn entries_by_id<T>(m: Map<i64, T>) -> Seq<(i64, T)> {
    choose|v: Seq<(i64, T)>| ids_increasing(v) && id_map(v) == m
}

/// A list in increasing order is the list of entries of its map.
pub proof fn lemma_entries_by_id<T>(v: Seq<(i64, T)>)
    requires
        ids_increasing(v),
    ensures
        entries_by_id(id_map(v)) == v,
{
    let c = entries_by_id(id_map(v));
    assert(ids_increasing(c) && id_map(c) == id_map(v));
    lemma_id_lists_unique(c, v);
}

/// Adding the nodes of a list to a map by id; a later node wins.
pub open spec fn add_nodes(m: Map<i64, StoredNode>, l: Seq<StoredNode>) -> Map<i64, StoredNode>
    decreases l.len(),
{
    if l.len() == 0 {
        m
    } else {
        add_nodes(m, l.drop_last()).insert(l.last().id, l.last())
    }
}

/// The nodes of the lists by id; a later node with an id wins.
pub open spec fn nodes_by_id(lists: Seq<Seq<StoredNode>>) -> Map<i64, StoredNode>
    decreases lists.len(),
{
    if lists.len() == 0 {
        Map::empty()
    } else {
        add_nodes(nodes_by_id(lists.drop_last()), lists.last())
    }
}

/// The edges of the lists whose endpoints are both among `known`, by id (a
/// later edge wins), and how many were left out.
pub open spec fn edges_with_known(known: Map<i64, StoredNode>, lists: Seq<Seq<StoredRel>>) -> (Map<i64, StoredRel>, nat)
    decreases lists.len(),
{
    if lists.len() == 0 {
        (Map::empty(), 0)
    } else {
        let (m, o) = edges_with_known(known, lists.drop_last());
        let (m2, o2) = included_edges_spec(known, lists.last());
        (m.union_prefer_right(m2), o + o2)
    }
}

/// The number of edges offered.
pub open spec fn edge_count(lists: Seq<Seq<StoredRel>>) -> nat
    decreases lists.len(),
{
    if lists.len() == 0 {
        0
    } else {
        edge_count(lists.drop_last()) + lists.last().len()
    }
}

/// The records of a snapshot: nodes and edges in increasing order of id, and
/// how many edges were left out for an endpoint outside the nodes read.
#[derive(Debug)]
pub struct SnapshotRecords {
    pub nodes: Vec<FlightDeckNode>,
    pub edges: Vec<FlightDeckEdge>,
    pub omitted_edges: usize,
}

proof fn lemma_edge_count_prefix(lists: Seq<Seq<StoredRel>>, i: int)
    requires
        0 <= i <= lists.len(),
    ensures
        edge_count(lists.take(i)) <= edge_count(lists),
    decreases lists.len() - i,
{
    if i < lists.len() {
        lemma_edge_count_prefix(lists, i + 1);
        assert(lists.take(i + 1).drop_last() =~= lists.take(i));
    } else {
        assert(lists.take(i) =~= lists);
    }
}

proof fn lemma_included_count(known: Map<i64, StoredNode>, l: Seq<StoredRel>)
    ensures
        included_edges_spec(known, l).1 <= l.len(),
    decreases l.len(),
{
    if l.len() > 0 {
        lemma_included_count(known, l.drop_last());
    }
}

/// The flight-deck forms of the records of the entries, in order.
fn flight_deck_nodes(v: Vec<(i64, StoredNode)>) -> (r: Vec<FlightDeckNode>)
    ensures
        r@.len() == v@.len(),
        forall|i: int| 0 <= i < v@.len() ==> is_flight_deck_node(#[trigger] r@[i], v@[i].1),
{
    let ghost s = v@;
    let mut v = v;
    let mut r: Vec<FlightDeckNode> = Vec::new();
    while v.len() > 0
        invariant
            r@.len() + v@.len() == s.len(),
            v@ == s.skip(r@.len() as int),
            forall|i: int| 0 <= i < r@.len() ==> is_flight_deck_node(#[trigger] r@[i], s[i].1),
        decreases v.len(),
    {
        let ghost k = r@.len();
        let (_id, n) = v.remove(0);
        assert(n == s[k as int].1);
        r.push(flight_deck_node(n));
        assert(v@ =~= s.skip(r@.len() as int));
    }
    r
}

/// The flight-deck forms of the records of the entries, in order.
fn flight_deck_edges(v: Vec<(i64, StoredRel)>) -> (r: Vec<FlightDeckEdge>)
    ensures
        r@.len() == v@.len(),
        forall|i: int| 0 <= i < v@.len() ==> is_flight_deck_edge(#[trigger] r@[i], v@[i].1),
{
    let ghost s = v@;
    let mut v = v;
    let mut r: Vec<FlightDeckEdge> = Vec::new();
    while v.len() > 0
        invariant
            r@.len() + v@.len() == s.len(),
            v@ == s.skip(r@.len() as int),
            forall|i: int| 0 <= i < r@.len() ==> is_flight_deck_edge(#[trigger] r@[i], s[i].1),
        decreases v.len(),
    {
        let ghost k = r@.len();
        let (_id, e) = v.remove(0);
        assert(e == s[k as int].1);
        r.push(flight_deck_edge(e));
        assert(v@ =~= s.skip(r@.len() as int));
    }
    r
}

/// At most every offered edge is left out.
proof fn lemma_edges_with_known_count(known: Map<i64, StoredNode>, lists: Seq<Seq<StoredRel>>)
    ensures
        edges_with_known(known, lists).1 <= edge_count(lists),
    decreases lists.len(),
{
    if lists.len() > 0 {
        lemma_edges_with_known_count(known, lists.drop_last());
        lemma_included_count(known, lists.last());
    }
}

/// Adds the nodes of a list to the entries by id.
fn add_node_list(nodes: &mut BTreeMap<i64, StoredNode>, list: Vec<StoredNode>)
    requires
        ids_ordered(),
    ensures
        final(nodes)@ == add_nodes(old(nodes)@, list@),
{
    let ghost m0 = nodes@;
    let ghost l = list@;
    let mut list = list;
    let mut j: usize = 0;
    let total: usize = list.len();
    while list.len() > 0
        invariant
            l.len() == total,
            j + list@.len() == l.len(),
            list@ == l.skip(j as int),
            ids_ordered(),
            nodes@ == add_nodes(m0, l.take(j as int)),
        decreases list.len(),
    {
        let n = list.remove(0);
        assert(n == l[j as int]);
        nodes.insert(n.id, n);
        assert(l.take(j as int + 1).drop_last() =~= l.take(j as int));
        j = j + 1;
        assert(list@ =~= l.skip(j as int));
    }
    assert(l.take(j as int) =~= l);
}

/// Adds the edges of a list whose endpoints are both among the nodes, and
/// counts the others.
fn add_edge_list(edges: &mut BTreeMap<i64, StoredRel>, omitted: &mut usize, nodes: &BTreeMap<i64, StoredNode>, list: Vec<StoredRel>)
    requires
        ids_ordered(),
        *old(omitted) + list@.len() <= usize::MAX,
    ensures
        final(edges)@ == old(edges)@.union_prefer_right(included_edges_spec(nodes@, list@).0),
        *final(omitted) == *old(omitted) + included_edges_spec(nodes@, list@).1,
{
    let ghost known = nodes@;
    let ghost m0 = edges@;
    let ghost o0 = *omitted;
    let ghost l = list@;
    let mut list = list;
    let mut j: usize = 0;
    proof {
        assert(l.take(0) =~= Seq::<StoredRel>::empty());
        assert(m0.union_prefer_right(Map::<i64, StoredRel>::empty()) =~= m0);
    }
    while list.len() > 0
        invariant
            j + list@.len() == l.len(),
            list@ == l.skip(j as int),
            known == nodes@,
            ids_ordered(),
            o0 + l.len() <= usize::MAX,
            edges@ == m0.union_prefer_right(included_edges_spec(known, l.take(j as int)).0),
            *omitted == o0 + included_edges_spec(known, l.take(j as int)).1,
            included_edges_spec(known, l.take(j as int)).1 <= j,
        decreases list.len(),
    {
        let e = list.remove(0);
        assert(e == l[j as int]);
        let ghost pre = included_edges_spec(known, l.take(j as int));
        proof {
            assert(l.take(j as int + 1).drop_last() =~= l.take(j as int));
            assert(l.take(j as int + 1).last() == e);
        }
        if nodes.contains_key(&e.from) && nodes.contains_key(&e.to) {
            let ghost before = edges@;
            edges.insert(e.id, e);
            proof {
                assert(m0.union_prefer_right(pre.0.insert(e.id, e)) =~= before.insert(e.id, e));
            }
        } else {
            *omitted = *omitted + 1;
        }
        j = j + 1;
        assert(list@ =~= l.skip(j as int));
    }
    assert(l.take(j as int) =~= l);
}

/// The nodes and edges of a snapshot from what the service returned for each
/// node model and each link model, in that order: nodes by id (a later node
/// with an id wins), then the edges whose endpoints are both among those
/// nodes, by id; both in increasing order of id.
pub fn snapshot_records(node_lists: Vec<Vec<StoredNode>>, edge_lists: Vec<Vec<StoredRel>>) -> (r: SnapshotRecords)
    requires
        edge_count(edge_lists@.map_values(|l: Vec<StoredRel>| l@)) <= usize::MAX,
    ensures
        ({
            let known = nodes_by_id(node_lists@.map_values(|l: Vec<StoredNode>| l@));
            let (kept, omitted) = edges_with_known(known, edge_lists@.map_values(|l: Vec<StoredRel>| l@));
            let ns = entries_by_id(known);
            let es = entries_by_id(kept);
            &&& r.nodes@.len() == ns.len()
            &&& forall|i: int| 0 <= i < ns.len() ==> is_flight_deck_node(#[trigger] r.nodes@[i], ns[i].1)
            &&& r.edges@.len() == es.len()
            &&& forall|i: int| 0 <= i < es.len() ==> is_flight_deck_edge(#[trigger] r.edges@[i], es[i].1)
            &&& r.omitted_edges == omitted
        }),
{
    let ghost nls = node_lists@.map_values(|l: Vec<StoredNode>| l@);
    let ghost els = edge_lists@.map_values(|l: Vec<StoredRel>| l@);
    proof {
        lemma_ids_ordered();
    }
    let mut nodes: BTreeMap<i64, StoredNode> = BTreeMap::new();
    let mut node_lists = node_lists;
    let mut k: usize = 0;
    let list_count: usize = node_lists.len();
    while node_lists.len() > 0
        invariant
            nls.len() == list_count,
            k + node_lists@.len() == nls.len(),
            node_lists@.map_values(|l: Vec<StoredNode>| l@) == nls.skip(k as int),
            ids_ordered(),
            nodes@ == nodes_by_id(nls.take(k as int)),
        decreases node_lists.len(),
    {
        let ghost before = node_lists@;
        let list = node_lists.remove(0);
        assert(list@ == nls[k as int]) by {
            assert(before.map_values(|l: Vec<StoredNode>| l@)[0] == nls.skip(k as int)[0]);
        }
        add_node_list(&mut nodes, list);
        assert(nls.take(k as int + 1).drop_last() =~= nls.take(k as int));
        k = k + 1;
        assert(node_lists@ =~= before.skip(1));
        assert forall|x: int| 0 <= x < node_lists@.len() implies (#[trigger] node_lists@[x])@ == nls.skip(k as int)[x] by {
            assert(node_lists@[x] == before[x + 1]);
            assert(before.map_values(|l: Vec<StoredNode>| l@)[x + 1] == nls.skip(k as int - 1)[x + 1]);
        }
        assert(node_lists@.map_values(|l: Vec<StoredNode>| l@) =~= nls.skip(k as int));
    }
    assert(nls.take(k as int) =~= nls);
    let ghost known = nodes@;
    let mut edges: BTreeMap<i64, StoredRel> = BTreeMap::new();
    let mut omitted: usize = 0;
    let mut edge_lists = edge_lists;
    let mut q: usize = 0;
    let list_count: usize = edge_lists.len();
    proof {
        lemma_edge_count_prefix(els, 0);
    }
    while edge_lists.len() > 0
        invariant
            els.len() == list_count,
            q + edge_lists@.len() == els.len(),
            edge_lists@.map_values(|l: Vec<StoredRel>| l@) == els.skip(q as int),
            known == nodes@,
            ids_ordered(),
            edge_count(els) <= usize::MAX,
            (edges@, omitted as nat) == edges_with_known(known, els.take(q as int)),
        decreases edge_lists.len(),
    {
        let ghost before = edge_lists@;
        let list = edge_lists.remove(0);
        assert(list@ == els[q as int]) by {
            assert(before.map_values(|l: Vec<StoredRel>| l@)[0] == els.skip(q as int)[0]);
        }
        proof {
            assert(els.take(q as int + 1).drop_last() =~= els.take(q as int));
            lemma_edges_with_known_count(known, els.take(q as int));
            lemma_edge_count_prefix(els, q as int + 1);
            assert(edge_count(els.take(q as int + 1)) == edge_count(els.take(q as int)) + els[q as int].len());
        }
        add_edge_list(&mut edges, &mut omitted, &nodes, list);
        q = q + 1;
        assert(edge_lists@ =~= before.skip(1));
        assert forall|x: int| 0 <= x < edge_lists@.len() implies (#[trigger] edge_lists@[x])@ == els.skip(q as int)[x] by {
            assert(edge_lists@[x] == before[x + 1]);
            assert(before.map_values(|l: Vec<StoredRel>| l@)[x + 1] == els.skip(q as int - 1)[x + 1]);
        }
        assert(edge_lists@.map_values(|l: Vec<StoredRel>| l@) =~= els.skip(q as int));
    }
    assert(els.take(q as int) =~= els);
    let nodes = into_sorted_entries(nodes);
    let edges = into_sorted_entries(edges);
    proof {
        lemma_entries_by_id(nodes@);
        lemma_entries_by_id(edges@);
    }
    let node_out = flight_deck_nodes(nodes);
    let edge_out = flight_deck_edges(edges);
    SnapshotRecords { nodes: node_out, edges: edge_out, omitted_edges: omitted }
}


/// The ids of the nodes.
pub open spec fn node_ids(nodes: Seq<StoredNode>) -> Set<i64> {
    Set::new(|id: i64| exists|i: int| 0 <= i < nodes.len() && (#[trigger] nodes[i]).id == id)
}

/// The edges whose endpoints are both in `ids`, in order, and how many
/// were left out.
pub open spec fn edges_between(ids: Set<i64>, edges: Seq<StoredRel>) -> (Seq<StoredRel>, nat)
    decreases edges.len(),
{
    if edges.len() == 0 {
        (Seq::empty(), 0)
    } else {
        let (kept, o) = edges_between(ids, edges.drop_last());
        let e = edges.last();
        if ids.contains(e.from) && ids.contains(e.to) {
            (kept.push(e), o)
        } else {
            (kept, o + 1)
        }
    }
}

/// The records a node find shows: every node found, in order, and the
/// edges found whose endpoints are both among those nodes, in order.
#[derive(Debug)]
pub struct QueryRecords {
    pub nodes: Vec<FlightDeckNode>,
    pub edges: Vec<FlightDeckEdge>,
    pub omitted_edges: usize,
}

fn has_node_id(nodes: &Vec<StoredNode>, id: i64) -> (r: bool)
    ensures
        r == node_ids(nodes@).contains(id),
{
    let mut i: usize = 0;
    while i < nodes.len()
        invariant
            i <= nodes.len(),
            forall|j: int| 0 <= j < i ==> (#[trigger] nodes@[j]).id != id,
        decreases nodes.len() - i,
    {
        if nodes[i].id == id {
            assert(nodes@[i as int].id == id);
            return true;
        }
        i = i + 1;
    }
    false
}

/// The records shown for a node find.
pub fn node_query_records(nodes: Vec<StoredNode>, edges: Vec<StoredRel>) -> (r: QueryRecords)
    ensures
        r.nodes@.len() == nodes@.len(),
        forall|i: int| 0 <= i < nodes@.len() ==> is_flight_deck_node(#[trigger] r.nodes@[i], nodes@[i]),
        ({
            let (kept, omitted) = edges_between(node_ids(nodes@), edges@);
            &&& r.edges@.len() == kept.len()
            &&& forall|i: int| 0 <= i < kept.len() ==> is_flight_deck_edge(#[trigger] r.edges@[i], kept[i])
            &&& r.omitted_edges == omitted
        }),
{
    let ghost ids = node_ids(nodes@);
    let ghost es = edges@;
    let mut kept: Vec<FlightDeckEdge> = Vec::new();
    let mut omitted: usize = 0;
    let mut edges = edges;
    let mut j: usize = 0;
    let total: usize = edges.len();
    while edges.len() > 0
        invariant
            es.len() == total,
            j + edges@.len() == es.len(),
            edges@ == es.skip(j as int),
            ids == node_ids(nodes@),
            kept@.len() == edges_between(ids, es.take(j as int)).0.len(),
            forall|i: int| 0 <= i < kept@.len() ==> is_flight_deck_edge(#[trigger] kept@[i], edges_between(ids, es.take(j as int)).0[i]),
            omitted == edges_between(ids, es.take(j as int)).1,
            omitted <= j,
        decreases edges.len(),
    {
        let e = edges.remove(0);
        assert(e == es[j as int]);
        assert(es.take(j as int + 1).drop_last() =~= es.take(j as int));
        assert(es.take(j as int + 1).last() == e);
        let ghost before = edges_between(ids, es.take(j as int)).0;
        if has_node_id(&nodes, e.from) && has_node_id(&nodes, e.to) {
            let ghost ee = e;
            kept.push(flight_deck_edge(e));
            assert forall|i: int| 0 <= i < kept@.len() implies is_flight_deck_edge(#[trigger] kept@[i], before.push(ee)[i]) by {}
        } else {
            omitted = omitted + 1;
        }
        j = j + 1;
        assert(edges@ =~= es.skip(j as int));
    }
    assert(es.take(j as int) =~= es);
    let ghost ns = nodes@;
    let mut nodes = nodes;
    let mut out: Vec<FlightDeckNode> = Vec::new();
    while nodes.len() > 0
        invariant
            out@.len() + nodes@.len() == ns.len(),
            nodes@ == ns.skip(out@.len() as int),
            forall|i: int| 0 <= i < out@.len() ==> is_flight_deck_node(#[trigger] out@[i], ns[i]),
        decreases nodes.len(),
    {
        let ghost k = out@.len();
        let n = nodes.remove(0);
        assert(n == ns[k as int]);
        out.push(flight_deck_node(n));
        assert(nodes@ =~= ns.skip(out@.len() as int));
    }
    QueryRecords { nodes: out, edges: kept, omitted_edges: omitted }
}

/// The first link model named `model` and its endpoint models.
pub open spec fn first_link_named(links: Seq<crate::service_cli::ServiceEdgeModel>, model: Seq<char>) -> Option<int>
    decreases links.len(),
{
    if links.len() == 0 {
        None
    } else {
        match first_link_named(links.drop_last(), model) {
            Some(i) => Some(i),
            None => if links.last().name@ == model {
                Some(links.len() - 1)
            } else {
                None
            },
        }
    }
}

proof fn lemma_first_link_prefix(links: Seq<crate::service_cli::ServiceEdgeModel>, model: Seq<char>, n: int)
    requires
        0 <= n <= links.len(),
        first_link_named(links.take(n), model) is Some,
    ensures
        first_link_named(links, model) == first_link_named(links.take(n), model),
    decreases links.len() - n,
{
    if n < links.len() {
        assert(links.take(n + 1).drop_last() =~= links.take(n));
        lemma_first_link_prefix(links, model, n + 1);
    } else {
        assert(links.take(n) =~= links);
    }
}

/// The endpoint models of the link model an edge find names, to look its
/// edges' endpoints up by; none when the schema has no such link model.
pub fn edge_endpoint_models(links: &Vec<crate::service_cli::ServiceEdgeModel>, model: &str) -> (r: Option<(String, String)>)
    ensures
        match first_link_named(links@, model@) {
            Some(i) => r matches Some((f, t)) && f@ == links@[i].from_model@ && t@ == links@[i].to_model@,
            None => r is None,
        },
{
    let mut i: usize = 0;
    while i < links.len()
        invariant
            i <= links.len(),
            first_link_named(links@.take(i as int), model@) is None,
        decreases links.len() - i,
    {
        assert(links@.take(i as int + 1).drop_last() =~= links@.take(i as int));
        if crate::text::str_eq(links[i].name.as_str(), model) {
            assert(first_link_named(links@.take(i as int + 1), model@) == Some(i as int));
            proof {
                lemma_first_link_prefix(links@, model@, i as int + 1);
            }
            return Some((links[i].from_model.clone(), links[i].to_model.clone()));
        }
        i = i + 1;
    }
    assert(links@.take(i as int) =~= links@);
    None
}

/// Adds a looked-up node, if one was found, to a map by id.
pub open spec fn add_found(m: Map<i64, StoredNode>, n: Option<StoredNode>) -> Map<i64, StoredNode> {
    match n {
        Some(x) => m.insert(x.id, x),
        None => m,
    }
}

/// Walking the edges with the endpoint nodes looked up for each: the nodes
/// found by id, and how many edges had an endpoint still unknown when they
/// were reached.
pub open spec fn endpoint_walk(edges: Seq<StoredRel>, found: Seq<(Option<StoredNode>, Option<StoredNode>)>) -> (Map<i64, StoredNode>, nat)
    decreases edges.len(),
{
    if edges.len() == 0 {
        (Map::empty(), 0)
    } else {
        let n = edges.len() - 1;
        let (m, o) = endpoint_walk(edges.drop_last(), found.take(n));
        let m2 = add_found(add_found(m, found[n].0), found[n].1);
        let e = edges[n];
        (m2, if m2.dom().contains(e.from) && m2.dom().contains(e.to) {
            o
        } else {
            o + 1
        })
    }
}

/// The records shown for an edge find, from the edges found and the
/// endpoint nodes looked up for each (`found[i]` for `edges[i]`): the nodes
/// found, by id; the edges whose endpoints are both among them, in order;
/// and the number of edges whose endpoints were not both known when they
/// were reached. With no link model to look endpoints up by
/// (`endpoints_known` false), no record is shown and every edge is left out.
pub fn edge_query_records(endpoints_known: bool, edges: Vec<StoredRel>, found: Vec<(Option<StoredNode>, Option<StoredNode>)>) -> (r: QueryRecords)
    requires
        endpoints_known ==> found@.len() == edges@.len(),
    ensures
        !endpoints_known ==> r.nodes@.len() == 0 && r.edges@.len() == 0 && r.omitted_edges == edges@.len(),
        endpoints_known ==> ({
            let (m, omitted) = endpoint_walk(edges@, found@);
            let ns = entries_by_id(m);
            let (kept, _o) = edges_between(m.dom(), edges@);
            &&& r.nodes@.len() == ns.len()
            &&& forall|i: int| 0 <= i < ns.len() ==> is_flight_deck_node(#[trigger] r.nodes@[i], ns[i].1)
            &&& r.edges@.len() == kept.len()
            &&& forall|i: int| 0 <= i < kept.len() ==> is_flight_deck_edge(#[trigger] r.edges@[i], kept[i])
            &&& r.omitted_edges == omitted
        }),
{
    if !endpoints_known {
        return QueryRecords { nodes: Vec::new(), edges: Vec::new(), omitted_edges: edges.len() };
    }
    let ghost es = edges@;
    let ghost fs = found@;
    proof {
        lemma_ids_ordered();
    }
    let mut nodes: BTreeMap<i64, StoredNode> = BTreeMap::new();
    let mut omitted: usize = 0;
    let mut found = found;
    let mut i: usize = 0;
    while i < edges.len()
        invariant
            es == edges@,
            fs.len() == es.len(),
            i <= es.len(),
            found@ == fs.skip(i as int),
            ids_ordered(),
            (nodes@, omitted as nat) == endpoint_walk(es.take(i as int), fs.take(i as int)),
            omitted <= i,
        decreases es.len() - i,
    {
        let (from_node, to_node) = found.remove(0);
        assert((from_node, to_node) == fs[i as int]);
        proof {
            assert(es.take(i as int + 1).drop_last() =~= es.take(i as int));
            assert(fs.take(i as int + 1).take(i as int) =~= fs.take(i as int));
        }
        match from_node {
            Some(n) => {
                nodes.insert(n.id, n);
            },
            None => {},
        }
        match to_node {
            Some(n) => {
                nodes.insert(n.id, n);
            },
            None => {},
        }
        let e = &edges[i];
        if !(nodes.contains_key(&e.from) && nodes.contains_key(&e.to)) {
            omitted = omitted + 1;
        }
        i = i + 1;
        assert(found@ =~= fs.skip(i as int));
    }
    assert(es.take(i as int) =~= es);
    assert(fs.take(i as int) =~= fs);
    let ghost known = nodes@;
    let mut kept: Vec<FlightDeckEdge> = Vec::new();
    let mut edges = edges;
    let mut j: usize = 0;
    while edges.len() > 0
        invariant
            es.len() <= usize::MAX,
            j + edges@.len() == es.len(),
            edges@ == es.skip(j as int),
            known == nodes@,
            ids_ordered(),
            kept@.len() == edges_between(known.dom(), es.take(j as int)).0.len(),
            forall|x: int| 0 <= x < kept@.len() ==> is_flight_deck_edge(#[trigger] kept@[x], edges_between(known.dom(), es.take(j as int)).0[x]),
        decreases edges.len(),
    {
        let e = edges.remove(0);
        assert(e == es[j as int]);
        assert(es.take(j as int + 1).drop_last() =~= es.take(j as int));
        assert(es.take(j as int + 1).last() == e);
        let ghost before = edges_between(known.dom(), es.take(j as int)).0;
        if nodes.contains_key(&e.from) && nodes.contains_key(&e.to) {
            let ghost ee = e;
            kept.push(flight_deck_edge(e));
            assert forall|x: int| 0 <= x < kept@.len() implies is_flight_deck_edge(#[trigger] kept@[x], before.push(ee)[x]) by {}
        }
        j = j + 1;
        assert(edges@ =~= es.skip(j as int));
    }
    assert(es.take(j as int) =~= es);
    let nodes = into_sorted_entries(nodes);
    proof {
        lemma_entries_by_id(nodes@);
    }
    let node_out = flight_deck_nodes(nodes);
    QueryRecords { nodes: node_out, edges: kept, omitted_edges: omitted }
}

/// Why a query result is partial: some edge endpoints were not available.
pub fn partial_reason(omitted_edges: usize) -> (r: Option<&'static str>)
    ensures
        omitted_edges == 0 ==> r is None,
        omitted_edges > 0 ==> (r matches Some(m) && m@
            == "some edge endpoints were unavailable from the bounded typed query result"@),
{
    if omitted_edges > 0 {
        Some("some edge endpoints were unavailable from the bounded typed query result")
    } else {
        None
    }
}

/// The evidence shown beside a query result.
#[derive(Debug, Clone)]
pub struct QueryEvidence {
    pub provenance: String,
    pub label: String,
    pub plan_kind: Option<String>,
    pub steps: Vec<String>,
    pub indexes: Vec<String>,
    pub row_count: Option<u64>,
    pub elapsed_micros: Option<u64>,
    pub unsupported_reason: Option<String>,
}

/// The evidence of a plain query: the service's typed result.
pub fn query_evidence() -> (r: QueryEvidence)
    ensures
        r.provenance@ == "service"@,
        r.label@ == "service-backed typed query result"@,
        r.plan_kind is None,
        r.steps@.len() == 0,
        r.indexes@.len() == 0,
        r.row_count is None,
        r.elapsed_micros is None,
        r.unsupported_reason is None,
{
    QueryEvidence {
        provenance: String::from_str("service"),
        label: String::from_str("service-backed typed query result"),
        plan_kind: None,
        steps: Vec::new(),
        indexes: Vec::new(),
        row_count: None,
        elapsed_micros: None,
        unsupported_reason: None,
    }
}

/// The evidence of an explained query: the plan the service reported.
pub fn explain_evidence(plan_kind: String, steps: Vec<String>, indexes: Vec<String>) -> (r: QueryEvidence)
    ensures
        r.provenance@ == "service"@,
        r.label@ == "service/runtime explain evidence"@,
        r.plan_kind matches Some(k) && k@ == plan_kind@,
        r.steps@ == steps@,
        r.indexes@ == indexes@,
        r.row_count is None,
        r.elapsed_micros is None,
        r.unsupported_reason is None,
{
    QueryEvidence {
        provenance: String::from_str("service"),
        label: String::from_str("service/runtime explain evidence"),
        plan_kind: Some(plan_kind),
        steps,
        indexes,
        row_count: None,
        elapsed_micros: None,
        unsupported_reason: None,
    }
}

/// The evidence of a profiled query: the plan the service ran (an empty
/// plan when the reply left it out), the rows and the time.
pub fn profile_evidence(plan: Option<(String, Vec<String>, Vec<String>)>, row_count: u64, elapsed_micros: u64) -> (r: QueryEvidence)
    ensures
        r.provenance@ == "service"@,
        r.label@ == "service/runtime profile evidence"@,
        match plan {
            Some((k, s, x)) => (r.plan_kind matches Some(pk) && pk@ == k@) && r.steps@ == s@ && r.indexes@ == x@,
            None => (r.plan_kind matches Some(pk) && pk@.len() == 0) && r.steps@.len() == 0 && r.indexes@.len() == 0,
        },
        r.row_count == Some(row_count),
        r.elapsed_micros == Some(elapsed_micros),
        r.unsupported_reason is None,
{
    let (kind, steps, indexes) = match plan {
        Some(p) => p,
        None => (String::new(), Vec::new(), Vec::new()),
    };
    QueryEvidence {
        provenance: String::from_str("service"),
        label: String::from_str("service/runtime profile evidence"),
        plan_kind: Some(kind),
        steps,
        indexes,
        row_count: Some(row_count),
        elapsed_micros: Some(elapsed_micros),
        unsupported_reason: None,
    }
}

} // verus!
