//! How the service-backed session shows the records a find returns: one
//! line per record, a table per kind, or JSON lines.

use vstd::prelude::*;
use crate::cli::{CliColors, TableHeaderKind, cli_table_lines, table_lines, table_fits, arg_texts, row_texts, byte_len, green};
use crate::config::texts;
use crate::error::{GrmError, ErrorView};
use crate::propmap::{key_lt, sorted_keys, prop_map, insert_prop, lemma_prop_map_entries, lemma_key_lt_irreflexive, lemma_key_lt_transitive};
use crate::records::{StoredNode, StoredRel, lookup, find_key, find_key_exec, lemma_find_key_bounds};
use crate::session::{ServiceOutputFormat, node_line, edge_line, node_line_text, edge_line_text, scalar_text, scalar_display};
use crate::text::{concat, i64_text, int_text};
use crate::value::JsonValue;

verus! {

/// Names in strictly increasing order.
pub open spec fn strictly_sorted(q: Seq<Seq<char>>) -> bool {
    forall|i: int, j: int| 0 <= i < j < q.len() ==> key_lt(#[trigger] q[i], #[trigger] q[j])
}

/// Two lists of names in increasing order with the same names are the same
/// list.
pub proof fn lemma_sorted_unique(a: Seq<Seq<char>>, b: Seq<Seq<char>>)
    requires
        strictly_sorted(a),
        strictly_sorted(b),
        a.to_set() == b.to_set(),
    ensures
        a == b,
    decreases a.len(),
{
    if a.len() == 0 {
        if b.len() > 0 {
            assert(b.to_set().contains(b[0]));
        }
        assert(a =~= b);
    } else {
        assert(a.to_set().contains(a[0]));
        assert(b.len() > 0);
        assert(b.to_set().contains(b[0]));
        let j = choose|j: int| 0 <= j < b.len() && b[j] == a[0];
        let i = choose|i: int| 0 <= i < a.len() && a[i] == b[0];
        if a[0] != b[0] {
            assert(i > 0 && j > 0);
            assert(key_lt(a[0], a[i]));
            assert(key_lt(b[0], b[j]));
            lemma_key_lt_transitive(a[0], b[0], a[0]);
            lemma_key_lt_irreflexive(a[0]);
        }
        let a2 = a.drop_first();
        let b2 = b.drop_first();
        assert forall|x: Seq<char>| #[trigger] a2.to_set().contains(x) == b2.to_set().contains(x) by {
            if a2.to_set().contains(x) {
                let p = choose|p: int| 0 <= p < a2.len() && a2[p] == x;
                assert(a[p + 1] == x);
                assert(key_lt(a[0], x));
                lemma_key_lt_irreflexive(x);
                assert(b.to_set().contains(x));
                let q = choose|q: int| 0 <= q < b.len() && b[q] == x;
                assert(q > 0);
                assert(b2[q - 1] == x);
            }
            if b2.to_set().contains(x) {
                let p = choose|p: int| 0 <= p < b2.len() && b2[p] == x;
                assert(b[p + 1] == x);
                assert(key_lt(b[0], x));
                lemma_key_lt_irreflexive(x);
                assert(a.to_set().contains(x));
                let q = choose|q: int| 0 <= q < a.len() && a[q] == x;
                assert(q > 0);
                assert(a2[q - 1] == x);
            }
        }
        assert(a2.to_set() =~= b2.to_set());
        assert(strictly_sorted(a2)) by {
            assert forall|x: int, y: int| 0 <= x < y < a2.len() implies key_lt(#[trigger] a2[x], #[trigger] a2[y]) by {
                assert(a2[x] == a[x + 1] && a2[y] == a[y + 1]);
            }
        }
        assert(strictly_sorted(b2)) by {
            assert forall|x: int, y: int| 0 <= x < y < b2.len() implies key_lt(#[trigger] b2[x], #[trigger] b2[y]) by {
                assert(b2[x] == b[x + 1] && b2[y] == b[y + 1]);
            }
        }
        lemma_sorted_unique(a2, b2);
        assert(a =~= seq![a[0]] + a2);
        assert(b =~= seq![b[0]] + b2);
    }
}

/// The names of the properties of the records.
pub open spec fn record_keys(ps: Seq<Seq<(String, JsonValue)>>) -> Set<Seq<char>> {
    Set::new(
        |k: Seq<char>|
            exists|a: int, b: int| 0 <= a < ps.len() && 0 <= b < ps[a].len() && (#[trigger] ps[a][b]).0@ == k,
    )
}

/// The property names of the records in increasing order, each once.
pub open spec fn sorted_names(s: Set<Seq<char>>) -> Seq<Seq<char>> {
    choose|q: Seq<Seq<char>>| strictly_sorted(q) && q.to_set() == s
}

/// Whether `k` is the name of a property before position `(i, j)`.
pub open spec fn key_seen(ps: Seq<Seq<(String, JsonValue)>>, i: int, j: int, k: Seq<char>) -> bool {
    exists|a: int, b: int|
        0 <= a < ps.len() && 0 <= b < ps[a].len() && (a < i || (a == i && b < j)) && (#[trigger] ps[a][b]).0@ == k
}

/// The property names of the records, in increasing order, each once.
pub fn property_names(ps: &Vec<Vec<(String, JsonValue)>>) -> (r: Vec<String>)
    ensures
        arg_texts(r@) == sorted_names(record_keys(ps@.map_values(|p: Vec<(String, JsonValue)>| p@))),
        strictly_sorted(arg_texts(r@)),
        arg_texts(r@).to_set() == record_keys(ps@.map_values(|p: Vec<(String, JsonValue)>| p@)),
{
    let ghost qs = ps@.map_values(|p: Vec<(String, JsonValue)>| p@);
    let mut acc: Vec<(String, JsonValue)> = Vec::new();
    let mut i: usize = 0;
    while i < ps.len()
        invariant
            qs == ps@.map_values(|p: Vec<(String, JsonValue)>| p@),
            i <= ps.len(),
            sorted_keys(acc@),
            forall|k: Seq<char>| #[trigger] prop_map(acc@).dom().contains(k) == key_seen(qs, i as int, 0, k),
        decreases ps.len() - i,
    {
        let p = &ps[i];
        assert(qs[i as int] == p@);
        let mut j: usize = 0;
        while j < p.len()
            invariant
                qs == ps@.map_values(|p: Vec<(String, JsonValue)>| p@),
                i < ps.len(),
                p@ == qs[i as int],
                j <= p.len(),
                sorted_keys(acc@),
                forall|k: Seq<char>| #[trigger] prop_map(acc@).dom().contains(k) == key_seen(qs, i as int, j as int, k),
            decreases p.len() - j,
        {
            let ghost before = acc@;
            insert_prop(&mut acc, p[j].0.clone(), JsonValue::Null);
            proof {
                let kj = qs[i as int][j as int].0@;
                assert forall|k: Seq<char>| #[trigger] prop_map(acc@).dom().contains(k) == key_seen(qs, i as int, j + 1, k) by {
                    if key_seen(qs, i as int, j + 1, k) {
                        let (a, b) = choose|a: int, b: int|
                            0 <= a < qs.len() && 0 <= b < qs[a].len() && (a < i || (a == i && b < j + 1)) && (#[trigger] qs[a][b]).0@ == k;
                        if !(a == i && b == j) {
                            assert(key_seen(qs, i as int, j as int, k));
                        }
                    }
                    if prop_map(before).dom().contains(k) {
                        assert(key_seen(qs, i as int, j as int, k));
                        let (a, b) = choose|a: int, b: int|
                            0 <= a < qs.len() && 0 <= b < qs[a].len() && (a < i || (a == i && b < j)) && (#[trigger] qs[a][b]).0@ == k;
                        assert(qs[a][b].0@ == k);
                    }
                    if k == kj {
                        assert(qs[i as int][j as int].0@ == k);
                    }
                }
            }
            j = j + 1;
        }
        proof {
            assert forall|k: Seq<char>| #[trigger] prop_map(acc@).dom().contains(k) == key_seen(qs, i + 1, 0, k) by {
                if key_seen(qs, i + 1, 0, k) {
                    let (a, b) = choose|a: int, b: int|
                        0 <= a < qs.len() && 0 <= b < qs[a].len() && (a < i + 1 || (a == i + 1 && b < 0)) && (#[trigger] qs[a][b]).0@ == k;
                    assert(qs[a][b].0@ == k);
                }
                if key_seen(qs, i as int, j as int, k) {
                    let (a, b) = choose|a: int, b: int|
                        0 <= a < qs.len() && 0 <= b < qs[a].len() && (a < i || (a == i && b < j)) && (#[trigger] qs[a][b]).0@ == k;
                    assert(qs[a][b].0@ == k);
                }
            }
        }
        i = i + 1;
    }
    let mut names: Vec<String> = Vec::new();
    let mut k: usize = 0;
    while k < acc.len()
        invariant
            k <= acc.len(),
            arg_texts(names@) == acc@.map_values(|e: (String, JsonValue)| e.0@).take(k as int),
        decreases acc.len() - k,
    {
        let ghost before = names@;
        let n = acc[k].0.clone();
        assert(n@ == acc@[k as int].0@);
        names.push(n);
        assert(arg_texts(names@) =~= arg_texts(before).push(acc@[k as int].0@));
        k = k + 1;
        assert(arg_texts(names@) =~= acc@.map_values(|e: (String, JsonValue)| e.0@).take(k as int));
    }
    proof {
        let keys = acc@.map_values(|e: (String, JsonValue)| e.0@);
        assert(keys.take(k as int) =~= keys);
        lemma_prop_map_entries(acc@);
        assert(strictly_sorted(keys)) by {
            assert forall|x: int, y: int| 0 <= x < y < keys.len() implies key_lt(#[trigger] keys[x], #[trigger] keys[y]) by {
                assert(key_lt(acc@[x].0@, acc@[y].0@));
            }
        }
        let want = record_keys(qs);
        assert forall|x: Seq<char>| #[trigger] keys.to_set().contains(x) == want.contains(x) by {
            if keys.to_set().contains(x) {
                let p = choose|p: int| 0 <= p < keys.len() && keys[p] == x;
                assert(prop_map(acc@).dom().contains(acc@[p].0@));
                assert(key_seen(qs, i as int, 0, x));
                let (a, b) = choose|a: int, b: int|
                    0 <= a < qs.len() && 0 <= b < qs[a].len() && (a < i || (a == i && b < 0)) && (#[trigger] qs[a][b]).0@ == x;
                assert(qs[a][b].0@ == x);
            }
            if want.contains(x) {
                let (a, b) = choose|a: int, b: int| 0 <= a < qs.len() && 0 <= b < qs[a].len() && (#[trigger] qs[a][b]).0@ == x;
                assert(key_seen(qs, i as int, 0, x));
                assert(prop_map(acc@).dom().contains(x));
                let p = choose|p: int| 0 <= p < acc@.len() && (#[trigger] acc@[p]).0@ == x;
                assert(keys[p] == x);
            }
        }
        assert(keys.to_set() =~= want);
        let chosen = sorted_names(want);
        assert(strictly_sorted(chosen) && chosen.to_set() == want);
        lemma_sorted_unique(keys, chosen);
    }
    names
}


/// An equal copy of a property list.
pub fn copy_props(p: &Vec<(String, JsonValue)>) -> (r: Vec<(String, JsonValue)>)
    ensures
        r@ == p@,
{
    let mut r: Vec<(String, JsonValue)> = Vec::new();
    let mut i: usize = 0;
    while i < p.len()
        invariant
            i <= p.len(),
            r@ == p@.take(i as int),
        decreases p.len() - i,
    {
        let k = p[i].0.clone();
        let v = crate::value::copy_value(&p[i].1);
        assert(k == p@[i as int].0);
        r.push((k, v));
        i = i + 1;
        assert(r@ =~= p@.take(i as int));
    }
    assert(p@.take(i as int) =~= p@);
    r
}

/// The labels joined by commas.
pub open spec fn join_commas(ls: Seq<String>) -> Seq<char>
    decreases ls.len(),
{
    if ls.len() == 0 {
        Seq::empty()
    } else if ls.len() == 1 {
        ls[0]@
    } else {
        join_commas(ls.drop_last()) + ","@ + ls.last()@
    }
}

fn join_commas_exec(ls: &Vec<String>) -> (r: String)
    ensures
        r@ == join_commas(ls@),
{
    let mut s = String::new();
    let mut i: usize = 0;
    while i < ls.len()
        invariant
            i <= ls.len(),
            s@ == join_commas(ls@.take(i as int)),
        decreases ls.len() - i,
    {
        assert(ls@.take(i as int + 1).drop_last() =~= ls@.take(i as int));
        if i == 0 {
            s = ls[i].clone();
        } else {
            s = concat(concat(s.as_str(), ",").as_str(), ls[i].as_str());
        }
        i = i + 1;
    }
    assert(ls@.take(i as int) =~= ls@);
    s
}

/// The table cell of an optional property value.
pub open spec fn cell_text(v: Option<JsonValue>, colors: CliColors) -> Seq<char> {
    match v {
        Some(x) => scalar_text(x, colors),
        None => Seq::empty(),
    }
}

/// The cells of the properties `names` of a property list.
pub open spec fn value_cells(props: Seq<(String, JsonValue)>, names: Seq<Seq<char>>, colors: CliColors) -> Seq<Seq<char>> {
    Seq::new(names.len(), |c: int| cell_text(lookup(props, names[c]), colors))
}

/// The property names of the nodes, in increasing order.
pub open spec fn node_names(nodes: Seq<StoredNode>) -> Seq<Seq<char>> {
    sorted_names(record_keys(nodes.map_values(|n: StoredNode| n.props@)))
}

/// The property names of the edges, in increasing order.
pub open spec fn edge_names(edges: Seq<StoredRel>) -> Seq<Seq<char>> {
    sorted_names(record_keys(edges.map_values(|e: StoredRel| e.props@)))
}

/// The table row of a node: id, labels, then its value of each property.
pub open spec fn node_row(n: StoredNode, names: Seq<Seq<char>>, colors: CliColors) -> Seq<Seq<char>> {
    seq![int_text(n.id as int), join_commas(n.labels@)] + value_cells(n.props@, names, colors)
}

/// The table row of an edge: id, endpoints, type, then its value of each
/// property.
pub open spec fn edge_row(e: StoredRel, names: Seq<Seq<char>>, colors: CliColors) -> Seq<Seq<char>> {
    seq![int_text(e.id as int), int_text(e.from as int), int_text(e.to as int), colors.wrap_spec(e.rel_type@, green())]
        + value_cells(e.props@, names, colors)
}

/// Headers that are all property names.
pub open spec fn property_kinds(n: nat) -> Seq<TableHeaderKind> {
    Seq::new(n, |_i: int| TableHeaderKind::Property)
}

/// The table of found nodes.
pub open spec fn node_table_text(nodes: Seq<StoredNode>, colors: CliColors) -> Seq<Seq<char>> {
    let names = node_names(nodes);
    let headers = seq!["id"@, "labels"@] + names;
    table_lines(headers, property_kinds(headers.len()), Seq::new(nodes.len(), |r: int| node_row(nodes[r], names, colors)), colors)
}

/// The table of found edges.
pub open spec fn edge_table_text(edges: Seq<StoredRel>, colors: CliColors) -> Seq<Seq<char>> {
    let names = edge_names(edges);
    let headers = seq!["id"@, "from"@, "to"@, "type"@] + names;
    table_lines(headers, property_kinds(headers.len()), Seq::new(edges.len(), |r: int| edge_row(edges[r], names, colors)), colors)
}

/// Ten to the `k`.
pub open spec fn pow10(k: nat) -> nat
    decreases k,
{
    if k == 0 {
        1
    } else {
        pow10((k - 1) as nat) * 10
    }
}

/// A number below `10^k` has at most `k` digits.
pub proof fn lemma_nat_text_digits(n: nat, k: nat)
    requires
        k >= 1,
        n < pow10(k),
    ensures
        crate::text::nat_text(n).len() <= k,
    decreases k,
{
    if n >= 10 {
        assert(k >= 2) by {
            if k == 1 {
                assert(pow10(1) == 10) by {
                    reveal_with_fuel(pow10, 2);
                }
            }
        }
        assert(n / 10 < pow10((k - 1) as nat)) by (nonlinear_arith)
            requires
                n < pow10((k - 1) as nat) * 10,
        ;
        lemma_nat_text_digits(n / 10, (k - 1) as nat);
    }
}

/// The decimal text of an `i64` has at most twenty characters.
pub proof fn lemma_int_text_short(i: i64)
    ensures
        int_text(i as int).len() <= 20,
{
    assert(pow10(19) == 10_000_000_000_000_000_000) by {
        reveal_with_fuel(pow10, 20);
    }
    if i < 0 {
        lemma_nat_text_digits((-(i as int)) as nat, 19);
    } else {
        lemma_nat_text_digits(i as nat, 19);
    }
}


/// Every property of a list fits in a table: its name as a header and its
/// value as a cell.
pub open spec fn props_fit(props: Seq<(String, JsonValue)>, colors: CliColors) -> bool {
    forall|j: int|
        0 <= j < props.len() ==> byte_len((#[trigger] props[j]).0@) + 2 <= usize::MAX && scalar_text(props[j].1, colors).len()
            + 2 <= usize::MAX
}

/// A node fits in a table.
pub open spec fn node_fits(n: StoredNode, colors: CliColors) -> bool {
    join_commas(n.labels@).len() + 2 <= usize::MAX && props_fit(n.props@, colors)
}

/// An edge fits in a table.
pub open spec fn edge_fits(e: StoredRel, colors: CliColors) -> bool {
    e.rel_type@.len() + 16 <= usize::MAX && props_fit(e.props@, colors)
}

/// The cells of the properties `names` of a property list.
fn value_cells_exec(props: &Vec<(String, JsonValue)>, names: &Vec<String>, colors: &CliColors) -> (r: Vec<String>)
    requires
        props_fit(props@, *colors),
    ensures
        arg_texts(r@) == value_cells(props@, arg_texts(names@), *colors),
        forall|c: int| 0 <= c < r@.len() ==> (#[trigger] r@[c])@.len() + 2 <= usize::MAX,
{
    let ghost ns = arg_texts(names@);
    let mut r: Vec<String> = Vec::new();
    let mut c: usize = 0;
    while c < names.len()
        invariant
            ns == arg_texts(names@),
            props_fit(props@, *colors),
            c <= names.len(),
            arg_texts(r@) == value_cells(props@, ns, *colors).take(c as int),
            forall|x: int| 0 <= x < r@.len() ==> (#[trigger] r@[x])@.len() + 2 <= usize::MAX,
        decreases names.len() - c,
    {
        proof {
            lemma_find_key_bounds(props@, ns[c as int]);
        }
        let cell = match find_key_exec(props, names[c].as_str()) {
            Some(p) => scalar_display(&props[p].1, colors),
            None => String::new(),
        };
        proof {
            reveal_strlit("");
        }
        assert(cell@ == value_cells(props@, ns, *colors)[c as int]);
        let ghost before = r@;
        r.push(cell);
        assert(arg_texts(r@) =~= arg_texts(before).push(cell@));
        c = c + 1;
        assert(arg_texts(r@) =~= value_cells(props@, ns, *colors).take(c as int));
    }
    assert(value_cells(props@, ns, *colors).take(c as int) =~= value_cells(props@, ns, *colors));
    r
}

/// Every name is the name of a property of some record.
proof fn lemma_names_fit(qs: Seq<Seq<(String, JsonValue)>>, names: Seq<Seq<char>>, colors: CliColors)
    requires
        names.to_set() == record_keys(qs),
        forall|a: int| 0 <= a < qs.len() ==> props_fit(#[trigger] qs[a], colors),
    ensures
        forall|c: int| 0 <= c < names.len() ==> byte_len(#[trigger] names[c]) + 2 <= usize::MAX,
{
    assert forall|c: int| 0 <= c < names.len() implies byte_len(#[trigger] names[c]) + 2 <= usize::MAX by {
        assert(names.to_set().contains(names[c]));
        let (a, b) = choose|a: int, b: int| 0 <= a < qs.len() && 0 <= b < qs[a].len() && (#[trigger] qs[a][b]).0@ == names[c];
        assert(props_fit(qs[a], colors));
        assert(byte_len(qs[a][b].0@) + 2 <= usize::MAX);
    }
}

/// Headers made of fixed words then property names.
fn headers_with(fixed: Vec<String>, names: &Vec<String>) -> (r: (Vec<String>, Vec<TableHeaderKind>))
    ensures
        arg_texts(r.0@) == arg_texts(fixed@) + arg_texts(names@),
        r.1@ == property_kinds(r.0@.len()),
{
    let mut headers = fixed;
    let ghost start = arg_texts(headers@);
    let mut i: usize = 0;
    while i < names.len()
        invariant
            i <= names.len(),
            arg_texts(headers@) == start + arg_texts(names@).take(i as int),
        decreases names.len() - i,
    {
        let ghost before = headers@;
        let n = names[i].clone();
        assert(n@ == names@[i as int]@);
        headers.push(n);
        assert(arg_texts(headers@) =~= arg_texts(before).push(n@));
        i = i + 1;
        assert(arg_texts(headers@) =~= start + arg_texts(names@).take(i as int));
    }
    assert(arg_texts(names@).take(i as int) =~= arg_texts(names@));
    let mut kinds: Vec<TableHeaderKind> = Vec::new();
    let mut k: usize = 0;
    while k < headers.len()
        invariant
            k <= headers.len(),
            kinds@ == property_kinds(k as nat),
        decreases headers.len() - k,
    {
        kinds.push(TableHeaderKind::Property);
        k = k + 1;
        assert(kinds@ =~= property_kinds(k as nat));
    }
    (headers, kinds)
}

/// The table of found nodes.
pub fn node_table_lines(nodes: &Vec<StoredNode>, colors: &CliColors) -> (r: Vec<String>)
    requires
        forall|i: int| 0 <= i < nodes.len() ==> node_fits(#[trigger] nodes@[i], *colors),
    ensures
        texts(r@) == node_table_text(nodes@, *colors),
{
    let ghost qs = nodes@.map_values(|n: StoredNode| n.props@);
    let mut lists: Vec<Vec<(String, JsonValue)>> = Vec::new();
    let mut i: usize = 0;
    while i < nodes.len()
        invariant
            i <= nodes.len(),
            qs == nodes@.map_values(|n: StoredNode| n.props@),
            lists@.map_values(|p: Vec<(String, JsonValue)>| p@) == qs.take(i as int),
        decreases nodes.len() - i,
    {
        let l = copy_props(&nodes[i].props);
        let ghost before = lists@;
        lists.push(l);
        assert(lists@.map_values(|p: Vec<(String, JsonValue)>| p@) =~= before.map_values(|p: Vec<(String, JsonValue)>| p@).push(l@));
        i = i + 1;
        assert(lists@.map_values(|p: Vec<(String, JsonValue)>| p@) =~= qs.take(i as int));
    }
    assert(qs.take(i as int) =~= qs);
    let names = property_names(&lists);
    let ghost ns = arg_texts(names@);
    proof {
        assert forall|a: int| 0 <= a < qs.len() implies props_fit(#[trigger] qs[a], *colors) by {
            assert(node_fits(nodes@[a], *colors));
        }
        lemma_names_fit(qs, ns, *colors);
    }
    let mut fixed: Vec<String> = Vec::new();
    fixed.push(String::from_str("id"));
    fixed.push(String::from_str("labels"));
    let (headers, kinds) = headers_with(fixed, &names);
    let ghost want_rows = Seq::new(nodes@.len(), |r: int| node_row(nodes@[r], ns, *colors));
    let mut rows: Vec<Vec<String>> = Vec::new();
    let mut r: usize = 0;
    while r < nodes.len()
        invariant
            r <= nodes.len(),
            ns == arg_texts(names@),
            want_rows == Seq::new(nodes@.len(), |r: int| node_row(nodes@[r], ns, *colors)),
            forall|i: int| 0 <= i < nodes.len() ==> node_fits(#[trigger] nodes@[i], *colors),
            row_texts(rows@) == want_rows.take(r as int),
            forall|k: int| 0 <= k < rows@.len() ==> (#[trigger] rows@[k]).len() == names@.len() + 2,
            forall|x: int, c: int| 0 <= x < rows@.len() && 0 <= c < rows@[x]@.len() ==> (#[trigger] rows@[x]@[c])@.len() + 2 <= usize::MAX,
        decreases nodes.len() - r,
    {
        let n = &nodes[r];
        assert(node_fits(nodes@[r as int], *colors));
        let mut row: Vec<String> = Vec::new();
        row.push(i64_text(n.id));
        row.push(join_commas_exec(&n.labels));
        let mut cells = value_cells_exec(&n.props, &names, colors);
        let ghost cs = cells@;
        row.append(&mut cells);
        proof {
            lemma_int_text_short(n.id);
            assert(arg_texts(row@) =~= node_row(nodes@[r as int], ns, *colors));
        }
        let ghost before = rows@;
        rows.push(row);
        proof {
            assert(row_texts(rows@) =~= row_texts(before).push(node_row(nodes@[r as int], ns, *colors)));
            assert(want_rows.take(r as int + 1) =~= want_rows.take(r as int).push(want_rows[r as int]));
            assert forall|x: int, c: int| 0 <= x < rows@.len() && 0 <= c < rows@[x]@.len() implies (#[trigger] rows@[x]@[c])@.len() + 2 <= usize::MAX by {
                if x == r {
                    if c >= 2 {
                        assert(rows@[x]@[c] == cs[c - 2]);
                    }
                } else {
                    assert(rows@[x] == before[x]);
                }
            }
        }
        r = r + 1;
    }
    assert(want_rows.take(r as int) =~= want_rows);
    proof {
        reveal_strlit("id");
        reveal_strlit("labels");
        vstd::utf8::is_ascii_chars_encode_utf8("id"@);
        vstd::utf8::is_ascii_chars_encode_utf8("labels"@);
        let hs = arg_texts(headers@);
        assert(hs =~= seq!["id"@, "labels"@] + ns);
        assert forall|i: int| 0 <= i < hs.len() implies byte_len(#[trigger] hs[i]) + 2 <= usize::MAX by {
            if i >= 2 {
                assert(hs[i] == ns[i - 2]);
            }
        }
        assert forall|x: int, c: int| 0 <= x < row_texts(rows@).len() && 0 <= c < row_texts(rows@)[x].len()
            implies (#[trigger] row_texts(rows@)[x][c]).len() + 2 <= usize::MAX by {
            assert(row_texts(rows@)[x][c] == rows@[x]@[c]@);
        }
    }
    let t = cli_table_lines(&headers, &kinds, &rows, colors);
    t
}

/// The table of found edges.
pub fn edge_table_lines(edges: &Vec<StoredRel>, colors: &CliColors) -> (r: Vec<String>)
    requires
        forall|i: int| 0 <= i < edges.len() ==> edge_fits(#[trigger] edges@[i], *colors),
    ensures
        texts(r@) == edge_table_text(edges@, *colors),
{
    let ghost qs = edges@.map_values(|e: StoredRel| e.props@);
    let mut lists: Vec<Vec<(String, JsonValue)>> = Vec::new();
    let mut i: usize = 0;
    while i < edges.len()
        invariant
            i <= edges.len(),
            qs == edges@.map_values(|e: StoredRel| e.props@),
            lists@.map_values(|p: Vec<(String, JsonValue)>| p@) == qs.take(i as int),
        decreases edges.len() - i,
    {
        let l = copy_props(&edges[i].props);
        let ghost before = lists@;
        lists.push(l);
        assert(lists@.map_values(|p: Vec<(String, JsonValue)>| p@) =~= before.map_values(|p: Vec<(String, JsonValue)>| p@).push(l@));
        i = i + 1;
        assert(lists@.map_values(|p: Vec<(String, JsonValue)>| p@) =~= qs.take(i as int));
    }
    assert(qs.take(i as int) =~= qs);
    let names = property_names(&lists);
    let ghost ns = arg_texts(names@);
    proof {
        assert forall|a: int| 0 <= a < qs.len() implies props_fit(#[trigger] qs[a], *colors) by {
            assert(edge_fits(edges@[a], *colors));
        }
        lemma_names_fit(qs, ns, *colors);
    }
    let mut fixed: Vec<String> = Vec::new();
    fixed.push(String::from_str("id"));
    fixed.push(String::from_str("from"));
    fixed.push(String::from_str("to"));
    fixed.push(String::from_str("type"));
    let (headers, kinds) = headers_with(fixed, &names);
    let ghost want_rows = Seq::new(edges@.len(), |r: int| edge_row(edges@[r], ns, *colors));
    let mut rows: Vec<Vec<String>> = Vec::new();
    let mut r: usize = 0;
    while r < edges.len()
        invariant
            r <= edges.len(),
            ns == arg_texts(names@),
            want_rows == Seq::new(edges@.len(), |r: int| edge_row(edges@[r], ns, *colors)),
            forall|i: int| 0 <= i < edges.len() ==> edge_fits(#[trigger] edges@[i], *colors),
            row_texts(rows@) == want_rows.take(r as int),
            forall|k: int| 0 <= k < rows@.len() ==> (#[trigger] rows@[k]).len() == names@.len() + 4,
            forall|x: int, c: int| 0 <= x < rows@.len() && 0 <= c < rows@[x]@.len() ==> (#[trigger] rows@[x]@[c])@.len() + 2 <= usize::MAX,
        decreases edges.len() - r,
    {
        let e = &edges[r];
        assert(edge_fits(edges@[r as int], *colors));
        let mut row: Vec<String> = Vec::new();
        row.push(i64_text(e.id));
        row.push(i64_text(e.from));
        row.push(i64_text(e.to));
        row.push(colors.type_label(e.rel_type.as_str()));
        let mut cells = value_cells_exec(&e.props, &names, colors);
        let ghost cs = cells@;
        row.append(&mut cells);
        proof {
            lemma_int_text_short(e.id);
            lemma_int_text_short(e.from);
            lemma_int_text_short(e.to);
            reveal_strlit("\x1b[32m");
            reveal_strlit("\x1b[0m");
            assert(arg_texts(row@) =~= edge_row(edges@[r as int], ns, *colors));
        }
        let ghost before = rows@;
        rows.push(row);
        proof {
            assert(row_texts(rows@) =~= row_texts(before).push(edge_row(edges@[r as int], ns, *colors)));
            assert(want_rows.take(r as int + 1) =~= want_rows.take(r as int).push(want_rows[r as int]));
            assert forall|x: int, c: int| 0 <= x < rows@.len() && 0 <= c < rows@[x]@.len() implies (#[trigger] rows@[x]@[c])@.len() + 2 <= usize::MAX by {
                if x == r {
                    if c >= 4 {
                        assert(rows@[x]@[c] == cs[c - 4]);
                    }
                } else {
                    assert(rows@[x] == before[x]);
                }
            }
        }
        r = r + 1;
    }
    assert(want_rows.take(r as int) =~= want_rows);
    proof {
        reveal_strlit("id");
        reveal_strlit("from");
        reveal_strlit("to");
        reveal_strlit("type");
        vstd::utf8::is_ascii_chars_encode_utf8("id"@);
        vstd::utf8::is_ascii_chars_encode_utf8("from"@);
        vstd::utf8::is_ascii_chars_encode_utf8("to"@);
        vstd::utf8::is_ascii_chars_encode_utf8("type"@);
        let hs = arg_texts(headers@);
        assert(hs =~= seq!["id"@, "from"@, "to"@, "type"@] + ns);
        assert forall|i: int| 0 <= i < hs.len() implies byte_len(#[trigger] hs[i]) + 2 <= usize::MAX by {
            if i >= 4 {
                assert(hs[i] == ns[i - 4]);
            }
        }
        assert forall|x: int, c: int| 0 <= x < row_texts(rows@).len() && 0 <= c < row_texts(rows@)[x].len()
            implies (#[trigger] row_texts(rows@)[x][c]).len() + 2 <= usize::MAX by {
            assert(row_texts(rows@)[x][c] == rows@[x]@[c]@);
        }
    }
    let t = cli_table_lines(&headers, &kinds, &rows, colors);
    t
}


/// How found records are shown: lines to write, or one JSON document per
/// record (`format=jsonl`), which the caller serialises.
#[derive(Debug)]
pub enum FindOutput {
    Lines(Vec<String>),
    Jsonl,
}

/// The message for `format=graph` on flat find results.
pub open spec fn flat_graph_message() -> Seq<char> {
    "format=graph is not supported by flat service find responses"@
}

/// What a find shows in each format: the lines (none for JSON lines), or
/// the refusal.
pub open spec fn find_output_text(nodes: Seq<StoredNode>, edges: Seq<StoredRel>, format: ServiceOutputFormat, colors: CliColors) -> Result<Option<Seq<Seq<char>>>, Seq<char>> {
    match format {
        ServiceOutputFormat::Default => Ok(Some(
            Seq::new(nodes.len(), |i: int| node_line_text(nodes[i], colors)) + Seq::new(
                edges.len(),
                |i: int| edge_line_text(edges[i], colors),
            ),
        )),
        ServiceOutputFormat::Jsonl => Ok(None),
        ServiceOutputFormat::Table => Ok(Some(
            (if nodes.len() > 0 {
                node_table_text(nodes, colors)
            } else {
                Seq::empty()
            }) + (if edges.len() > 0 {
                edge_table_text(edges, colors)
            } else {
                Seq::empty()
            }) + (if nodes.len() == 0 && edges.len() == 0 {
                seq!["No results."@]
            } else {
                Seq::empty()
            }),
        )),
        ServiceOutputFormat::Graph => Err(flat_graph_message()),
    }
}

/// What a find shows for the records it returned.
pub fn service_find_output(nodes: &Vec<StoredNode>, edges: &Vec<StoredRel>, format: ServiceOutputFormat, colors: &CliColors) -> (r: Result<FindOutput, GrmError>)
    requires
        format == ServiceOutputFormat::Table ==> (forall|i: int| 0 <= i < nodes.len() ==> node_fits(#[trigger] nodes@[i], *colors)),
        format == ServiceOutputFormat::Table ==> (forall|i: int| 0 <= i < edges.len() ==> edge_fits(#[trigger] edges@[i], *colors)),
    ensures
        match find_output_text(nodes@, edges@, format, *colors) {
            Err(m) => r matches Err(e) && e@ == ErrorView::NotSupported(m),
            Ok(None) => r matches Ok(FindOutput::Jsonl),
            Ok(Some(ls)) => r matches Ok(FindOutput::Lines(v)) && texts(v@) == ls,
        },
{
    match format {
        ServiceOutputFormat::Default => {
            let mut v: Vec<String> = Vec::new();
            let mut i: usize = 0;
            while i < nodes.len()
                invariant
                    i <= nodes.len(),
                    texts(v@) == Seq::new(nodes@.len(), |i: int| node_line_text(nodes@[i], *colors)).take(i as int),
                decreases nodes.len() - i,
            {
                let line = node_line(&nodes[i], colors);
                let ghost before = v@;
                v.push(line);
                assert(texts(v@) =~= texts(before).push(line@));
                i = i + 1;
                assert(texts(v@) =~= Seq::new(nodes@.len(), |i: int| node_line_text(nodes@[i], *colors)).take(i as int));
            }
            let ghost first = texts(v@);
            assert(first =~= Seq::new(nodes@.len(), |i: int| node_line_text(nodes@[i], *colors)));
            let mut j: usize = 0;
            while j < edges.len()
                invariant
                    j <= edges.len(),
                    texts(v@) == first + Seq::new(edges@.len(), |i: int| edge_line_text(edges@[i], *colors)).take(j as int),
                decreases edges.len() - j,
            {
                let line = edge_line(&edges[j], colors);
                let ghost before = v@;
                v.push(line);
                assert(texts(v@) =~= texts(before).push(line@));
                j = j + 1;
                assert(texts(v@) =~= first + Seq::new(edges@.len(), |i: int| edge_line_text(edges@[i], *colors)).take(j as int));
            }
            assert(Seq::new(edges@.len(), |i: int| edge_line_text(edges@[i], *colors)).take(j as int) =~= Seq::new(
                edges@.len(),
                |i: int| edge_line_text(edges@[i], *colors),
            ));
            Ok(FindOutput::Lines(v))
        },
        ServiceOutputFormat::Jsonl => Ok(FindOutput::Jsonl),
        ServiceOutputFormat::Table => {
            let mut v: Vec<String> = Vec::new();
            if nodes.len() > 0 {
                v = node_table_lines(nodes, colors);
            }
            let ghost first = texts(v@);
            if edges.len() > 0 {
                let mut t = edge_table_lines(edges, colors);
                let ghost tl = texts(t@);
                v.append(&mut t);
                assert(texts(v@) =~= first + tl);
            }
            let ghost second = texts(v@);
            if nodes.len() == 0 && edges.len() == 0 {
                v.push(String::from_str("No results."));
                assert(texts(v@) =~= second + seq!["No results."@]);
            }
            proof {
                if nodes.len() == 0 {
                    assert(first =~= Seq::<Seq<char>>::empty());
                }
            }
            assert(texts(v@) =~= find_output_text(nodes@, edges@, format, *colors)->Ok_0->Some_0);
            Ok(FindOutput::Lines(v))
        },
        ServiceOutputFormat::Graph => Err(GrmError::NotSupported(String::from_str(
            "format=graph is not supported by flat service find responses",
        ))),
    }
}

/// The line written after a record is deleted.
pub fn deleted_line(edge: bool, model: &str, id: i64) -> (r: String)
    ensures
        r@ == (if edge {
            "Deleted edge "@
        } else {
            "Deleted node "@
        }) + model@ + " id="@ + int_text(id as int),
{
    let s = concat(if edge { "Deleted edge " } else { "Deleted node " }, model);
    concat(concat(s.as_str(), " id=").as_str(), i64_text(id).as_str())
}

/// The line written after a model is defined.
pub fn defined_line(edge: bool) -> (r: &'static str)
    ensures
        r@ == if edge {
            "Defined edge model"@
        } else {
            "Defined node model"@
        },
{
    if edge {
        "Defined edge model"
    } else {
        "Defined node model"
    }
}

/// Shows a created node and binds the `let` name, if any, to its id.
pub fn finish_node_create(bindings: &mut crate::session::Bindings, binding: Option<String>, node: &StoredNode, colors: &CliColors) -> (r: String)
    ensures
        final(bindings)@ == match binding {
            Some(b) => old(bindings)@.insert(b@, node.id),
            None => old(bindings)@,
        },
        r@ == node_line_text(*node, *colors),
{
    match binding {
        Some(b) => bindings.insert(b, node.id),
        None => {},
    }
    node_line(node, colors)
}

} // verus!
