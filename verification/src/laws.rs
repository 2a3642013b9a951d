//! Properties that hold across the library's operations: what reading gives
//! back of writing, what parsing gives back of rendering, and what every
//! result keeps.

use vstd::prelude::*;
use crate::help::{Tool, tool_name, tool_named, tool_index, tool_names, all_tools, lemma_tool_catalog, lemma_tool_named_at};
use crate::service::{ServiceWorkspaceMode, ServiceWorkspaceFormat, workspace_mode_spec, workspace_format_spec, workspace_format_text};
use crate::schema::{BatchOp, op_name_spec, is_delete_spec};
use crate::gateway::{close_after_spec, included_edges_spec, allowed_origins_spec, origin_candidates, first_bad_origin, header_ok, drop_empty, trim_all};
use crate::records::{StoredNode, StoredRel};
use crate::propmap::{prop_map, sorted_keys, lemma_prop_map_entries, lemma_key_lt_irreflexive};
use crate::python::{order_from, python_order_spec, first_colon};
use crate::text::split_on;
use crate::derive::{DeriveInputModel, DataShape, input_ok, input_fields, named_input_fields, node_fields_spec, rel_fields_spec, take_field_spec, take_optional_field_spec, first_field, lemma_first_field_bounds};
use crate::value::JsonValue;
use crate::service_commands::{ServiceCommand, ServiceStep, planned};
use crate::snapshot::{nodes_by_id, edges_with_known, edges_between};
use crate::error::GrmError;
use crate::deck_query::{FindBounds, bounded_request};
use crate::cli::{comment_start, strip_comment_spec, CliColors, shown_from, shown_width, green, blue, orange, reset};
use crate::text::{trim_end, trim_start, is_ws, lemma_trim_start_skip, nat_text, int_text, digit_char, is_digit, all_digits, digits_value, parse_i64_spec};

verus! {

/// Looking a tool up by its own name finds that tool.
pub proof fn law_tool_found_by_its_name(t: Tool)
    ensures
        tool_named(tool_name(t)) == Some(t),
{
    lemma_tool_catalog();
    lemma_tool_named_at(tool_index(t));
}

/// A name finds a tool exactly when it is one of the catalog's names.
pub proof fn law_tool_names_are_the_catalog(n: Seq<char>)
    ensures
        tool_named(n) is Some <==> tool_names().contains(n),
{
    lemma_tool_catalog();
    if tool_names().contains(n) {
        let i = choose|i: int| 0 <= i < tool_names().len() && tool_names()[i] == n;
        lemma_tool_named_at(i);
    }
}

/// The word shown for a workspace mode reads back as that mode.
pub proof fn law_workspace_mode_round_trip(m: ServiceWorkspaceMode)
    ensures
        workspace_mode_spec(
            match m {
                ServiceWorkspaceMode::Create => "create"@,
                ServiceWorkspaceMode::Open => "open"@,
            },
        ) == Some(m),
{
    reveal_strlit("create");
    reveal_strlit("open");
    assert("create"@.len() != "open"@.len());
}

/// The keyword of a workspace format reads back as that format.
pub proof fn law_workspace_format_round_trip(f: ServiceWorkspaceFormat)
    ensures
        workspace_format_spec(workspace_format_text(f)) == Some(f),
{
    reveal_strlit("json");
    reveal_strlit("binary");
    reveal_strlit("bin");
    assert("json"@.len() != "binary"@.len());
}

/// Exactly the `node_delete` and `edge_delete` operations of a batch are
/// deletes.
pub proof fn law_deletes_are_the_delete_ops(op: BatchOp)
    ensures
        is_delete_spec(op) <==> (op_name_spec(op) == "node_delete"@ || op_name_spec(op) == "edge_delete"@),
{
    reveal_strlit("schema_define_node");
    reveal_strlit("schema_define_edge");
    reveal_strlit("node_create");
    reveal_strlit("node_update");
    reveal_strlit("node_delete");
    reveal_strlit("edge_create");
    reveal_strlit("edge_update");
    reveal_strlit("edge_delete");
    assert("node_create"@[5] != "node_delete"@[5]);
    assert("node_update"@[5] != "node_delete"@[5]);
    assert("edge_create"@[5] != "edge_delete"@[5]);
    assert("edge_update"@[5] != "edge_delete"@[5]);
    assert("node_create"@[0] != "edge_delete"@[0]);
    assert("node_update"@[0] != "edge_delete"@[0]);
    assert("edge_create"@[0] != "node_delete"@[0]);
    assert("edge_update"@[0] != "node_delete"@[0]);
    assert("node_delete"@[0] != "edge_delete"@[0]);
    assert("schema_define_node"@.len() != "node_delete"@.len());
    assert("schema_define_edge"@.len() != "node_delete"@.len());
}

/// A failed load reports its own error, whether or not closing the
/// workspace handle failed too; a close failure after a successful load is
/// reported as such.
pub proof fn law_failed_load_error_is_kept<T>(result: Result<T, Seq<char>>, close: Result<(), Seq<char>>)
    ensures
        result matches Err(p) ==> (close_after_spec(result, close) matches Err((q, _, after_success)) && q == p
            && !after_success),
        (result is Ok && close is Err) ==> (close_after_spec(result, close) matches Err((q, None, true)) && q
            == close->Err_0),
        (result is Ok && close is Ok) ==> close_after_spec(result, close) is Ok,
{
}

/// Every edge kept for a snapshot joins two of the snapshot's nodes, and no
/// more edges are counted as left out than were offered.
pub proof fn law_kept_edges_join_known_nodes(known: Map<i64, StoredNode>, edges: Seq<StoredRel>)
    ensures
        forall|id: i64| #[trigger] included_edges_spec(known, edges).0.contains_key(id) ==> known.contains_key(
            included_edges_spec(known, edges).0[id].from,
        ) && known.contains_key(included_edges_spec(known, edges).0[id].to),
        included_edges_spec(known, edges).1 <= edges.len(),
        included_edges_spec(known, edges).1 == 0 <==> forall|i: int|
            0 <= i < edges.len() ==> known.contains_key((#[trigger] edges[i]).from) && known.contains_key(edges[i].to),
    decreases edges.len(),
{
    if edges.len() > 0 {
        let t = edges.drop_last();
        law_kept_edges_join_known_nodes(known, t);
        assert forall|i: int| 0 <= i < t.len() implies #[trigger] t[i] == edges[i] by {}
        let e = edges.last();
        if !(known.contains_key(e.from) && known.contains_key(e.to)) {
            assert(!(known.contains_key(edges[edges.len() - 1].from) && known.contains_key(edges[edges.len() - 1].to)));
        }
        if included_edges_spec(known, edges).1 == 0 {
            assert forall|i: int| 0 <= i < edges.len() implies known.contains_key((#[trigger] edges[i]).from)
                && known.contains_key(edges[i].to) by {
                if i < t.len() {
                    assert(t[i] == edges[i]);
                }
            }
        }
    }
}


/// The decimal text of a natural number is all digits, starts with a digit
/// and reads back as the number.
pub proof fn lemma_nat_text_reads_back(n: nat)
    ensures
        nat_text(n).len() > 0,
        all_digits(nat_text(n)),
        digits_value(nat_text(n)) == n,
    decreases n,
{
    let t = nat_text(n);
    if n < 10 {
        assert(t.drop_last() =~= Seq::<char>::empty());
        assert(digit_char(n) as int == 48 + n);
        assert(t.last() == digit_char(n));
        assert(digits_value(t) == digits_value(t.drop_last()) * 10 + ((t.last() as int - 48) as nat));
        assert(digits_value(t.drop_last()) == 0);
    } else {
        lemma_nat_text_reads_back(n / 10);
        let d = (n % 10) as nat;
        assert(t.drop_last() =~= nat_text(n / 10));
        assert(t.last() == digit_char(d));
        assert(digit_char(d) as int == 48 + d);
        assert((n / 10) * 10 + n % 10 == n) by (nonlinear_arith);
        assert(digits_value(t) == digits_value(t.drop_last()) * 10 + ((t.last() as int - 48) as nat));
        assert forall|i: int| 0 <= i < t.len() implies is_digit(#[trigger] t[i]) by {
            if i < t.len() - 1 {
                assert(t[i] == nat_text(n / 10)[i]);
            }
        }
    }
}

/// Reading the decimal text of an `i64`, as the command line prints ids,
/// gives back the same `i64`.
pub proof fn law_integer_text_round_trip(i: i64)
    ensures
        parse_i64_spec(int_text(i as int)) == Some(i),
{
    if i < 0 {
        let n = (-(i as int)) as nat;
        lemma_nat_text_reads_back(n);
        let s = int_text(i as int);
        assert(s.drop_first() =~= nat_text(n));
        assert(s[0] == '-');
    } else {
        lemma_nat_text_reads_back(i as nat);
        let s = nat_text(i as nat);
        assert(is_digit(s[0]));
    }
}


/// Width counted from a position inside the second part of a text depends on
/// that part alone.
pub proof fn lemma_shown_suffix(p: Seq<char>, r: Seq<char>, j: int, skipping: bool)
    requires
        0 <= j <= r.len(),
    ensures
        shown_from(p + r, p.len() + j, skipping) == shown_from(r, j, skipping),
    decreases r.len() - j,
{
    let s = p + r;
    if j < r.len() {
        assert(s[p.len() + j] == r[j]);
        if j + 1 < r.len() {
            assert(s[p.len() + j + 1] == r[j + 1]);
        }
        if skipping {
            lemma_shown_suffix(p, r, j + 1, r[j] != 'm');
        } else if r[j] == '\x1b' {
            if j + 1 < r.len() {
                lemma_shown_suffix(p, r, j + 2, r[j + 1] == '[');
            }
        } else {
            lemma_shown_suffix(p, r, j + 1, false);
        }
    }
}

/// Characters other than escape characters each count once.
pub proof fn lemma_plain_counts(s: Seq<char>, i: int, j: int)
    requires
        0 <= i <= j <= s.len(),
        forall|k: int| i <= k < j ==> s[k] != '\x1b',
    ensures
        shown_from(s, i, false) == (j - i) + shown_from(s, j, false),
    decreases j - i,
{
    if i < j {
        lemma_plain_counts(s, i + 1, j);
    }
}

/// An escape sequence is skipped up to and including its closing `m`.
pub proof fn lemma_escape_skipped(s: Seq<char>, i: int, end: int)
    requires
        0 <= i <= end < s.len(),
        s[end] == 'm',
        forall|k: int| i <= k < end ==> s[k] != 'm',
    ensures
        shown_from(s, i, true) == shown_from(s, end + 1, false),
    decreases end - i,
{
    if i < end {
        lemma_escape_skipped(s, i + 1, end);
    }
}

/// A colour sequence `ESC [ ... m` in front of a text takes no width.
pub proof fn lemma_colour_prefix(e: Seq<char>, x: Seq<char>)
    requires
        e.len() >= 3,
        e[0] == '\x1b',
        e[1] == '[',
        e[e.len() - 1] == 'm',
        forall|k: int| 2 <= k < e.len() - 1 ==> e[k] != 'm',
    ensures
        shown_width(e + x) == shown_width(x),
{
    let s = e + x;
    assert(s[0] == '\x1b' && s[1] == '[');
    lemma_escape_skipped(s, 2, e.len() - 1);
    lemma_shown_suffix(e, x, 0, false);
}

/// Text without escape characters is as wide as it is long, coloured or
/// not.
pub proof fn lemma_coloured_width(text: Seq<char>, e: Seq<char>)
    requires
        forall|k: int| 0 <= k < text.len() ==> text[k] != '\x1b',
        e.len() >= 3,
        e[0] == '\x1b',
        e[1] == '[',
        e[e.len() - 1] == 'm',
        forall|k: int| 2 <= k < e.len() - 1 ==> e[k] != 'm',
    ensures
        shown_width(e + text + reset()) == text.len(),
        shown_width(text) == text.len(),
{
    reveal_strlit("\x1b[0m");
    let z = reset();
    assert(e + text + z =~= e + (text + z));
    lemma_colour_prefix(e, text + z);
    let tz = text + z;
    assert forall|k: int| 0 <= k < text.len() implies tz[k] != '\x1b' by {
        assert(tz[k] == text[k]);
    }
    lemma_plain_counts(tz, 0, text.len() as int);
    lemma_shown_suffix(text, z, 0, false);
    assert(shown_from(z, 0, false) == shown_from(z, 2, true));
    lemma_escape_skipped(z, 2, 3);
    lemma_plain_counts(text, 0, text.len() as int);
}

/// Colouring a name or a value does not change the width it takes on a
/// terminal: a text without escape characters is as wide as it is long in
/// every colour the command line uses, and uncoloured.
pub proof fn law_colour_keeps_width(c: CliColors, text: Seq<char>)
    requires
        forall|k: int| 0 <= k < text.len() ==> text[k] != '\x1b',
    ensures
        shown_width(c.wrap_spec(text, green())) == text.len(),
        shown_width(c.wrap_spec(text, blue())) == text.len(),
        shown_width(c.wrap_spec(text, orange())) == text.len(),
{
    reveal_strlit("\x1b[32m");
    reveal_strlit("\x1b[34m");
    reveal_strlit("\x1b[38;5;208m");
    lemma_coloured_width(text, green());
    lemma_coloured_width(text, blue());
    lemma_coloured_width(text, orange());
}


/// The sort keys read from position `k` use no field of `seen` and no field
/// twice.
pub proof fn lemma_order_from_fresh(segs: Seq<Seq<char>>, k: int, seen: Set<Seq<char>>)
    ensures
        order_from(segs, k, seen) matches Ok(v) ==> (forall|i: int| 0 <= i < v.len() ==> !seen.contains(
            (#[trigger] v[i]).0,
        )) && (forall|i: int, j: int| 0 <= i < j < v.len() ==> (#[trigger] v[i]).0 != (#[trigger] v[j]).0),
    decreases segs.len() - k,
{
    if 0 <= k < segs.len() {
        let seg = segs[k];
        if let Some(c) = first_colon(seg) {
            let field = seg.subrange(0, c);
            lemma_order_from_fresh(segs, k + 1, seen.insert(field));
            if let Ok(v) = order_from(segs, k, seen) {
                let rest = order_from(segs, k + 1, seen.insert(field))->Ok_0;
                assert(v[0].0 == field);
                assert forall|i: int| 0 <= i < v.len() implies !seen.contains((#[trigger] v[i]).0) by {
                    if i > 0 {
                        assert(v[i] == rest[i - 1]);
                    }
                }
                assert forall|i: int, j: int| 0 <= i < j < v.len() implies (#[trigger] v[i]).0 != (#[trigger] v[j]).0 by {
                    assert(v[j] == rest[j - 1]);
                    if i > 0 {
                        assert(v[i] == rest[i - 1]);
                    } else {
                        assert(seen.insert(field).contains(field));
                    }
                }
            }
        }
    }
}

/// No field is sorted on twice: the sort keys of a Python `order` argument
/// name distinct fields.
pub proof fn law_order_fields_distinct(raw: Option<Seq<char>>)
    ensures
        python_order_spec(raw) matches Ok(v) ==> forall|i: int, j: int|
            0 <= i < j < v.len() ==> (#[trigger] v[i]).0 != (#[trigger] v[j]).0,
{
    if let Some(r) = raw {
        lemma_order_from_fresh(split_on(r, ','), 0, Set::empty());
    }
}

/// Setting a binding and then reading it gives the id that was set; other
/// names keep their ids.
pub proof fn law_binding_read_after_write(b: Map<Seq<char>, i64>, name: Seq<char>, id: i64, other: Seq<char>)
    requires
        other != name,
    ensures
        b.insert(name, id).dom().contains(name),
        b.insert(name, id)[name] == id,
        b.insert(name, id).dom().contains(other) == b.dom().contains(other),
        b.dom().contains(other) ==> b.insert(name, id)[other] == b[other],
{
}

/// In a property list kept in key order, each key's entry is found where the
/// map says, and every key of the map has exactly one entry.
pub proof fn law_sorted_props_are_a_map(s: Seq<(String, JsonValue)>)
    requires
        sorted_keys(s),
    ensures
        forall|i: int, j: int| 0 <= i < j < s.len() ==> (#[trigger] s[i]).0@ != (#[trigger] s[j]).0@,
        forall|i: int| 0 <= i < s.len() ==> prop_map(s).dom().contains((#[trigger] s[i]).0@) && prop_map(s)[s[i].0@] == s[i].1,
        forall|k: Seq<char>| prop_map(s).dom().contains(k) ==> exists|i: int| 0 <= i < s.len() && (#[trigger] s[i]).0@ == k,
{
    lemma_prop_map_entries(s);
    assert forall|i: int, j: int| 0 <= i < j < s.len() implies (#[trigger] s[i]).0@ != (#[trigger] s[j]).0@ by {
        lemma_key_lt_irreflexive(s[i].0@);
    }
}


/// No two fields share a name.
pub open spec fn distinct_names(fs: Seq<(Seq<char>, Seq<char>)>) -> bool {
    forall|i: int, j: int| 0 <= i < j < fs.len() ==> (#[trigger] fs[i]).0 != (#[trigger] fs[j]).0
}

/// Taking a required field out of fields with distinct names leaves fields
/// with distinct names, none of them with the taken name, all of them fields
/// of the original list.
pub proof fn lemma_take_field_excludes(fs: Seq<(Seq<char>, Seq<char>)>, name: Seq<char>, derive_name: Seq<char>)
    requires
        distinct_names(fs),
    ensures
        take_field_spec(fs, name, derive_name) matches Ok((f, rest)) ==> f.0 == name && distinct_names(rest)
            && forall|j: int| 0 <= j < rest.len() ==> (#[trigger] rest[j]).0 != name && fs.contains(rest[j]),
{
    lemma_first_field_bounds(fs, name);
    if let Some(i) = first_field(fs, name) {
        let rest = fs.remove(i);
        assert forall|j: int| 0 <= j < rest.len() implies (#[trigger] rest[j]).0 != name && fs.contains(rest[j]) by {
            if j < i {
                assert(rest[j] == fs[j]);
            } else {
                assert(rest[j] == fs[j + 1]);
            }
        }
        assert forall|a: int, b: int| 0 <= a < b < rest.len() implies (#[trigger] rest[a]).0 != (#[trigger] rest[b]).0 by {
            let a2 = if a < i { a } else { a + 1 };
            let b2 = if b < i { b } else { b + 1 };
            assert(rest[a] == fs[a2]);
            assert(rest[b] == fs[b2]);
        }
    }
}

/// The fields of a struct with named fields, as plain values.
pub open spec fn struct_fields(input: DeriveInputModel) -> Seq<(Seq<char>, Seq<char>)> {
    input_fields(named_input_fields(input))
}

/// The `NodeModel` derive takes the field named `id` as the id and never
/// stores it as a property (the fields of a struct have distinct names).
pub proof fn law_node_model_id_is_not_a_property(input: DeriveInputModel)
    requires
        input_ok(input),
        distinct_names(struct_fields(input)),
    ensures
        node_fields_spec(input) matches Ok((id, props)) ==> id.0 == "id"@ && forall|j: int|
            0 <= j < props.len() ==> (#[trigger] props[j]).0 != "id"@,
{
    if let DataShape::NamedStruct(fs) = input.data {
        lemma_take_field_excludes(input_fields(fs@), "id"@, "NodeModel derive"@);
    }
}

/// Taking an optional field leaves no field of that name and keeps the
/// names distinct.
pub proof fn lemma_take_optional_excludes(fs: Seq<(Seq<char>, Seq<char>)>, name: Seq<char>)
    requires
        distinct_names(fs),
    ensures
        ({
            let (f, rest) = take_optional_field_spec(fs, name);
            &&& f matches Some(x) ==> x.0 == name
            &&& distinct_names(rest)
            &&& forall|j: int| 0 <= j < rest.len() ==> (#[trigger] rest[j]).0 != name && fs.contains(rest[j])
        }),
{
    lemma_first_field_bounds(fs, name);
    lemma_take_field_excludes(fs, name, "RelModel derive"@);
    if first_field(fs, name) is None {
        lemma_first_field_none(fs, name);
        assert forall|j: int| 0 <= j < fs.len() implies (#[trigger] fs[j]).0 != name && fs.contains(fs[j]) by {}
    }
}

/// No field has the name that `first_field` does not find.
pub proof fn lemma_first_field_none(fs: Seq<(Seq<char>, Seq<char>)>, name: Seq<char>)
    requires
        first_field(fs, name) is None,
    ensures
        forall|j: int| 0 <= j < fs.len() ==> (#[trigger] fs[j]).0 != name,
    decreases fs.len(),
{
    if fs.len() > 0 {
        lemma_first_field_none(fs.drop_last(), name);
        assert forall|j: int| 0 <= j < fs.len() implies (#[trigger] fs[j]).0 != name by {
            if j < fs.len() - 1 {
                assert(fs[j] == fs.drop_last()[j]);
            }
        }
    }
}

/// The `RelModel` derive takes the field named `id` as the id and the fields
/// named `from` and `to`, when the struct has them, as the endpoints; it
/// stores none of `id`, `from` and `to` as a property.
pub proof fn law_rel_model_keys_are_not_properties(input: DeriveInputModel)
    requires
        input_ok(input),
        distinct_names(struct_fields(input)),
    ensures
        rel_fields_spec(input) matches Ok((attrs, id, from, to, props)) ==> id.0 == "id"@ && (from matches Some(
            f,
        ) ==> f.0 == "from"@) && (to matches Some(t) ==> t.0 == "to"@) && forall|j: int|
            0 <= j < props.len() ==> (#[trigger] props[j]).0 != "id"@ && props[j].0 != "from"@ && props[j].0
                != "to"@,
{
    if let DataShape::NamedStruct(fs) = input.data {
        let f0 = input_fields(fs@);
        lemma_take_field_excludes(f0, "id"@, "RelModel derive"@);
        if let Ok((id, r1)) = take_field_spec(f0, "id"@, "RelModel derive"@) {
            lemma_take_optional_excludes(r1, "from"@);
            let (from, r2) = take_optional_field_spec(r1, "from"@);
            lemma_take_optional_excludes(r2, "to"@);
            let (to, r3) = take_optional_field_spec(r2, "to"@);
            assert forall|j: int| 0 <= j < r3.len() implies (#[trigger] r3[j]).0 != "id"@ && r3[j].0 != "from"@
                && r3[j].0 != "to"@ by {
                assert(r2.contains(r3[j]));
                let j2 = choose|j2: int| 0 <= j2 < r2.len() && r2[j2] == r3[j];
                assert(r1.contains(r2[j2]));
                let j1 = choose|j1: int| 0 <= j1 < r1.len() && r1[j1] == r2[j2];
                assert(r1[j1].0 != "id"@);
            }
        }
    }
}


/// Dropping empty pieces leaves only non-empty pieces, each one of the
/// original pieces.
pub proof fn lemma_drop_empty_nonempty(s: Seq<Seq<char>>)
    ensures
        forall|i: int| 0 <= i < drop_empty(s).len() ==> (#[trigger] drop_empty(s)[i]).len() > 0 && s.contains(
            drop_empty(s)[i],
        ),
    decreases s.len(),
{
    if s.len() > 0 {
        let t = s.drop_last();
        lemma_drop_empty_nonempty(t);
        assert forall|i: int| 0 <= i < drop_empty(s).len() implies (#[trigger] drop_empty(s)[i]).len() > 0 && s.contains(
            drop_empty(s)[i],
        ) by {
            if i < drop_empty(t).len() {
                assert(drop_empty(s)[i] == drop_empty(t)[i]);
                let k = choose|k: int| 0 <= k < t.len() && t[k] == drop_empty(t)[i];
                assert(s[k] == t[k]);
            } else {
                assert(s[s.len() - 1] == s.last());
            }
        }
    }
}

/// With no bad candidate, every candidate can be carried in a header.
pub proof fn lemma_no_bad_origin(cs: Seq<Seq<char>>)
    requires
        first_bad_origin(cs) is None,
    ensures
        forall|i: int| 0 <= i < cs.len() ==> header_ok(#[trigger] cs[i]),
    decreases cs.len(),
{
    if cs.len() > 0 {
        lemma_no_bad_origin(cs.drop_last());
        assert forall|i: int| 0 <= i < cs.len() implies header_ok(#[trigger] cs[i]) by {
            if i < cs.len() - 1 {
                assert(cs[i] == cs.drop_last()[i]);
            }
        }
    }
}

/// The origins a setting allows are exactly its non-empty comma-separated
/// pieces, trimmed; there is at least one, and each can be sent in a header.
/// So an origin that the setting does not list is never allowed.
pub proof fn law_only_configured_origins_are_allowed(raw: Seq<char>, origin: Seq<char>)
    ensures
        allowed_origins_spec(raw) matches Ok(v) ==> v.len() > 0 && (v.contains(origin) <==> trim_all(
            split_on(raw, ','),
        ).contains(origin) && origin.len() > 0) && forall|i: int|
            0 <= i < v.len() ==> header_ok(#[trigger] v[i]) && v[i].len() > 0,
{
    let pieces = trim_all(split_on(raw, ','));
    let cs = origin_candidates(raw);
    if let Ok(v) = allowed_origins_spec(raw) {
        lemma_drop_empty_nonempty(pieces);
        lemma_no_bad_origin(cs);
        if pieces.contains(origin) && origin.len() > 0 {
            lemma_drop_empty_keeps(pieces, origin);
        }
    }
}

/// A non-empty piece survives dropping the empty ones.
pub proof fn lemma_drop_empty_keeps(s: Seq<Seq<char>>, x: Seq<char>)
    requires
        s.contains(x),
        x.len() > 0,
    ensures
        drop_empty(s).contains(x),
    decreases s.len(),
{
    let t = s.drop_last();
    if s.last() == x {
        assert(drop_empty(s)[drop_empty(s).len() - 1] == x);
    } else {
        let k = choose|k: int| 0 <= k < s.len() && s[k] == x;
        assert(t[k] == x);
        lemma_drop_empty_keeps(t, x);
        let j = choose|j: int| 0 <= j < drop_empty(t).len() && drop_empty(t)[j] == x;
        assert(drop_empty(s)[j] == x);
    }
}


/// A name bound by `let` stands for its id in later commands: after the name
/// is bound, deleting or updating "by that name" targets the bound id.
pub proof fn law_bound_name_is_the_id(
    bindings: Map<Seq<char>, i64>,
    name: Seq<char>,
    id: i64,
    cmd: ServiceCommand,
    fail_fast: bool,
    line: Seq<char>,
    colors: CliColors,
    r: Result<ServiceStep, GrmError>,
)
    requires
        planned(cmd, bindings.insert(name, id), fail_fast, line, colors, r),
    ensures
        (cmd matches ServiceCommand::NodeDelete { model_name, id: raw } && raw@ == name) ==> (r matches Ok(
            ServiceStep::DeleteNode { model, id: target },
        ) && target == id),
        (cmd matches ServiceCommand::EdgeDelete { model_name, id: raw } && raw@ == name) ==> (r matches Ok(
            ServiceStep::DeleteEdge { model, id: target },
        ) && target == id),
        (cmd matches ServiceCommand::NodeUpdate { model_name, id: raw, assignments } && raw@ == name) ==> (r matches Ok(
            ServiceStep::UpdateNode { model, id: target, props },
        ) && target == id),
        (cmd matches ServiceCommand::EdgeUpdate { model_name, id: raw, assignments } && raw@ == name) ==> (r matches Ok(
            ServiceStep::UpdateEdge { model, id: target, props },
        ) && target == id),
{
}

/// The edges kept from several lists join two known nodes.
pub proof fn lemma_edges_with_known_join(known: Map<i64, StoredNode>, lists: Seq<Seq<StoredRel>>)
    ensures
        forall|id: i64| #[trigger] edges_with_known(known, lists).0.dom().contains(id) ==> known.dom().contains(
            edges_with_known(known, lists).0[id].from,
        ) && known.dom().contains(edges_with_known(known, lists).0[id].to),
    decreases lists.len(),
{
    if lists.len() > 0 {
        lemma_edges_with_known_join(known, lists.drop_last());
        law_kept_edges_join_known_nodes(known, lists.last());
        let (m, o) = edges_with_known(known, lists.drop_last());
        let (m2, o2) = included_edges_spec(known, lists.last());
        assert forall|id: i64| #[trigger] m.union_prefer_right(m2).dom().contains(id) implies known.dom().contains(
            m.union_prefer_right(m2)[id].from,
        ) && known.dom().contains(m.union_prefer_right(m2)[id].to) by {
            if m2.dom().contains(id) {
                assert(m2.contains_key(id));
            } else {
                assert(m.dom().contains(id));
            }
        }
    }
}

/// A snapshot shows only edges between nodes it shows: every kept edge
/// joins two nodes read for the snapshot.
pub proof fn law_snapshot_edges_join_snapshot_nodes(node_lists: Seq<Seq<StoredNode>>, edge_lists: Seq<Seq<StoredRel>>)
    ensures
        ({
            let known = nodes_by_id(node_lists);
            let kept = edges_with_known(known, edge_lists).0;
            forall|id: i64| #[trigger] kept.dom().contains(id) ==> known.dom().contains(kept[id].from) && known.dom().contains(
                kept[id].to,
            )
        }),
{
    lemma_edges_with_known_join(nodes_by_id(node_lists), edge_lists);
}

/// A query result shows only edges between nodes it shows, and counts every
/// other edge as left out.
pub proof fn law_query_edges_join_query_nodes(ids: Set<i64>, edges: Seq<StoredRel>)
    ensures
        forall|i: int| 0 <= i < edges_between(ids, edges).0.len() ==> ids.contains((#[trigger] edges_between(ids, edges).0[i]).from)
            && ids.contains(edges_between(ids, edges).0[i].to),
        edges_between(ids, edges).0.len() + edges_between(ids, edges).1 == edges.len(),
    decreases edges.len(),
{
    if edges.len() > 0 {
        law_query_edges_join_query_nodes(ids, edges.drop_last());
        let (kept, o) = edges_between(ids, edges.drop_last());
        let e = edges.last();
        if ids.contains(e.from) && ids.contains(e.to) {
            assert forall|i: int| 0 <= i < kept.push(e).len() implies ids.contains((#[trigger] kept.push(e)[i]).from)
                && ids.contains(kept.push(e)[i].to) by {
                if i < kept.len() {
                    assert(kept.push(e)[i] == kept[i]);
                }
            }
        }
    }
}

/// Every query the flight deck plans reads between 1 and 1000 rows and
/// skips at most 100 000, whatever the command asked for.
pub proof fn law_planned_queries_are_bounded(b: FindBounds, default_limit: usize)
    ensures
        bounded_request(b, default_limit).0 matches Some(n) && 1 <= n <= 1000,
        bounded_request(b, default_limit).1 matches Some(o) ==> o <= 100_000,
        b.offset is None <==> bounded_request(b, default_limit).1 is None,
{
}

/// `trim_end` keeps a prefix and removes only white space.
pub proof fn lemma_trim_end_prefix(x: Seq<char>)
    ensures
        trim_end(x).len() <= x.len(),
        trim_end(x) == x.take(trim_end(x).len() as int),
        forall|j: int| trim_end(x).len() <= j < x.len() ==> is_ws(#[trigger] x[j]),
    decreases x.len(),
{
    if x.len() > 0 && is_ws(x.last()) {
        let d = x.drop_last();
        lemma_trim_end_prefix(d);
        assert(d.take(trim_end(d).len() as int) =~= x.take(trim_end(d).len() as int));
        assert forall|j: int| trim_end(x).len() <= j < x.len() implies is_ws(#[trigger] x[j]) by {
            if j < d.len() {
                assert(x[j] == d[j]);
            }
        }
    } else {
        assert(x.take(x.len() as int) =~= x);
    }
}

/// A comment found from position `i` starts at an unquoted `#` at or after
/// `i`.
pub proof fn lemma_comment_start_at(s: Seq<char>, i: int, q: Option<char>)
    ensures
        comment_start(s, i, q) matches Some(k) ==> 0 <= i <= k < s.len() && s[k] == '#',
    decreases s.len() - i,
{
    if 0 <= i < s.len() {
        lemma_comment_start_at(s, i + 1, None);
        lemma_comment_start_at(s, i + 1, q);
        lemma_comment_start_at(s, i + 1, Some(s[i]));
        if i + 1 < s.len() {
            lemma_comment_start_at(s, i + 2, q);
        }
    }
}

/// Scanning a prefix that ends at or before the first comment finds none.
pub proof fn lemma_comment_start_prefix(s: Seq<char>, n: int, i: int, q: Option<char>)
    requires
        comment_start(s, i, q) matches Some(k) && 0 <= n <= k,
    ensures
        comment_start(s.take(n), i, q) is None,
    decreases s.len() - i,
{
    lemma_comment_start_at(s, i, q);
    let p = s.take(n);
    if 0 <= i < n {
        assert(p[i] == s[i]);
        if i + 1 < n {
            assert(p[i + 1] == s[i + 1]);
        }
        match q {
            Some(c) => if s[i] == '\\' {
                if i + 1 < n {
                    lemma_comment_start_prefix(s, n, i + 2, q);
                }
            } else if s[i] == c {
                lemma_comment_start_prefix(s, n, i + 1, None);
            } else {
                lemma_comment_start_prefix(s, n, i + 1, q);
            },
            None => if s[i] == '"' || s[i] == '\'' {
                lemma_comment_start_prefix(s, n, i + 1, Some(s[i]));
            } else {
                lemma_comment_start_prefix(s, n, i + 1, None);
            },
        }
    }
}

/// Stripping a script line's comment keeps a prefix of the line: the whole
/// line, or a part after which only white space comes before the `#` that
/// starts the comment. Stripping again changes nothing.
pub proof fn law_strip_comment_keeps_a_prefix(s: Seq<char>)
    ensures
        strip_comment_spec(s).len() <= s.len(),
        s.take(strip_comment_spec(s).len() as int) == strip_comment_spec(s),
        strip_comment_spec(s) == s || ({
            let rest = trim_start(s.skip(strip_comment_spec(s).len() as int));
            rest.len() > 0 && rest[0] == '#'
        }),
        strip_comment_spec(strip_comment_spec(s)) == strip_comment_spec(s),
{
    lemma_comment_start_at(s, 0, None);
    match comment_start(s, 0, None) {
        None => {
            assert(s.take(s.len() as int) =~= s);
        },
        Some(k) => {
            let x = s.take(k);
            let r = trim_end(x);
            lemma_trim_end_prefix(x);
            let m = r.len() as int;
            assert(s.take(m) =~= x.take(m));
            lemma_comment_start_prefix(s, m, 0, None);
            assert(s.take(m) =~= r);
            let rest = s.skip(m);
            assert forall|j: int| 0 <= j < k - m implies is_ws(#[trigger] rest[j]) by {
                assert(rest[j] == x[j + m]);
            }
            lemma_trim_start_skip(rest, k - m);
            let t = rest.skip(k - m);
            assert(t[0] == s[k]);
            assert(!is_ws('#'));
            assert(trim_start(t) == t);
        },
    }
}

} // verus!
