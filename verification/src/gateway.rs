//! Rules of the flight-deck HTTP gateway: request bounds, the read-only
//! command guard, redacted errors, node labels, snapshot assembly and the
//! allowed browser origins.

use vstd::prelude::*;
use crate::text::{
    chars_of, str_eq, concat, trim, trim_str, words, split_words, chars_eq, to_ascii_lower,
    to_ascii_upper, ascii_lower, ascii_upper, string_from_chars, trim_bounds, split_on, split_chars,
    string_from_range,
};
use crate::config::texts;

use std::collections::BTreeMap;
use crate::schema::{RuntimeField, RuntimeValueType};
use crate::value::JsonValue;
use crate::records::{StoredNode, StoredRel, lookup, find_key, find_key_exec, lemma_find_key_bounds};
use crate::text::{int_text, i64_text};
use crate::query::TraversalReturn;

verus! {

/// Rows per model a snapshot reads when the request names no limit.
pub const DEFAULT_MODEL_LIMIT: usize = 200;

/// `n` limited to `lo..=hi` (`Ord::clamp`).
pub open spec fn clamp_spec(n: int, lo: int, hi: int) -> int {
    if n < lo {
        lo
    } else if n > hi {
        hi
    } else {
        n
    }
}

/// The row limit of a request: the requested one or `default`, kept within
/// 1 to 1000.
pub fn bounded_limit(requested: Option<usize>, default: usize) -> (r: usize)
    ensures
        r == clamp_spec(
            match requested {
                Some(n) => n as int,
                None => default as int,
            },
            1,
            1000,
        ),
        1 <= r <= 1000,
{
    let n = match requested {
        Some(n) => n,
        None => default,
    };
    if n < 1 {
        1
    } else if n > 1000 {
        1000
    } else {
        n
    }
}

/// The model limit of a snapshot or query request (`DEFAULT_MODEL_LIMIT`
/// when absent).
pub fn request_limit(requested: Option<usize>) -> (r: usize)
    ensures
        r == clamp_spec(
            match requested {
                Some(n) => n as int,
                None => 200,
            },
            1,
            1000,
        ),
{
    bounded_limit(requested, DEFAULT_MODEL_LIMIT)
}

/// A requested offset, capped at 100 000.
pub fn bounded_offset(offset: Option<usize>) -> (r: Option<usize>)
    ensures
        match offset {
            Some(n) => r == Some(if n <= 100_000 { n } else { 100_000usize }),
            None => r is None,
        },
{
    match offset {
        Some(n) => Some(
            if n <= 100_000 {
                n
            } else {
                100_000
            },
        ),
        None => None,
    }
}

/// What the gateway logs when an upstream call fails: the operation only.
pub fn redacted_gateway_log_message(operation: &str) -> (m: String)
    ensures
        m@ == "flight-deck gateway "@ + operation@ + " error: upstream request failed"@,
{
    concat(concat("flight-deck gateway ", operation).as_str(), " error: upstream request failed")
}

/// The body of the `502 Bad Gateway` reply: the operation only.
pub fn redacted_gateway_body(operation: &str) -> (m: String)
    ensures
        m@ == "failed to load "@ + operation@ + " from GRM service"@,
{
    concat(concat("failed to load ", operation).as_str(), " from GRM service")
}

/// The reply to a failed upstream call: status `502 Bad Gateway` and a body
/// that names the operation only. The upstream error's text (which may hold
/// local paths) is not part of the reply.
pub fn redacted_gateway_reply(operation: &str, _upstream_error: &str) -> (r: (u16, String))
    ensures
        r.0 == 502,
        r.1@ == "failed to load "@ + operation@ + " from GRM service"@,
{
    (502, redacted_gateway_body(operation))
}

/// `None` for the empty string, the string otherwise.
pub fn non_empty(value: String) -> (r: Option<String>)
    ensures
        value@.len() == 0 ==> r is None,
        value@.len() > 0 ==> (r matches Some(s) && s@ == value@),
{
    if value.as_str().unicode_len() == 0 {
        None
    } else {
        Some(value)
    }
}

/// Security profile reported by the service.
#[derive(Debug, Clone, Copy, PartialEq, Eq, Structural)]
pub enum SecurityProfile {
    AnonymousLocal,
    DockerLocalInsecure,
    Secured,
}

/// Identity status reported by the service.
#[derive(Debug, Clone, Copy, PartialEq, Eq, Structural)]
pub enum SecurityIdentityStatus {
    AnonymousLocal,
    DockerLocalInsecure,
    AuthenticatedPrincipal,
}

/// The label of a security profile.
pub open spec fn security_profile_label_spec(value: Option<SecurityProfile>) -> Seq<char> {
    match value {
        Some(SecurityProfile::AnonymousLocal) => "anonymous_local"@,
        Some(SecurityProfile::DockerLocalInsecure) => "docker_local_insecure"@,
        Some(SecurityProfile::Secured) => "secured"@,
        None => "unknown"@,
    }
}

/// The label of an identity status.
pub open spec fn identity_status_label_spec(value: Option<SecurityIdentityStatus>) -> Seq<char> {
    match value {
        Some(SecurityIdentityStatus::AnonymousLocal) => "anonymous_local"@,
        Some(SecurityIdentityStatus::DockerLocalInsecure) => "docker_local_insecure"@,
        Some(SecurityIdentityStatus::AuthenticatedPrincipal) => "authenticated_principal"@,
        None => "unknown"@,
    }
}

/// Label of a security profile; `unknown` for a code the gateway does not know.
pub fn security_profile_label(value: Option<SecurityProfile>) -> (r: &'static str)
    ensures
        r@ == security_profile_label_spec(value),
{
    match value {
        Some(SecurityProfile::AnonymousLocal) => "anonymous_local",
        Some(SecurityProfile::DockerLocalInsecure) => "docker_local_insecure",
        Some(SecurityProfile::Secured) => "secured",
        None => "unknown",
    }
}

/// Label of an identity status; `unknown` for a code the gateway does not know.
pub fn security_identity_status_label(value: Option<SecurityIdentityStatus>) -> (r: &'static str)
    ensures
        r@ == identity_status_label_spec(value),
{
    match value {
        Some(SecurityIdentityStatus::AnonymousLocal) => "anonymous_local",
        Some(SecurityIdentityStatus::DockerLocalInsecure) => "docker_local_insecure",
        Some(SecurityIdentityStatus::AuthenticatedPrincipal) => "authenticated_principal",
        None => "unknown",
    }
}

/// Command words that write, persist or administer, which the query bar
/// refuses.
pub open spec fn is_write_command(w: Seq<char>) -> bool {
    ||| w == "schema.define"@
    ||| w == "model.define"@
    ||| w == "link.define"@
    ||| w == "node.create"@
    ||| w == "node.update"@
    ||| w == "node.edit"@
    ||| w == "node.delete"@
    ||| w == "edge.create"@
    ||| w == "edge.update"@
    ||| w == "edge.edit"@
    ||| w == "edge.delete"@
    ||| w == "batch"@
    ||| w == "session.import"@
    ||| w == "session.load"@
    ||| w == "session.save"@
}

/// Cypher clause keywords the query bar refuses as whole words.
pub open spec fn is_cypher_keyword(w: Seq<char>) -> bool {
    ||| w == "MATCH"@
    ||| w == "CREATE"@
    ||| w == "MERGE"@
    ||| w == "SET"@
    ||| w == "DELETE"@
}

/// The first word of `s`, ASCII-lower-cased; empty when `s` has no word.
pub open spec fn first_word_lower(s: Seq<char>) -> Seq<char> {
    let ws = words(trim(s));
    if ws.len() == 0 {
        Seq::empty()
    } else {
        ws[0].map_values(|c: char| ascii_lower(c))
    }
}

/// Whether some word of the upper-cased command is a Cypher keyword.
pub open spec fn has_cypher_word(s: Seq<char>) -> bool {
    let ws = words(trim(s).map_values(|c: char| ascii_upper(c)));
    exists|i: int| 0 <= i < ws.len() && is_cypher_keyword(#[trigger] ws[i])
}

pub open spec fn write_refusal() -> Seq<char> {
    "write, durability, and admin commands are not supported in the flight-deck query bar"@
}

pub open spec fn cypher_refusal() -> Seq<char> {
    "Cypher-like commands are deferred; use the read-only GRM syntax subset"@
}

/// Why the query bar refuses a command text, if it does.
pub open spec fn unsafe_command_refusal(s: Seq<char>) -> Option<Seq<char>> {
    if is_write_command(first_word_lower(s)) {
        Some(write_refusal())
    } else if has_cypher_word(s) {
        Some(cypher_refusal())
    } else {
        None
    }
}

fn is_write_command_exec(w: &str) -> (r: bool)
    ensures
        r == is_write_command(w@),
{
    str_eq(w, "schema.define") || str_eq(w, "model.define") || str_eq(w, "link.define") || str_eq(
        w,
        "node.create",
    ) || str_eq(w, "node.update") || str_eq(w, "node.edit") || str_eq(w, "node.delete")
        || str_eq(w, "edge.create") || str_eq(w, "edge.update") || str_eq(w, "edge.edit")
        || str_eq(w, "edge.delete") || str_eq(w, "batch") || str_eq(w, "session.import")
        || str_eq(w, "session.load") || str_eq(w, "session.save")
}

fn is_cypher_keyword_exec(w: &str) -> (r: bool)
    ensures
        r == is_cypher_keyword(w@),
{
    str_eq(w, "MATCH") || str_eq(w, "CREATE") || str_eq(w, "MERGE") || str_eq(w, "SET") || str_eq(
        w,
        "DELETE",
    )
}

/// Refuses write and administration commands and Cypher-like text before any
/// service call.
pub fn reject_unsafe_command_text(command: &str) -> (r: Result<(), String>)
    ensures
        match unsafe_command_refusal(command@) {
            Some(m) => r matches Err(e) && e@ == m,
            None => r is Ok,
        },
{
    let trimmed = trim_str(command);
    let tv = chars_of(trimmed.as_str());
    let ws = split_words(&tv);
    let first: Vec<char> = if ws.len() == 0 {
        Vec::new()
    } else {
        to_ascii_lower(&ws[0])
    };
    let first_text = string_from_chars(&first);
    assert(first_text@ == first_word_lower(command@)) by {
        if ws.len() == 0 {
            assert(first@ =~= Seq::<char>::empty());
        }
    }
    if is_write_command_exec(first_text.as_str()) {
        return Err(String::from_str("write, durability, and admin commands are not supported in the flight-deck query bar"));
    }
    let upper = to_ascii_upper(&tv);
    let uw = split_words(&upper);
    let mut i: usize = 0;
    while i < uw.len()
        invariant
            upper@ == trim(command@).map_values(|c: char| ascii_upper(c)),
            uw@.len() == words(upper@).len(),
            forall|k: int| 0 <= k < uw@.len() ==> (#[trigger] uw@[k])@ == words(upper@)[k],
            i <= uw.len(),
            forall|k: int| 0 <= k < i ==> !is_cypher_keyword(#[trigger] words(upper@)[k]),
            !is_write_command(first_word_lower(command@)),
        decreases uw.len() - i,
    {
        let w = string_from_chars(&uw[i]);
        assert(w@ == words(upper@)[i as int]);
        if is_cypher_keyword_exec(w.as_str()) {
            return Err(String::from_str("Cypher-like commands are deferred; use the read-only GRM syntax subset"));
        }
        i = i + 1;
    }
    Ok(())
}

/// What a read-only command text leaves for the command parser: the trimmed
/// text, or the refusal.
pub open spec fn read_only_precheck_spec(s: Seq<char>) -> Result<Seq<char>, Seq<char>> {
    match unsafe_command_refusal(s) {
        Some(m) => Err(m),
        None => if trim(s).len() == 0 {
            Err("enter a read-only GRM command"@)
        } else {
            Ok(trim(s))
        },
    }
}

/// The checks on a query-bar command that come before it is parsed: unsafe
/// text is refused, and an empty command asks for one.
pub fn read_only_precheck(command: &str) -> (r: Result<String, String>)
    ensures
        match read_only_precheck_spec(command@) {
            Ok(t) => r matches Ok(x) && x@ == t,
            Err(m) => r matches Err(e) && e@ == m,
        },
{
    reject_unsafe_command_text(command)?;
    let t = trim_str(command);
    if t.as_str().unicode_len() == 0 {
        return Err(String::from_str("enter a read-only GRM command"));
    }
    Ok(t)
}

/// Label of a field value type.
pub open spec fn value_type_label_spec(t: RuntimeValueType) -> Seq<char> {
    match t {
        RuntimeValueType::String => "string"@,
        RuntimeValueType::Int => "int"@,
        RuntimeValueType::Float => "float"@,
        RuntimeValueType::Bool => "bool"@,
    }
}

/// Label of a field value type.
pub fn value_type_label(t: RuntimeValueType) -> (r: &'static str)
    ensures
        r@ == value_type_label_spec(t),
{
    match t {
        RuntimeValueType::String => "string",
        RuntimeValueType::Int => "int",
        RuntimeValueType::Float => "float",
        RuntimeValueType::Bool => "bool",
    }
}

/// A schema field as the flight deck shows it.
#[derive(Debug, Clone)]
pub struct FlightDeckSchemaField {
    pub name: String,
    pub value_type: String,
    pub required: bool,
}

/// The flight-deck form of every runtime field, in order.
pub fn schema_fields(fields: &Vec<RuntimeField>) -> (r: Vec<FlightDeckSchemaField>)
    ensures
        r@.len() == fields@.len(),
        forall|i: int|
            0 <= i < r@.len() ==> (#[trigger] r@[i]).name@ == fields@[i].name@ && r@[i].value_type@
                == value_type_label_spec(fields@[i].value_type) && r@[i].required == fields@[i].required,
{
    let mut r: Vec<FlightDeckSchemaField> = Vec::new();
    let mut i: usize = 0;
    while i < fields.len()
        invariant
            i <= fields.len(),
            r@.len() == i,
            forall|k: int|
                0 <= k < i ==> (#[trigger] r@[k]).name@ == fields@[k].name@ && r@[k].value_type@
                    == value_type_label_spec(fields@[k].value_type) && r@[k].required == fields@[k].required,
        decreases fields.len() - i,
    {
        let f = &fields[i];
        r.push(
            FlightDeckSchemaField {
                name: f.name.clone(),
                value_type: String::from_str(value_type_label(f.value_type)),
                required: f.required,
            },
        );
        i = i + 1;
    }
    r
}

/// The model shown for a node: its first label, `Node` when it has none.
pub open spec fn node_model_spec(labels: Seq<String>) -> Seq<char> {
    if labels.len() > 0 {
        labels[0]@
    } else {
        "Node"@
    }
}

/// Property names tried, in order, for a node's caption.
pub open spec fn caption_fields() -> Seq<Seq<char>> {
    seq!["name"@, "title"@, "path"@, "question"@, "text"@]
}

/// The first caption field the node has, if any.
pub open spec fn first_caption_field(props: Seq<(String, JsonValue)>, k: int) -> Option<Seq<char>>
    decreases 5 - k,
{
    if k < 0 || k >= 5 {
        None
    } else if lookup(props, caption_fields()[k]) is Some {
        Some(caption_fields()[k])
    } else {
        first_caption_field(props, k + 1)
    }
}

/// The caption of a node: `Model: value` when the first caption field it has
/// holds a string, `Model #id` otherwise.
pub open spec fn node_label_spec(node: StoredNode) -> Seq<char> {
    let model = node_model_spec(node.labels@);
    match first_caption_field(node.props@, 0) {
        Some(f) => match lookup(node.props@, f) {
            Some(JsonValue::String(v)) => model + ": "@ + v@,
            _ => model + " #"@ + int_text(node.id as int),
        },
        None => model + " #"@ + int_text(node.id as int),
    }
}

fn caption_field(k: usize) -> (r: &'static str)
    requires
        k < 5,
    ensures
        r@ == caption_fields()[k as int],
{
    if k == 0 {
        "name"
    } else if k == 1 {
        "title"
    } else if k == 2 {
        "path"
    } else if k == 3 {
        "question"
    } else {
        "text"
    }
}

fn node_model_exec(labels: &Vec<String>) -> (r: String)
    ensures
        r@ == node_model_spec(labels@),
{
    if labels.len() > 0 {
        labels[0].clone()
    } else {
        String::from_str("Node")
    }
}

/// The caption of a node in the flight deck.
pub fn node_label(node: &StoredNode) -> (r: String)
    ensures
        r@ == node_label_spec(*node),
{
    let model = node_model_exec(&node.labels);
    let mut k: usize = 0;
    while k < 5
        invariant
            k <= 5,
            model@ == node_model_spec(node.labels@),
            first_caption_field(node.props@, 0) == first_caption_field(node.props@, k as int),
        decreases 5 - k,
    {
        let name: &str = caption_field(k);
        let hit = find_key_exec(&node.props, name);
        match hit {
            Some(p) => {
                proof {
                    let f = caption_fields()[k as int];
                    lemma_find_key_bounds(node.props@, f);
                    assert(find_key(node.props@, f) == Some(p as int));
                    assert(lookup(node.props@, f) == Some(node.props@[p as int].1));
                    assert(first_caption_field(node.props@, k as int) == Some(f));
                }
                let v = &node.props[p].1;
                return match v {
                    JsonValue::String(text) => concat(concat(model.as_str(), ": ").as_str(), text.as_str()),
                    _ => concat(concat(model.as_str(), " #").as_str(), i64_text(node.id).as_str()),
                };
            },
            None => {},
        }
        k = k + 1;
    }
    concat(concat(model.as_str(), " #").as_str(), i64_text(node.id).as_str())
}

/// A node as the flight deck receives it, with ids as decimal strings.
#[derive(Debug, Clone)]
pub struct FlightDeckNode {
    pub id: String,
    pub model: String,
    pub label: String,
    pub props: Vec<(String, JsonValue)>,
}

/// An edge as the flight deck receives it, with ids as decimal strings.
#[derive(Debug, Clone)]
pub struct FlightDeckEdge {
    pub id: String,
    pub model: String,
    pub from: String,
    pub to: String,
    pub props: Vec<(String, JsonValue)>,
}

/// Whether `r` is the flight-deck form of `node`.
pub open spec fn is_flight_deck_node(r: FlightDeckNode, node: StoredNode) -> bool {
    &&& r.id@ == int_text(node.id as int)
    &&& r.model@ == node_model_spec(node.labels@)
    &&& r.label@ == node_label_spec(node)
    &&& r.props@ == node.props@
}

/// Whether `r` is the flight-deck form of `edge`.
pub open spec fn is_flight_deck_edge(r: FlightDeckEdge, edge: StoredRel) -> bool {
    &&& r.id@ == int_text(edge.id as int)
    &&& r.model@ == edge.rel_type@
    &&& r.from@ == int_text(edge.from as int)
    &&& r.to@ == int_text(edge.to as int)
    &&& r.props@ == edge.props@
}

/// The flight-deck form of a stored node.
pub fn flight_deck_node(node: StoredNode) -> (r: FlightDeckNode)
    ensures
        is_flight_deck_node(r, node),
{
    let label = node_label(&node);
    let model = node_model_exec(&node.labels);
    FlightDeckNode { id: i64_text(node.id), model, label, props: node.props }
}

/// The flight-deck form of a stored edge.
pub fn flight_deck_edge(edge: StoredRel) -> (r: FlightDeckEdge)
    ensures
        is_flight_deck_edge(r, edge),
{
    FlightDeckEdge {
        id: i64_text(edge.id),
        model: edge.rel_type,
        from: i64_text(edge.from),
        to: i64_text(edge.to),
        props: edge.props,
    }
}

/// The edges of `edges` whose both endpoints are among `known`, by edge id
/// (a later edge replaces an earlier one with the same id), and how many edges
/// were left out.
pub open spec fn included_edges_spec(known: Map<i64, StoredNode>, edges: Seq<StoredRel>) -> (Map<i64, StoredRel>, nat)
    decreases edges.len(),
{
    if edges.len() == 0 {
        (Map::empty(), 0)
    } else {
        let (m, o) = included_edges_spec(known, edges.drop_last());
        let e = edges.last();
        if known.contains_key(e.from) && known.contains_key(e.to) {
            (m.insert(e.id, e), o)
        } else {
            (m, o + 1)
        }
    }
}

/// Keeps the edges whose endpoints are both in the node set and counts the
/// others.
pub fn include_edges_with_known_endpoints(
    nodes: &BTreeMap<i64, StoredNode>,
    edges: Vec<StoredRel>,
) -> (r: (BTreeMap<i64, StoredRel>, usize))
    ensures
        (r.0@, r.1 as nat) == included_edges_spec(nodes@, edges@),
{
    broadcast use vstd::std_specs::btree::group_btree_axioms;

    let ghost all = edges@;
    let mut included: BTreeMap<i64, StoredRel> = BTreeMap::new();
    let mut omitted: usize = 0;
    let mut edges = edges;
    let mut rest: Vec<StoredRel> = Vec::new();
    // walk the edges front to back by reversing them first
    while edges.len() > 0
        invariant
            rest@ + edges@.reverse() == all.reverse(),
        decreases edges.len(),
    {
        let ghost before = edges@;
        let e = edges.pop().unwrap();
        rest.push(e);
        assert(rest@ + edges@.reverse() =~= all.reverse()) by {
            assert(before =~= edges@.push(e));
        }
    }
    assert(rest@ =~= all.reverse());
    let mut i: usize = 0;
    let n = rest.len();
    while rest.len() > 0
        invariant
            n == all.len(),
            rest@.len() + i == n,
            rest@ == all.subrange(i as int, n as int).reverse(),
            (included@, omitted as nat) == included_edges_spec(nodes@, all.take(i as int)),
            omitted <= i,
        decreases rest.len(),
    {
        let ghost before = rest@;
        let e = rest.pop().unwrap();
        proof {
            assert(e == all[i as int]);
            assert(all.take(i + 1).drop_last() =~= all.take(i as int));
            assert(all.take(i + 1).last() == all[i as int]);
            assert(rest@ =~= all.subrange(i + 1, n as int).reverse());
        }
        if nodes.contains_key(&e.from) && nodes.contains_key(&e.to) {
            included.insert(e.id, e);
        } else {
            omitted = omitted + 1;
        }
        i = i + 1;
    }
    assert(all.take(n as int) =~= all);
    (included, omitted)
}

/// Why loading a snapshot or a query result failed. `primary` and the close
/// errors are the messages of the service client's errors.
#[derive(Debug, Clone)]
pub enum LoadError {
    /// The load failed; closing the workspace handle afterwards may have
    /// failed too.
    Failed { primary: String, close_error: Option<String> },
    /// The load succeeded but closing the workspace handle failed.
    Close(String),
}

/// Which load a `LoadError` belongs to, as named in its message.
#[derive(Debug, Clone, Copy, PartialEq, Eq, Structural)]
pub enum LoadKind {
    Snapshot,
    Query,
}

/// The outcome of a load once the workspace handle was closed: the result
/// when both succeeded; otherwise the load's own error, never hidden by the
/// close error, which is kept beside it.
pub open spec fn close_after_spec<T>(result: Result<T, Seq<char>>, close: Result<(), Seq<char>>) -> Result<
    T,
    (Seq<char>, Option<Seq<char>>, bool),
> {
    match result {
        Ok(v) => match close {
            Ok(_) => Ok(v),
            Err(c) => Err((c, None, true)),
        },
        Err(p) => match close {
            Ok(_) => Err((p, None, false)),
            Err(c) => Err((p, Some(c), false)),
        },
    }
}

pub open spec fn load_error_view(e: LoadError) -> (Seq<char>, Option<Seq<char>>, bool) {
    match e {
        LoadError::Failed { primary, close_error } => (
            primary@,
            match close_error {
                Some(c) => Some(c@),
                None => None,
            },
            false,
        ),
        LoadError::Close(c) => (c@, None, true),
    }
}

/// Combines the result of a load with the result of closing the workspace
/// handle, which is attempted in every case.
pub fn close_after_load<T>(result: Result<T, String>, close: Result<(), String>) -> (r: Result<T, LoadError>)
    ensures
        match close_after_spec(
            match result {
                Ok(v) => Ok(v),
                Err(p) => Err(p@),
            },
            match close {
                Ok(u) => Ok(u),
                Err(c) => Err(c@),
            },
        ) {
            Ok(v) => r == Ok::<T, LoadError>(v),
            Err(e) => r matches Err(x) && load_error_view(x) == e,
        },
{
    match result {
        Ok(v) => match close {
            Ok(_) => Ok(v),
            Err(c) => Err(LoadError::Close(c)),
        },
        Err(p) => match close {
            Ok(_) => Err(LoadError::Failed { primary: p, close_error: None }),
            Err(c) => Err(LoadError::Failed { primary: p, close_error: Some(c) }),
        },
    }
}

/// The message of a load error.
pub open spec fn load_error_message(kind: LoadKind, e: (Seq<char>, Option<Seq<char>>, bool)) -> Seq<char> {
    let (m, close, is_close) = e;
    if is_close {
        "failed to close workspace handle: "@ + m
    } else {
        match close {
            None => m,
            Some(c) => m + (match kind {
                LoadKind::Snapshot => "; additionally failed to close workspace handle after snapshot error: "@,
                LoadKind::Query => "; additionally failed to close workspace handle after query error: "@,
            }) + c,
        }
    }
}

impl LoadError {
    /// The message shown for the error.
    pub fn message(&self, kind: LoadKind) -> (m: String)
        ensures
            m@ == load_error_message(kind, load_error_view(*self)),
    {
        match self {
            LoadError::Failed { primary, close_error } => match close_error {
                None => primary.clone(),
                Some(c) => {
                    let joint = match kind {
                        LoadKind::Snapshot => "; additionally failed to close workspace handle after snapshot error: ",
                        LoadKind::Query => "; additionally failed to close workspace handle after query error: ",
                    };
                    concat(concat(primary.as_str(), joint).as_str(), c.as_str())
                },
            },
            LoadError::Close(c) => concat("failed to close workspace handle: ", c.as_str()),
        }
    }
}

/// What `HeaderValue::from_str` accepts in each character: visible ASCII,
/// space, tab, and every non-ASCII character (whose UTF-8 bytes are all 0x80
/// or above).
pub open spec fn header_char_ok(c: char) -> bool {
    (c as u32 >= 32 && c as u32 != 127) || c == '\t'
}

/// `axum::http::HeaderValue::from_str`, reduced to whether it succeeds: it
/// succeeds exactly when every byte of the text is at least 32 and not 127,
/// or is a tab. Stated per character: a character outside ASCII is written
/// with bytes of 128 and above, which are all accepted.
#[verifier::external_body]
fn header_value_accepts(s: &str) -> (ok: bool)
    ensures
        ok == (forall|i: int| 0 <= i < s@.len() ==> header_char_ok(#[trigger] s@[i])),
{
    axum::http::HeaderValue::from_str(s).is_ok()
}

/// Every piece of `s` with white space trimmed.
pub open spec fn trim_all(s: Seq<Seq<char>>) -> Seq<Seq<char>> {
    Seq::new(s.len(), |i: int| trim(s[i]))
}

/// The non-empty pieces of `s`, in order.
pub open spec fn drop_empty(s: Seq<Seq<char>>) -> Seq<Seq<char>>
    decreases s.len(),
{
    if s.len() == 0 {
        s
    } else {
        let d = drop_empty(s.drop_last());
        if s.last().len() > 0 {
            d.push(s.last())
        } else {
            d
        }
    }
}

/// The non-empty trimmed pieces of a comma-separated list.
pub open spec fn origin_candidates(raw: Seq<char>) -> Seq<Seq<char>> {
    drop_empty(trim_all(split_on(raw, ',')))
}

/// Whether a header can carry every character of `o`.
pub open spec fn header_ok(o: Seq<char>) -> bool {
    forall|i: int| 0 <= i < o.len() ==> header_char_ok(#[trigger] o[i])
}

/// The first candidate a header cannot carry, if any.
pub open spec fn first_bad_origin(cs: Seq<Seq<char>>) -> Option<Seq<char>>
    decreases cs.len(),
{
    if cs.len() == 0 {
        None
    } else {
        match first_bad_origin(cs.drop_last()) {
            Some(b) => Some(b),
            None => if header_ok(cs.last()) {
                None
            } else {
                Some(cs.last())
            },
        }
    }
}

/// The allowed browser origins a comma-separated setting names.
pub open spec fn allowed_origins_spec(raw: Seq<char>) -> Result<Seq<Seq<char>>, Seq<char>> {
    let cs = origin_candidates(raw);
    match first_bad_origin(cs) {
        Some(b) => Err("invalid allowed flight-deck origin '"@ + b + "'"@),
        None => if cs.len() == 0 {
            Err("at least one flight-deck UI origin must be allowed"@)
        } else {
            Ok(cs)
        },
    }
}

/// Reads the comma-separated list of browser origins allowed to call the
/// gateway.
pub fn parse_flight_deck_allowed_origins(raw: &str) -> (r: Result<Vec<String>, String>)
    ensures
        match allowed_origins_spec(raw@) {
            Ok(v) => r matches Ok(x) && texts(x@) == v,
            Err(m) => r matches Err(e) && e@ == m,
        },
{
    let v = chars_of(raw);
    let pieces = split_chars(&v, ',');
    let ghost trimmed = trim_all(split_on(raw@, ','));
    let mut origins: Vec<String> = Vec::new();
    let mut i: usize = 0;
    assert(drop_empty(trimmed.take(0)) =~= Seq::<Seq<char>>::empty());
    assert(texts(origins@) =~= Seq::<Seq<char>>::empty());
    while i < pieces.len()
        invariant
            v@ == raw@,
            trimmed == trim_all(split_on(raw@, ',')),
            pieces@.len() == trimmed.len(),
            forall|k: int| 0 <= k < pieces@.len() ==> trim((#[trigger] pieces@[k])@) == trimmed[k],
            i <= pieces.len(),
            texts(origins@) == drop_empty(trimmed.take(i as int)),
            first_bad_origin(texts(origins@)) is None,
        decreases pieces.len() - i,
    {
        let (a, b) = trim_bounds(&pieces[i]);
        let origin = string_from_range(&pieces[i], a, b);
        proof {
            let t = trimmed.take(i + 1);
            assert(t.drop_last() =~= trimmed.take(i as int));
            assert(t.last() == trimmed[i as int]);
            assert(origin@ == trimmed[i as int]);
        }
        if origin.as_str().unicode_len() > 0 {
            if !header_value_accepts(origin.as_str()) {
                proof {
                    let cs = texts(origins@).push(origin@);
                    assert(cs.drop_last() =~= texts(origins@));
                    assert(cs == drop_empty(trimmed.take(i + 1)));
                    assert(first_bad_origin(cs) == Some(origin@));
                    lemma_first_bad_extends(trimmed, i + 1);
                }
                return Err(concat(concat("invalid allowed flight-deck origin '", origin.as_str()).as_str(), "'"));
            }
            let ghost before = texts(origins@);
            origins.push(origin);
            assert(texts(origins@) =~= before.push(origin@));
            assert(texts(origins@).drop_last() =~= before);
        }
        i = i + 1;
    }
    assert(trimmed.take(i as int) =~= trimmed);
    if origins.len() == 0 {
        return Err(String::from_str("at least one flight-deck UI origin must be allowed"));
    }
    Ok(origins)
}

/// A bad origin found among the first candidates stays the first bad one.
proof fn lemma_first_bad_extends(trimmed: Seq<Seq<char>>, k: int)
    requires
        0 <= k <= trimmed.len(),
        first_bad_origin(drop_empty(trimmed.take(k))) is Some,
    ensures
        first_bad_origin(drop_empty(trimmed)) == first_bad_origin(drop_empty(trimmed.take(k))),
    decreases trimmed.len() - k,
{
    if k == trimmed.len() {
        assert(trimmed.take(k) =~= trimmed);
    } else {
        let t = trimmed.drop_last();
        assert(t.take(k) =~= trimmed.take(k));
        lemma_first_bad_extends(t, k);
        let d = drop_empty(t);
        if trimmed.last().len() > 0 {
            assert(drop_empty(trimmed).drop_last() =~= d);
        }
    }
}

/// Whether an origin is one of the allowed ones (byte-for-byte).
pub fn origin_is_allowed(origin: &str, allowed_origins: &Vec<String>) -> (r: bool)
    ensures
        r == exists|i: int| 0 <= i < allowed_origins@.len() && (#[trigger] allowed_origins@[i])@ == origin@,
{
    let mut i: usize = 0;
    while i < allowed_origins.len()
        invariant
            i <= allowed_origins.len(),
            forall|k: int| 0 <= k < i ==> (#[trigger] allowed_origins@[k])@ != origin@,
        decreases allowed_origins.len() - i,
    {
        if str_eq(allowed_origins[i].as_str(), origin) {
            return true;
        }
        i = i + 1;
    }
    false
}


/// The message for a node find that asks for edges back.
pub open spec fn edge_return_message() -> Seq<char> {
    "node.find return=edge is intentionally deferred in this gateway slice"@
}

/// Refuses a node find whose return mode is `edge`.
pub fn reject_edge_return(return_mode: Option<TraversalReturn>) -> (r: Result<(), String>)
    ensures
        r is Ok <==> return_mode != Some(TraversalReturn::Edge),
        r matches Err(m) ==> m@ == edge_return_message(),
{
    match return_mode {
        Some(TraversalReturn::Edge) => Err(String::from_str(
            "node.find return=edge is intentionally deferred in this gateway slice",
        )),
        _ => Ok(()),
    }
}

/// Which find a read-only query runs.
#[derive(Debug, Clone, Copy, PartialEq, Eq, Structural)]
pub enum QueryShape {
    NodeFind,
    EdgeFind,
}

/// The command name reported for a query's shape.
pub fn query_shape(shape: QueryShape) -> (r: &'static str)
    ensures
        r@ == match shape {
            QueryShape::NodeFind => "node.find"@,
            QueryShape::EdgeFind => "edge.find"@,
        },
{
    match shape {
        QueryShape::NodeFind => "node.find",
        QueryShape::EdgeFind => "edge.find",
    }
}


/// The principal a secured service reports.
#[derive(Debug, Clone, PartialEq, Eq)]
pub struct FlightDeckPrincipal {
    pub issuer: String,
    pub subject: String,
}

/// The security metadata the gateway shows: labels of the profile and the
/// identity status, the principal, and the authentication method and policy
/// version when the service named them.
#[derive(Debug, Clone)]
pub struct FlightDeckSecurityStatus {
    pub security_profile: String,
    pub identity_status: String,
    pub principal: Option<FlightDeckPrincipal>,
    pub authentication_method: Option<String>,
    pub policy_version: Option<String>,
}

/// An optional text that is absent when empty.
pub open spec fn non_empty_view(o: Option<String>, t: Seq<char>) -> bool {
    if t.len() == 0 {
        o is None
    } else {
        o matches Some(s) && s@ == t
    }
}

/// The security metadata shown for a service's security status. The
/// profile and identity codes the gateway does not know come as `None`.
pub fn flight_deck_security_status(
    security_profile: Option<SecurityProfile>,
    identity_status: Option<SecurityIdentityStatus>,
    principal: Option<FlightDeckPrincipal>,
    authentication_method: String,
    policy_version: String,
) -> (r: FlightDeckSecurityStatus)
    ensures
        r.security_profile@ == security_profile_label_spec(security_profile),
        r.identity_status@ == identity_status_label_spec(identity_status),
        r.principal == principal,
        non_empty_view(r.authentication_method, authentication_method@),
        non_empty_view(r.policy_version, policy_version@),
{
    let authentication_method = non_empty(authentication_method);
    FlightDeckSecurityStatus {
        security_profile: String::from_str(security_profile_label(security_profile)),
        identity_status: String::from_str(security_identity_status_label(identity_status)),
        principal,
        authentication_method,
        policy_version: non_empty(policy_version),
    }
}

/// The browser origins allowed when none are configured: the local
/// flight-deck UI and the gateway itself.
pub open spec fn default_allowed_origins_text() -> Seq<char> {
    "http://127.0.0.1:8081,http://localhost:8081,http://127.0.0.1:3001,http://localhost:3001"@
}

/// The allowed origins from the `GRM_FLIGHT_DECK_ALLOWED_ORIGINS` setting,
/// or the default list when it is not set.
pub fn configured_flight_deck_allowed_origins(setting: Option<String>) -> (r: Result<Vec<String>, String>)
    ensures
        match allowed_origins_spec(
            match setting {
                Some(s) => s@,
                None => default_allowed_origins_text(),
            },
        ) {
            Ok(v) => r matches Ok(x) && texts(x@) == v,
            Err(m) => r matches Err(e) && e@ == m,
        },
{
    match setting {
        Some(raw) => parse_flight_deck_allowed_origins(raw.as_str()),
        None => parse_flight_deck_allowed_origins(
            "http://127.0.0.1:8081,http://localhost:8081,http://127.0.0.1:3001,http://localhost:3001",
        ),
    }
}

} // verus!
