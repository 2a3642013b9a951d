//! The interactive service-backed session of the command line: its usage
//! text, the choice of output format, how stored records are rendered, and
//! the names that `let` binds to created ids.

use vstd::prelude::*;
use crate::config::{DurabilityFormat, texts};
use crate::error::GrmError;
use crate::query::QueryTerm;
use crate::service::ServiceWorkspaceMode;
use crate::cli::CliColors;
use crate::cli::{green, blue, orange};
use crate::text::{chars_of, concat, str_eq, is_ws, is_whitespace, i64_text, usize_text, u64_text, int_text, nat_text, parse_i64_spec};
use crate::value::{JsonValue, JsonNumber, non_string_text, number_to_text, int_value, from_i64, as_i64, as_i64_spec, copy_value};
use crate::records::{StoredNode, StoredRel, find_key, find_key_exec, lemma_find_key_bounds};
use crate::propmap::{sorted_keys, prop_map, insert_prop};

verus! {

/// The usage text of `grm session`.
pub open spec fn session_usage_text() -> Seq<char> {
    "Usage: grm session [--script <path> | --load json|bin <path> [--autocommit on|off]]\n\nLocal mode:\n  cargo run --bin grm -- session\n\nService-backed workspace mode:\n  GRM_BACKEND=grpc GRM_SERVICE_ENDPOINT=<url> GRM_WORKSPACE_REF=<ref> \\\n    GRM_SERVICE_WORKSPACE_MODE=create|open cargo run --bin grm -- session [--script <path>]\n\nSet GRM_SERVICE_TLS_CA_CERT and GRM_SERVICE_TLS_DOMAIN_NAME for server-authenticated TLS.\nSet GRM_SERVICE_TLS_CLIENT_CERT and GRM_SERVICE_TLS_CLIENT_KEY when the service requires mutual TLS.\nGRM_SERVICE_WORKSPACE_MODE defaults to open when omitted.\nGRM_SERVICE_WORKSPACE_FORMAT defaults to binary; set json only as an explicit opt-in.\nService scripts are parsed by the CLI and supported commands route through ExecuteWorkspace.\n--load remains local-only; reopen a service workspace with GRM_SERVICE_WORKSPACE_MODE=open."@
}

/// The usage text of `grm session`.
pub fn session_usage() -> (u: &'static str)
    ensures
        u@ == session_usage_text(),
{
    "Usage: grm session [--script <path> | --load json|bin <path> [--autocommit on|off]]\n\nLocal mode:\n  cargo run --bin grm -- session\n\nService-backed workspace mode:\n  GRM_BACKEND=grpc GRM_SERVICE_ENDPOINT=<url> GRM_WORKSPACE_REF=<ref> \\\n    GRM_SERVICE_WORKSPACE_MODE=create|open cargo run --bin grm -- session [--script <path>]\n\nSet GRM_SERVICE_TLS_CA_CERT and GRM_SERVICE_TLS_DOMAIN_NAME for server-authenticated TLS.\nSet GRM_SERVICE_TLS_CLIENT_CERT and GRM_SERVICE_TLS_CLIENT_KEY when the service requires mutual TLS.\nGRM_SERVICE_WORKSPACE_MODE defaults to open when omitted.\nGRM_SERVICE_WORKSPACE_FORMAT defaults to binary; set json only as an explicit opt-in.\nService scripts are parsed by the CLI and supported commands route through ExecuteWorkspace.\n--load remains local-only; reopen a service workspace with GRM_SERVICE_WORKSPACE_MODE=open."
}

/// How a workspace mode is shown in the session summary.
pub fn service_mode_display(mode: ServiceWorkspaceMode) -> (r: &'static str)
    ensures
        r@ == match mode {
            ServiceWorkspaceMode::Create => "create"@,
            ServiceWorkspaceMode::Open => "open"@,
        },
{
    match mode {
        ServiceWorkspaceMode::Create => "create",
        ServiceWorkspaceMode::Open => "open",
    }
}

/// How a persistence format is shown in the session summary.
pub fn durability_format_display(format: DurabilityFormat) -> (r: &'static str)
    ensures
        r@ == match format {
            DurabilityFormat::Json => "json"@,
            DurabilityFormat::Binary => "binary"@,
        },
{
    match format {
        DurabilityFormat::Json => "json",
        DurabilityFormat::Binary => "binary",
    }
}

/// The shape in which find results are written.
#[derive(Debug, Clone, Copy, PartialEq, Eq, Structural)]
pub enum ServiceOutputFormat {
    Default,
    Jsonl,
    Table,
    Graph,
}

/// Position of the first term whose key is `key`.
pub open spec fn first_term(terms: Seq<QueryTerm>, key: Seq<char>) -> Option<int>
    decreases terms.len(),
{
    if terms.len() == 0 {
        None
    } else {
        match first_term(terms.drop_last(), key) {
            Some(i) => Some(i),
            None => if terms.last().key@ == key {
                Some(terms.len() - 1)
            } else {
                None
            },
        }
    }
}

pub proof fn lemma_first_term_bounds(terms: Seq<QueryTerm>, key: Seq<char>)
    ensures
        first_term(terms, key) is Some ==> 0 <= first_term(terms, key)->0 < terms.len()
            && terms[first_term(terms, key)->0].key@ == key,
    decreases terms.len(),
{
    if terms.len() > 0 {
        lemma_first_term_bounds(terms.drop_last(), key);
    }
}

/// The output format a `format=` value names.
pub open spec fn output_format_named(raw: Seq<char>) -> Option<ServiceOutputFormat> {
    if raw == "default"@ {
        Some(ServiceOutputFormat::Default)
    } else if raw == "jsonl"@ {
        Some(ServiceOutputFormat::Jsonl)
    } else if raw == "table"@ {
        Some(ServiceOutputFormat::Table)
    } else if raw == "graph"@ {
        Some(ServiceOutputFormat::Graph)
    } else {
        None
    }
}

/// The message for an unknown `format=` value.
pub open spec fn bad_format_message() -> Seq<char> {
    "format must be one of: default, jsonl, table, graph"@
}

/// The format chosen by the terms of a find command: the value of its first
/// `format=` term, or the default when there is none.
pub open spec fn output_format_spec(terms: Seq<QueryTerm>) -> Result<ServiceOutputFormat, Seq<char>> {
    match first_term(terms, "format"@) {
        None => Ok(ServiceOutputFormat::Default),
        Some(i) => match output_format_named(terms[i].value@) {
            Some(f) => Ok(f),
            None => Err(bad_format_message()),
        },
    }
}

/// Position of the first term whose key is `key`.
pub fn find_term(terms: &Vec<QueryTerm>, key: &str) -> (r: Option<usize>)
    ensures
        r is Some <==> first_term(terms@, key@) is Some,
        r matches Some(p) ==> first_term(terms@, key@) == Some(p as int),
{
    let mut i: usize = 0;
    while i < terms.len()
        invariant
            i <= terms.len(),
            first_term(terms@.take(i as int), key@) is None,
        decreases terms.len() - i,
    {
        assert(terms@.take(i as int + 1).drop_last() =~= terms@.take(i as int));
        if str_eq(terms[i].key.as_str(), key) {
            assert(first_term(terms@.take(i as int + 1), key@) == Some(i as int));
            proof {
                lemma_first_term_prefix(terms@, key@, i as int + 1);
            }
            return Some(i);
        }
        i = i + 1;
    }
    assert(terms@.take(i as int) =~= terms@);
    None
}

/// A match within a prefix is the match of the whole sequence.
pub proof fn lemma_first_term_prefix(terms: Seq<QueryTerm>, key: Seq<char>, n: int)
    requires
        0 <= n <= terms.len(),
        first_term(terms.take(n), key) is Some,
    ensures
        first_term(terms, key) == first_term(terms.take(n), key),
    decreases terms.len() - n,
{
    if n < terms.len() {
        assert(terms.take(n + 1).drop_last() =~= terms.take(n));
        lemma_first_term_prefix(terms, key, n + 1);
    } else {
        assert(terms.take(n) =~= terms);
    }
}

/// The output format selected by the `format=` term of a find command.
pub fn service_output_format(terms: &Vec<QueryTerm>) -> (r: Result<ServiceOutputFormat, GrmError>)
    ensures
        match output_format_spec(terms@) {
            Ok(f) => r == Ok::<ServiceOutputFormat, GrmError>(f),
            Err(m) => r is Err && r->Err_0@ == crate::error::ErrorView::Constraint(m),
        },
{
    proof {
        lemma_first_term_bounds(terms@, "format"@);
    }
    match find_term(terms, "format") {
        None => Ok(ServiceOutputFormat::Default),
        Some(i) => {
            let raw = terms[i].value.as_str();
            if str_eq(raw, "default") {
                Ok(ServiceOutputFormat::Default)
            } else if str_eq(raw, "jsonl") {
                Ok(ServiceOutputFormat::Jsonl)
            } else if str_eq(raw, "table") {
                Ok(ServiceOutputFormat::Table)
            } else if str_eq(raw, "graph") {
                Ok(ServiceOutputFormat::Graph)
            } else {
                Err(GrmError::Constraint(String::from_str("format must be one of: default, jsonl, table, graph")))
            }
        },
    }
}

/// Whether some character of `s` is white space.
pub open spec fn has_ws(s: Seq<char>) -> bool {
    exists|i: int| 0 <= i < s.len() && is_ws(#[trigger] s[i])
}

/// Whether some character of `s` is white space.
pub fn contains_whitespace(s: &str) -> (r: bool)
    ensures
        r == has_ws(s@),
{
    let v = chars_of(s);
    let mut i: usize = 0;
    while i < v.len()
        invariant
            v@ == s@,
            i <= v.len(),
            forall|j: int| 0 <= j < i ==> !is_ws(#[trigger] s@[j]),
        decreases v.len() - i,
    {
        if is_whitespace(v[i]) {
            return true;
        }
        i = i + 1;
    }
    false
}

/// The compact JSON text of a value that is not a string.
pub fn non_string_to_text(v: &JsonValue) -> (s: String)
    ensures
        s@ == non_string_text(*v),
{
    match v {
        JsonValue::Null => String::from_str("null"),
        JsonValue::Bool(b) => if *b {
            String::from_str("true")
        } else {
            String::from_str("false")
        },
        JsonValue::Number(n) => number_to_text(n),
        JsonValue::String(t) => t.clone(),
        JsonValue::Array(t) => t.clone(),
        JsonValue::Object(t) => t.clone(),
    }
}

/// How one property value is shown: a string in the string colour, quoted
/// when it holds white space; any other value as its JSON text.
pub open spec fn scalar_text(v: JsonValue, colors: CliColors) -> Seq<char> {
    match v {
        JsonValue::String(t) => if has_ws(t@) {
            colors.wrap_spec("\""@ + t@ + "\""@, orange())
        } else {
            colors.wrap_spec(t@, orange())
        },
        _ => non_string_text(v),
    }
}

/// How one property value is shown.
pub fn scalar_display(value: &JsonValue, colors: &CliColors) -> (r: String)
    ensures
        r@ == scalar_text(*value, *colors),
{
    match value {
        JsonValue::String(t) => {
            if contains_whitespace(t.as_str()) {
                let quoted = concat(concat("\"", t.as_str()).as_str(), "\"");
                colors.string_value(quoted.as_str())
            } else {
                colors.string_value(t.as_str())
            }
        },
        _ => non_string_to_text(value),
    }
}

/// One `name=value` entry of a property list.
pub open spec fn prop_entry(entry: (String, JsonValue), colors: CliColors) -> Seq<char> {
    colors.wrap_spec(entry.0@, blue()) + "="@ + scalar_text(entry.1, colors)
}

/// The entries of a property list, separated by single spaces.
pub open spec fn joined_entries(props: Seq<(String, JsonValue)>, colors: CliColors) -> Seq<char>
    decreases props.len(),
{
    if props.len() == 0 {
        Seq::empty()
    } else if props.len() == 1 {
        prop_entry(props[0], colors)
    } else {
        joined_entries(props.drop_last(), colors) + " "@ + prop_entry(props.last(), colors)
    }
}

/// A property list in braces; `{}` when it is empty.
pub open spec fn props_text(props: Seq<(String, JsonValue)>, colors: CliColors) -> Seq<char> {
    if props.len() == 0 {
        "{}"@
    } else {
        "{"@ + joined_entries(props, colors) + "}"@
    }
}

/// A property list in braces, entries in the order given (key order).
pub fn props_display(props: &Vec<(String, JsonValue)>, colors: &CliColors) -> (r: String)
    ensures
        r@ == props_text(props@, *colors),
{
    if props.len() == 0 {
        return String::from_str("{}");
    }
    let mut body = String::new();
    let mut i: usize = 0;
    while i < props.len()
        invariant
            i <= props.len(),
            body@ == joined_entries(props@.take(i as int), *colors),
        decreases props.len() - i,
    {
        let name = colors.property_name(props[i].0.as_str());
        let shown = scalar_display(&props[i].1, colors);
        let entry = concat(concat(name.as_str(), "=").as_str(), shown.as_str());
        assert(props@.take(i as int + 1).drop_last() =~= props@.take(i as int));
        if i == 0 {
            body = entry;
        } else {
            body = concat(concat(body.as_str(), " ").as_str(), entry.as_str());
        }
        i = i + 1;
    }
    assert(props@.take(i as int) =~= props@);
    concat(concat("{", body.as_str()).as_str(), "}")
}

/// A table cell for an optional property: the shown value, or nothing.
pub fn service_table_value(value: Option<&JsonValue>, colors: &CliColors) -> (r: String)
    ensures
        r@ == match value {
            Some(v) => scalar_text(*v, *colors),
            None => Seq::empty(),
        },
{
    match value {
        Some(v) => scalar_display(v, colors),
        None => String::new(),
    }
}

/// The model shown for a node: its first label, or nothing.
pub open spec fn first_label(labels: Seq<String>) -> Seq<char> {
    if labels.len() > 0 {
        labels[0]@
    } else {
        Seq::empty()
    }
}

/// The line written for a found node.
pub open spec fn node_line_text(node: StoredNode, colors: CliColors) -> Seq<char> {
    "Node "@ + colors.wrap_spec(first_label(node.labels@), green()) + " id="@ + int_text(node.id as int)
        + " "@ + props_text(node.props@, colors)
}

/// The line written for a found edge.
pub open spec fn edge_line_text(edge: StoredRel, colors: CliColors) -> Seq<char> {
    "Edge "@ + colors.wrap_spec(edge.rel_type@, green()) + " id="@ + int_text(edge.id as int) + " from="@
        + int_text(edge.from as int) + " to="@ + int_text(edge.to as int) + " "@ + props_text(edge.props@, colors)
}

/// The line written for a found node.
pub fn node_line(node: &StoredNode, colors: &CliColors) -> (r: String)
    ensures
        r@ == node_line_text(*node, *colors),
{
    let model = if node.labels.len() > 0 {
        colors.type_label(node.labels[0].as_str())
    } else {
        proof {
            reveal_strlit("");
        }
        colors.type_label("")
    };
    let mut s = concat("Node ", model.as_str());
    s = concat(s.as_str(), " id=");
    s = concat(s.as_str(), i64_text(node.id).as_str());
    s = concat(s.as_str(), " ");
    concat(s.as_str(), props_display(&node.props, colors).as_str())
}

/// The line written for a found edge.
pub fn edge_line(edge: &StoredRel, colors: &CliColors) -> (r: String)
    ensures
        r@ == edge_line_text(*edge, *colors),
{
    let mut s = concat("Edge ", colors.type_label(edge.rel_type.as_str()).as_str());
    s = concat(s.as_str(), " id=");
    s = concat(s.as_str(), i64_text(edge.id).as_str());
    s = concat(s.as_str(), " from=");
    s = concat(s.as_str(), i64_text(edge.from).as_str());
    s = concat(s.as_str(), " to=");
    s = concat(s.as_str(), i64_text(edge.to).as_str());
    s = concat(s.as_str(), " ");
    concat(s.as_str(), props_display(&edge.props, colors).as_str())
}

/// The numbered step lines of a query plan.
pub open spec fn plan_step_line(k: int, step: Seq<char>) -> Seq<char> {
    "  "@ + nat_text((k + 1) as nat) + ". "@ + step
}

/// The lines of a plan: a heading, then each step numbered from one.
pub open spec fn plan_lines(steps: Seq<String>) -> Seq<Seq<char>> {
    seq!["Plan steps:"@] + Seq::new(steps.len(), |k: int| plan_step_line(k, steps[k]@))
}

/// The lines of a plan: a heading, then each step numbered from one.
pub fn plan_step_lines(steps: &Vec<String>) -> (r: Vec<String>)
    ensures
        texts(r@) == plan_lines(steps@),
{
    let mut r: Vec<String> = Vec::new();
    r.push(String::from_str("Plan steps:"));
    let mut i: usize = 0;
    while i < steps.len()
        invariant
            i <= steps.len(),
            texts(r@) == plan_lines(steps@).take(i as int + 1),
        decreases steps.len() - i,
    {
        let mut line = concat("  ", usize_text(i + 1).as_str());
        line = concat(line.as_str(), ". ");
        line = concat(line.as_str(), steps[i].as_str());
        assert(line@ == plan_step_line(i as int, steps[i as int]@));
        assert(plan_lines(steps@)[i as int + 1] == line@);
        let ghost before = r@;
        r.push(line);
        assert(texts(r@) =~= texts(before).push(line@));
        i = i + 1;
        assert(texts(r@) =~= plan_lines(steps@).take(i as int + 1));
    }
    assert(plan_lines(steps@).take(i as int + 1) =~= plan_lines(steps@));
    r
}

/// The lines written for a plan explanation.
pub fn service_explain_lines(plan_kind: &str, steps: &Vec<String>) -> (r: Vec<String>)
    ensures
        texts(r@) == seq!["Current logical plan for "@ + plan_kind@] + plan_lines(steps@),
{
    let mut r: Vec<String> = Vec::new();
    r.push(concat("Current logical plan for ", plan_kind));
    let mut rest = plan_step_lines(steps);
    r.append(&mut rest);
    assert(texts(r@) =~= seq!["Current logical plan for "@ + plan_kind@] + plan_lines(steps@));
    r
}

/// The message for a profile response without its plan.
pub open spec fn missing_plan_message() -> Seq<char> {
    "service profile response is missing plan"@
}

/// The lines written for a profile: the plan it ran, the number of result
/// rows and the elapsed time. `plan` is the plan kind and steps, absent when
/// the service left them out.
pub fn service_profile_lines(plan: Option<(String, Vec<String>)>, row_count: u64, elapsed_micros: u64) -> (r: Result<Vec<String>, GrmError>)
    ensures
        match plan {
            None => r is Err && r->Err_0@ == crate::error::ErrorView::Constraint(missing_plan_message()),
            Some((kind, steps)) => r is Ok && texts(r->Ok_0@) == seq!["Profile for "@ + kind@] + plan_lines(steps@)
                + seq!["Result rows: "@ + nat_text(row_count as nat), "Elapsed: "@ + nat_text(elapsed_micros as nat) + "us"@],
        },
{
    match plan {
        None => Err(GrmError::Constraint(String::from_str("service profile response is missing plan"))),
        Some((kind, steps)) => {
            let mut r: Vec<String> = Vec::new();
            r.push(concat("Profile for ", kind.as_str()));
            let mut rest = plan_step_lines(&steps);
            r.append(&mut rest);
            r.push(concat("Result rows: ", u64_text(row_count).as_str()));
            r.push(concat(concat("Elapsed: ", u64_text(elapsed_micros).as_str()).as_str(), "us"));
            assert(texts(r@) =~= seq!["Profile for "@ + kind@] + plan_lines(steps@)
                + seq!["Result rows: "@ + nat_text(row_count as nat), "Elapsed: "@ + nat_text(elapsed_micros as nat) + "us"@]);
            Ok(r)
        },
    }
}

/// The names bound so far: a later entry for a name replaces an earlier one.
pub open spec fn bound_map(s: Seq<(String, i64)>) -> Map<Seq<char>, i64>
    decreases s.len(),
{
    if s.len() == 0 {
        Map::empty()
    } else {
        bound_map(s.drop_last()).insert(s.last().0@, s.last().1)
    }
}

/// Entries after position `n` that do not name `k` leave its binding alone.
pub proof fn lemma_bound_map_suffix(s: Seq<(String, i64)>, n: int, k: Seq<char>)
    requires
        0 <= n <= s.len(),
        forall|j: int| n <= j < s.len() ==> (#[trigger] s[j]).0@ != k,
    ensures
        bound_map(s).dom().contains(k) == bound_map(s.take(n)).dom().contains(k),
        bound_map(s).dom().contains(k) ==> bound_map(s)[k] == bound_map(s.take(n))[k],
    decreases s.len(),
{
    if n == s.len() {
        assert(s.take(n) =~= s);
    } else {
        let t = s.drop_last();
        assert(t.take(n) =~= s.take(n));
        assert forall|j: int| n <= j < t.len() implies (#[trigger] t[j]).0@ != k by {
            assert(t[j] == s[j]);
        }
        lemma_bound_map_suffix(t, n, k);
    }
}

/// The names that `let` has bound to created ids in a session.
#[derive(Debug, Clone)]
pub struct Bindings {
    entries: Vec<(String, i64)>,
}

impl View for Bindings {
    type V = Map<Seq<char>, i64>;

    closed spec fn view(&self) -> Map<Seq<char>, i64> {
        bound_map(self.entries@)
    }
}

impl Bindings {
    /// No names bound.
    pub fn new() -> (b: Self)
        ensures
            b@ == Map::<Seq<char>, i64>::empty(),
    {
        Bindings { entries: Vec::new() }
    }

    /// The id bound to `name`, if any.
    pub fn get(&self, name: &str) -> (r: Option<i64>)
        ensures
            r is Some <==> self@.dom().contains(name@),
            r matches Some(id) ==> id == self@[name@],
    {
        let mut i: usize = self.entries.len();
        while i > 0
            invariant
                i <= self.entries.len(),
                forall|j: int| i <= j < self.entries.len() ==> (#[trigger] self.entries@[j]).0@ != name@,
            decreases i,
        {
            if str_eq(self.entries[i - 1].0.as_str(), name) {
                proof {
                    let s = self.entries@;
                    lemma_bound_map_suffix(s, i as int, name@);
                    assert(s.take(i as int).drop_last() =~= s.take(i - 1));
                }
                return Some(self.entries[i - 1].1);
            }
            i = i - 1;
        }
        proof {
            lemma_bound_map_suffix(self.entries@, 0, name@);
            assert(self.entries@.take(0) =~= Seq::<(String, i64)>::empty());
        }
        None
    }

    /// Binds `name` to `id`, replacing any earlier binding of the name.
    pub fn insert(&mut self, name: String, id: i64)
        ensures
            final(self)@ == old(self)@.insert(name@, id),
    {
        let ghost before = self.entries@;
        self.entries.push((name, id));
        assert(self.entries@.drop_last() =~= before);
    }
}

/// The message for a name that is already bound.
pub open spec fn binding_taken_message(binding: Seq<char>) -> Seq<char> {
    "binding '"@ + binding + "' already exists"@
}

/// Refuses a `let` name that is already bound.
pub fn ensure_binding_available(bindings: &Bindings, binding: &str) -> (r: Result<(), GrmError>)
    ensures
        r is Ok <==> !bindings@.dom().contains(binding@),
        r is Err ==> r->Err_0@ == crate::error::ErrorView::Constraint(binding_taken_message(binding@)),
{
    match bindings.get(binding) {
        Some(_) => {
            let m = concat(concat("binding '", binding).as_str(), "' already exists");
            Err(GrmError::Constraint(m))
        },
        None => Ok(()),
    }
}

/// The message for an argument that is not an integer.
pub open spec fn not_integer_message(name: Seq<char>) -> Seq<char> {
    name + " must be an integer"@
}

/// Reads an integer argument named `name`.
pub fn parse_i64(raw: &str, name: &str) -> (r: Result<i64, GrmError>)
    ensures
        match parse_i64_spec(raw@) {
            Some(v) => r == Ok::<i64, GrmError>(v),
            None => r is Err && r->Err_0@ == crate::error::ErrorView::Constraint(not_integer_message(name@)),
        },
{
    match crate::text::parse_i64(&chars_of(raw)) {
        Some(v) => Ok(v),
        None => Err(GrmError::Constraint(concat(name, " must be an integer"))),
    }
}

/// An integer argument given as a bound name or as digits: a bound name
/// wins.
pub fn parse_i64_or_binding(raw: &str, name: &str, bindings: &Bindings) -> (r: Result<i64, GrmError>)
    ensures
        bindings@.dom().contains(raw@) ==> r == Ok::<i64, GrmError>(bindings@[raw@]),
        !bindings@.dom().contains(raw@) ==> match parse_i64_spec(raw@) {
            Some(v) => r == Ok::<i64, GrmError>(v),
            None => r is Err && r->Err_0@ == crate::error::ErrorView::Constraint(not_integer_message(name@)),
        },
{
    match bindings.get(raw) {
        Some(id) => Ok(id),
        None => parse_i64(raw, name),
    }
}

/// Whether `v` is the JSON value of the command argument `raw`: `true` and
/// `false` are booleans, a decimal `i64` is an integer, then what reading the
/// text as a floating-point number gave (`float_reading`, the JSON value of
/// the `f64` that `str::parse` returns, `None` where it fails), and otherwise
/// the text itself as a string.
pub open spec fn is_scalar_value(v: JsonValue, raw: Seq<char>, float_reading: Option<JsonValue>) -> bool {
    if raw == "true"@ {
        v == JsonValue::Bool(true)
    } else if raw == "false"@ {
        v == JsonValue::Bool(false)
    } else {
        match parse_i64_spec(raw) {
            Some(i) => v == int_value(i),
            None => match float_reading {
                Some(f) => v == f,
                None => v matches JsonValue::String(t) && t@ == raw,
            },
        }
    }
}

/// The JSON value of a command argument. Reading the text as a
/// floating-point number is left to the caller, who passes what it gave.
pub fn parse_scalar(raw: &str, float_reading: Option<JsonValue>) -> (v: JsonValue)
    ensures
        is_scalar_value(v, raw@, float_reading),
{
    if str_eq(raw, "true") {
        JsonValue::Bool(true)
    } else if str_eq(raw, "false") {
        JsonValue::Bool(false)
    } else {
        match crate::text::parse_i64(&chars_of(raw)) {
            Some(i) => from_i64(i),
            None => match float_reading {
                Some(f) => f,
                None => JsonValue::String(String::from_str(raw)),
            },
        }
    }
}

/// A command argument that may name a binding: a bound name gives its id.
pub fn parse_scalar_or_binding(raw: &str, bindings: &Bindings, float_reading: Option<JsonValue>) -> (v: JsonValue)
    ensures
        bindings@.dom().contains(raw@) ==> v == int_value(bindings@[raw@]),
        !bindings@.dom().contains(raw@) ==> is_scalar_value(v, raw@, float_reading),
{
    match bindings.get(raw) {
        Some(id) => from_i64(id),
        None => parse_scalar(raw, float_reading),
    }
}

/// The message for a missing endpoint property.
pub open spec fn endpoint_required_message(key: Seq<char>) -> Seq<char> {
    "edge.create requires "@ + key + "=<id>"@
}

/// The message for an endpoint property that is not an id.
pub open spec fn endpoint_not_id_message(key: Seq<char>) -> Seq<char> {
    key + " must be an integer id"@
}

/// What taking the endpoint `key` out of a property list yields.
pub open spec fn endpoint_result(props: Seq<(String, JsonValue)>, key: Seq<char>, bindings: Map<Seq<char>, i64>) -> Result<i64, Seq<char>> {
    match find_key(props, key) {
        None => Err(endpoint_required_message(key)),
        Some(i) => match props[i].1 {
            JsonValue::String(b) => if bindings.dom().contains(b@) {
                Ok(bindings[b@])
            } else {
                Err(endpoint_not_id_message(key))
            },
            v => match as_i64_spec(v) {
                Some(id) => Ok(id),
                None => Err(endpoint_not_id_message(key)),
            },
        },
    }
}

/// Takes the endpoint property `key` out of `props` and reads it as a node
/// id: a string names a binding, any other value must be an integer.
pub fn take_required_id_or_binding(props: &mut Vec<(String, JsonValue)>, key: &str, bindings: &Bindings) -> (r: Result<i64, GrmError>)
    ensures
        match find_key(old(props)@, key@) {
            None => final(props)@ == old(props)@,
            Some(i) => final(props)@ == old(props)@.remove(i),
        },
        match endpoint_result(old(props)@, key@, bindings@) {
            Ok(id) => r == Ok::<i64, GrmError>(id),
            Err(m) => r is Err && r->Err_0@ == crate::error::ErrorView::Constraint(m),
        },
{
    proof {
        lemma_find_key_bounds(props@, key@);
    }
    let i = match find_key_exec(props, key) {
        Some(i) => i,
        None => {
            return Err(GrmError::Constraint(concat(concat("edge.create requires ", key).as_str(), "=<id>")));
        },
    };
    let (_name, value) = props.remove(i);
    match value {
        JsonValue::String(binding) => match bindings.get(binding.as_str()) {
            Some(id) => Ok(id),
            None => Err(GrmError::Constraint(concat(key, " must be an integer id"))),
        },
        other => match as_i64(&other) {
            Some(id) => Ok(id),
            None => Err(GrmError::Constraint(concat(key, " must be an integer id"))),
        },
    }
}

/// The lines of the command summary shown by `session.help` in service mode.
pub open spec fn service_help_text(c: CliColors) -> Seq<Seq<char>> {
    seq![
        "Available commands in gRPC service mode:"@,
        "  "@ + c.wrap_spec("model.define"@, blue()) + " <Name> <id_field> [field:type:required|optional ...]"@,
        "  "@ + c.wrap_spec("link.define"@, blue()) + " <Name> <from_model> <to_model> <id_field> [field:type:required|optional ...]"@,
        "  "@ + c.wrap_spec("model.list"@, blue()) + " | "@ + c.wrap_spec("link.list"@, blue()) + " | "@ + c.wrap_spec("session.describe"@, blue()),
        "  "@ + c.wrap_spec("node.create"@, blue()) + " <ModelName> [field=value ...]"@,
        "  let <name> = "@ + c.wrap_spec("node.create"@, blue()) + " <ModelName> [field=value ...]"@,
        "  "@ + c.wrap_spec("node.find"@, blue()) + " <ModelName> [field=value|field!=value|field>value|field>=value|field<value|field<=value|field~value ...] [via=<out|in|both>:<LinkName|*>:<EndModel> ...] [end.<field>=value ...] [edge.<field>=value ...] [return=root|end|edge] [order=<field>:asc|desc[,<field>:asc|desc ...]] [limit=<n>] [offset=<n>] [format=default|jsonl|table]"@,
        "  "@ + c.wrap_spec("node.update"@, blue()) + " <ModelName> <id|binding> [field=value ...]"@,
        "  "@ + c.wrap_spec("node.delete"@, blue()) + " <ModelName> <id|binding>"@,
        "  "@ + c.wrap_spec("edge.create"@, blue()) + " <LinkName> from=<id|binding> to=<id|binding> [field=value ...]"@,
        "  "@ + c.wrap_spec("edge.find"@, blue()) + " <LinkName> [from=<id|binding>] [to=<id|binding>] [field=value|field!=value|field>value|field>=value|field<value|field<=value|field~value ...] [order=<field>:asc|desc[,<field>:asc|desc ...]] [limit=<n>] [offset=<n>] [format=default|jsonl|table]"@,
        "  "@ + c.wrap_spec("edge.update"@, blue()) + " <LinkName> <id|binding> [field=value ...]"@,
        "  "@ + c.wrap_spec("edge.delete"@, blue()) + " <LinkName> <id|binding>"@,
        "  "@ + c.wrap_spec("session.describe"@, blue()) + " [--verbose]"@,
        "  "@ + c.wrap_spec("session.help"@, blue()),
        "  "@ + c.wrap_spec("session.exit"@, blue()),
        Seq::empty(),
        "Local-only or unsupported in gRPC service mode: session.save/load/import/export, session.autocommit, session.compact, tx.begin/commit, free-form query parity, session.indexes, model.show, and link.show."@,
    ]
}

/// The lines of the command summary shown by `session.help` in service mode.
pub fn service_help_lines(colors: &CliColors) -> (r: Vec<String>)
    ensures
        texts(r@) == service_help_text(*colors),
{
    let mut r: Vec<String> = Vec::new();
    r.push(String::from_str("Available commands in gRPC service mode:"));
    r.push(concat(concat("  ", colors.property_name("model.define").as_str()).as_str(), " <Name> <id_field> [field:type:required|optional ...]"));
    r.push(concat(concat("  ", colors.property_name("link.define").as_str()).as_str(), " <Name> <from_model> <to_model> <id_field> [field:type:required|optional ...]"));
    r.push(concat(concat(concat(concat(concat("  ", colors.property_name("model.list").as_str()).as_str(), " | ").as_str(), colors.property_name("link.list").as_str()).as_str(), " | ").as_str(), colors.property_name("session.describe").as_str()));
    r.push(concat(concat("  ", colors.property_name("node.create").as_str()).as_str(), " <ModelName> [field=value ...]"));
    r.push(concat(concat("  let <name> = ", colors.property_name("node.create").as_str()).as_str(), " <ModelName> [field=value ...]"));
    r.push(concat(concat("  ", colors.property_name("node.find").as_str()).as_str(), " <ModelName> [field=value|field!=value|field>value|field>=value|field<value|field<=value|field~value ...] [via=<out|in|both>:<LinkName|*>:<EndModel> ...] [end.<field>=value ...] [edge.<field>=value ...] [return=root|end|edge] [order=<field>:asc|desc[,<field>:asc|desc ...]] [limit=<n>] [offset=<n>] [format=default|jsonl|table]"));
    r.push(concat(concat("  ", colors.property_name("node.update").as_str()).as_str(), " <ModelName> <id|binding> [field=value ...]"));
    r.push(concat(concat("  ", colors.property_name("node.delete").as_str()).as_str(), " <ModelName> <id|binding>"));
    r.push(concat(concat("  ", colors.property_name("edge.create").as_str()).as_str(), " <LinkName> from=<id|binding> to=<id|binding> [field=value ...]"));
    r.push(concat(concat("  ", colors.property_name("edge.find").as_str()).as_str(), " <LinkName> [from=<id|binding>] [to=<id|binding>] [field=value|field!=value|field>value|field>=value|field<value|field<=value|field~value ...] [order=<field>:asc|desc[,<field>:asc|desc ...]] [limit=<n>] [offset=<n>] [format=default|jsonl|table]"));
    r.push(concat(concat("  ", colors.property_name("edge.update").as_str()).as_str(), " <LinkName> <id|binding> [field=value ...]"));
    r.push(concat(concat("  ", colors.property_name("edge.delete").as_str()).as_str(), " <LinkName> <id|binding>"));
    r.push(concat(concat("  ", colors.property_name("session.describe").as_str()).as_str(), " [--verbose]"));
    r.push(concat("  ", colors.property_name("session.help").as_str()));
    r.push(concat("  ", colors.property_name("session.exit").as_str()));
    r.push(String::new());
    r.push(String::from_str("Local-only or unsupported in gRPC service mode: session.save/load/import/export, session.autocommit, session.compact, tx.begin/commit, free-form query parity, session.indexes, model.show, and link.show."));
    proof {
        reveal_strlit("");
    }
    assert(texts(r@) =~= service_help_text(*colors));
    r
}


/// Position of the last term whose key is `k`.
pub open spec fn last_term(terms: Seq<QueryTerm>, k: Seq<char>) -> Option<int>
    decreases terms.len(),
{
    if terms.len() == 0 {
        None
    } else if terms.last().key@ == k {
        Some(terms.len() - 1)
    } else {
        last_term(terms.drop_last(), k)
    }
}

pub proof fn lemma_last_term_bounds(terms: Seq<QueryTerm>, k: Seq<char>)
    ensures
        last_term(terms, k) matches Some(i) ==> 0 <= i < terms.len() && terms[i].key@ == k,
    decreases terms.len(),
{
    if terms.len() > 0 {
        lemma_last_term_bounds(terms.drop_last(), k);
    }
}

/// Whether `v` is the JSON value of a filter term: with endpoint resolution
/// on, a `from` or `to` value that names a binding is that binding's id;
/// any other value is read as a scalar.
pub open spec fn is_term_value(v: JsonValue, t: QueryTerm, float_reading: Option<JsonValue>, bindings: Map<Seq<char>, i64>, resolve_endpoint_ids: bool) -> bool {
    if resolve_endpoint_ids && (t.key@ == "from"@ || t.key@ == "to"@) && bindings.dom().contains(t.value@) {
        v == int_value(bindings[t.value@])
    } else {
        is_scalar_value(v, t.value@, float_reading)
    }
}

/// The filters of a find command as JSON values by key, in key order; a
/// later term for a key replaces an earlier one. `float_readings[i]` is what
/// reading the value of term `i` as a floating-point number gave.
pub fn terms_to_json_filters(terms: Vec<QueryTerm>, bindings: &Bindings, resolve_endpoint_ids: bool, float_readings: Vec<Option<JsonValue>>) -> (r: Result<Vec<(String, JsonValue)>, GrmError>)
    requires
        float_readings.len() == terms.len(),
    ensures
        r is Ok,
        sorted_keys(r->Ok_0@),
        forall|k: Seq<char>| #[trigger] prop_map(r->Ok_0@).dom().contains(k) <==> last_term(terms@, k) is Some,
        forall|k: Seq<char>| #[trigger] prop_map(r->Ok_0@).dom().contains(k) ==> is_term_value(
            prop_map(r->Ok_0@)[k],
            terms@[last_term(terms@, k)->0],
            float_readings@[last_term(terms@, k)->0],
            bindings@,
            resolve_endpoint_ids,
        ),
{
    let mut out: Vec<(String, JsonValue)> = Vec::new();
    let mut i: usize = 0;
    while i < terms.len()
        invariant
            float_readings.len() == terms.len(),
            i <= terms.len(),
            sorted_keys(out@),
            forall|k: Seq<char>| #[trigger] prop_map(out@).dom().contains(k) <==> last_term(terms@.take(i as int), k) is Some,
            forall|k: Seq<char>| #[trigger] prop_map(out@).dom().contains(k) ==> is_term_value(
                prop_map(out@)[k],
                terms@[last_term(terms@.take(i as int), k)->0],
                float_readings@[last_term(terms@.take(i as int), k)->0],
                bindings@,
                resolve_endpoint_ids,
            ),
        decreases terms.len() - i,
    {
        let t = &terms[i];
        let f = match &float_readings[i] {
            Some(v) => Some(copy_value(v)),
            None => None,
        };
        let endpoint = str_eq(t.key.as_str(), "from") || str_eq(t.key.as_str(), "to");
        let v = if resolve_endpoint_ids && endpoint {
            parse_scalar_or_binding(t.value.as_str(), bindings, f)
        } else {
            parse_scalar(t.value.as_str(), f)
        };
        let ghost before = out@;
        let ghost pre = terms@.take(i as int);
        let ghost vv = v;
        assert(is_term_value(vv, terms@[i as int], float_readings@[i as int], bindings@, resolve_endpoint_ids));
        insert_prop(&mut out, t.key.clone(), v);
        proof {
            let post = terms@.take(i as int + 1);
            assert(post.drop_last() =~= pre);
            assert(post.last() == terms@[i as int]);
            assert forall|k: Seq<char>| #[trigger] prop_map(out@).dom().contains(k) <==> last_term(post, k) is Some by {
                lemma_last_term_bounds(pre, k);
            }
            assert forall|k: Seq<char>| #[trigger] prop_map(out@).dom().contains(k) implies is_term_value(
                prop_map(out@)[k],
                terms@[last_term(post, k)->0],
                float_readings@[last_term(post, k)->0],
                bindings@,
                resolve_endpoint_ids,
            ) by {
                if k != terms@[i as int].key@ {
                    assert(prop_map(before).dom().contains(k));
                }
            }
        }
        i = i + 1;
    }
    assert(terms@.take(i as int) =~= terms@);
    Ok(out)
}

/// The assignments of a create or update command as JSON values by key, in
/// key order; a later assignment to a key replaces an earlier one.
pub fn assignments_to_json(assignments: Vec<QueryTerm>, bindings: &Bindings, float_readings: Vec<Option<JsonValue>>) -> (r: Result<Vec<(String, JsonValue)>, GrmError>)
    requires
        float_readings.len() == assignments.len(),
    ensures
        r is Ok,
        sorted_keys(r->Ok_0@),
        forall|k: Seq<char>| #[trigger] prop_map(r->Ok_0@).dom().contains(k) <==> last_term(assignments@, k) is Some,
        forall|k: Seq<char>| #[trigger] prop_map(r->Ok_0@).dom().contains(k) ==> is_scalar_value(
            prop_map(r->Ok_0@)[k],
            assignments@[last_term(assignments@, k)->0].value@,
            float_readings@[last_term(assignments@, k)->0],
        ),
{
    let ghost terms = assignments@;
    let ghost floats = float_readings@;
    let r = terms_to_json_filters(assignments, bindings, false, float_readings);
    assert forall|k: Seq<char>| #[trigger] prop_map(r->Ok_0@).dom().contains(k) implies is_scalar_value(
        prop_map(r->Ok_0@)[k],
        terms[last_term(terms, k)->0].value@,
        floats[last_term(terms, k)->0],
    ) by {
        assert(is_term_value(prop_map(r->Ok_0@)[k], terms[last_term(terms, k)->0], floats[last_term(terms, k)->0], bindings@, false));
    }
    r
}


/// The error for an environment variable that service mode needs and that
/// is not set.
pub fn required_env_error(name: &str) -> (e: GrmError)
    ensures
        e@ == crate::error::ErrorView::Constraint(name@ + " must be set in gRPC mode"@),
{
    GrmError::Constraint(concat(name, " must be set in gRPC mode"))
}

} // verus!
