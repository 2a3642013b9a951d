//! What the service-backed session does with each command: the request it
//! sends, the lines it writes, or the error it reports, and how a reply
//! changes the session's bindings.

use vstd::prelude::*;
use crate::cli::{CliColors, parse_model_define_args, parse_link_define_args, DefineNodeRequest, DefineEdgeRequest, arg_texts, field_args_spec};
use crate::config::texts;
use crate::error::{GrmError, ErrorView};
use crate::propmap::{sorted_keys, prop_map, props_view, lemma_props_view, lemma_find_key_sorted, lemma_remove_sorted};
use crate::query::QueryTerm;
use crate::records::{StoredNode, StoredRel, find_key};
use crate::schema::{RuntimeField, field_view};
use crate::session::{
    Bindings, is_scalar_value, is_term_value, last_term, lemma_last_term_bounds, assignments_to_json,
    terms_to_json_filters, take_required_id_or_binding, endpoint_result, endpoint_required_message,
    endpoint_not_id_message, parse_i64_or_binding, not_integer_message, ensure_binding_available,
    binding_taken_message, service_output_format, output_format_spec, ServiceOutputFormat, service_help_lines,
    service_help_text, node_line, node_line_text, edge_line, edge_line_text,
};
use crate::text::{concat, i64_text, int_text, parse_i64_spec};
use crate::value::{JsonValue, JsonView, int_view, int_value, as_i64_spec, as_i64_view, opt_json_view, copy_value};

verus! {

/// A `key=value` argument of a command, with what reading its value as a
/// floating-point number gave: the JSON value of that `f64`, or `None` when
/// the value is not a number.
#[derive(Debug, Clone)]
pub struct ScalarArg {
    pub key: String,
    pub value: String,
    pub float_reading: Option<JsonValue>,
}

/// The plain value a command argument stands for: `true` and `false` are
/// booleans, a decimal `i64` is an integer, then the floating-point reading,
/// and otherwise the text itself.
pub open spec fn scalar_view(raw: Seq<char>, float_reading: Option<JsonView>) -> JsonView {
    if raw == "true"@ {
        JsonView::Bool(true)
    } else if raw == "false"@ {
        JsonView::Bool(false)
    } else {
        match parse_i64_spec(raw) {
            Some(i) => int_view(i),
            None => match float_reading {
                Some(v) => v,
                None => JsonView::Str(raw),
            },
        }
    }
}

/// A value read from an argument has the plain value the argument stands
/// for.
pub proof fn lemma_scalar_view(v: JsonValue, raw: Seq<char>, float_reading: Option<JsonValue>)
    requires
        is_scalar_value(v, raw, float_reading),
    ensures
        v@ == scalar_view(raw, opt_json_view(float_reading)),
{
}

/// The plain value of an assignment.
pub open spec fn arg_value(a: ScalarArg) -> JsonView {
    scalar_view(a.value@, opt_json_view(a.float_reading))
}

/// The plain value of a filter: a `from` or `to` naming a binding is the
/// bound id.
pub open spec fn filter_value(a: ScalarArg, bindings: Map<Seq<char>, i64>) -> JsonView {
    if (a.key@ == "from"@ || a.key@ == "to"@) && bindings.dom().contains(a.value@) {
        int_view(bindings[a.value@])
    } else {
        arg_value(a)
    }
}

/// The properties that assignments set; a later assignment to a key wins.
pub open spec fn assigned(args: Seq<ScalarArg>) -> Map<Seq<char>, JsonView>
    decreases args.len(),
{
    if args.len() == 0 {
        Map::empty()
    } else {
        assigned(args.drop_last()).insert(args.last().key@, arg_value(args.last()))
    }
}

/// The filters that arguments set, endpoints resolved through bindings; a
/// later argument for a key wins.
pub open spec fn filtered(args: Seq<ScalarArg>, bindings: Map<Seq<char>, i64>) -> Map<Seq<char>, JsonView>
    decreases args.len(),
{
    if args.len() == 0 {
        Map::empty()
    } else {
        filtered(args.drop_last(), bindings).insert(args.last().key@, filter_value(args.last(), bindings))
    }
}

/// The arguments as command terms.
pub open spec fn arg_terms(args: Seq<ScalarArg>) -> Seq<QueryTerm> {
    args.map_values(|a: ScalarArg| QueryTerm { key: a.key, value: a.value })
}

/// The floating-point readings of the arguments.
pub open spec fn arg_floats(args: Seq<ScalarArg>) -> Seq<Option<JsonValue>> {
    args.map_values(|a: ScalarArg| a.float_reading)
}

/// The assigned properties are those whose key some argument names, with
/// the value of the last such argument.
pub proof fn lemma_assigned(args: Seq<ScalarArg>, bindings: Map<Seq<char>, i64>)
    ensures
        forall|k: Seq<char>| #[trigger] assigned(args).dom().contains(k) == (last_term(arg_terms(args), k) is Some),
        forall|k: Seq<char>| #[trigger] assigned(args).dom().contains(k) ==> assigned(args)[k] == arg_value(
            args[last_term(arg_terms(args), k)->0],
        ),
        forall|k: Seq<char>| #[trigger] filtered(args, bindings).dom().contains(k) == (last_term(arg_terms(args), k) is Some),
        forall|k: Seq<char>| #[trigger] filtered(args, bindings).dom().contains(k) ==> filtered(args, bindings)[k]
            == filter_value(args[last_term(arg_terms(args), k)->0], bindings),
    decreases args.len(),
{
    if args.len() > 0 {
        let t = args.drop_last();
        lemma_assigned(t, bindings);
        assert(arg_terms(args).drop_last() =~= arg_terms(t));
        assert(arg_terms(args).last() == QueryTerm { key: args.last().key, value: args.last().value });
        assert forall|k: Seq<char>| #[trigger] assigned(args).dom().contains(k) == (last_term(arg_terms(args), k) is Some) by {
            assert(assigned(t).dom().contains(k) == (last_term(arg_terms(t), k) is Some));
        }
        assert forall|k: Seq<char>| #[trigger] assigned(args).dom().contains(k) implies assigned(args)[k] == arg_value(
            args[last_term(arg_terms(args), k)->0],
        ) by {
            if k != args.last().key@ {
                assert(assigned(t).dom().contains(k));
                lemma_last_term_bounds(arg_terms(t), k);
                assert(t[last_term(arg_terms(t), k)->0] == args[last_term(arg_terms(t), k)->0]);
            }
        }
        assert forall|k: Seq<char>| #[trigger] filtered(args, bindings).dom().contains(k) == (last_term(arg_terms(args), k) is Some) by {
            assert(filtered(t, bindings).dom().contains(k) == (last_term(arg_terms(t), k) is Some));
        }
        assert forall|k: Seq<char>| #[trigger] filtered(args, bindings).dom().contains(k) implies filtered(args, bindings)[k]
            == filter_value(args[last_term(arg_terms(args), k)->0], bindings) by {
            if k != args.last().key@ {
                assert(filtered(t, bindings).dom().contains(k));
                lemma_last_term_bounds(arg_terms(t), k);
                assert(t[last_term(arg_terms(t), k)->0] == args[last_term(arg_terms(t), k)->0]);
            }
        }
    }
}

/// The arguments as command terms and their floating-point readings.
fn split_args(args: &Vec<ScalarArg>) -> (r: (Vec<QueryTerm>, Vec<Option<JsonValue>>))
    ensures
        r.0@ == arg_terms(args@),
        r.1@ == arg_floats(args@),
{
    let mut terms: Vec<QueryTerm> = Vec::new();
    let mut floats: Vec<Option<JsonValue>> = Vec::new();
    let mut i: usize = 0;
    while i < args.len()
        invariant
            i <= args.len(),
            terms@ == arg_terms(args@).take(i as int),
            floats@ == arg_floats(args@).take(i as int),
        decreases args.len() - i,
    {
        let a = &args[i];
        terms.push(QueryTerm { key: a.key.clone(), value: a.value.clone() });
        let f = match &a.float_reading {
            Some(v) => Some(copy_value(v)),
            None => None,
        };
        floats.push(f);
        i = i + 1;
        assert(terms@ =~= arg_terms(args@).take(i as int));
        assert(floats@ =~= arg_floats(args@).take(i as int));
    }
    assert(arg_terms(args@).take(i as int) =~= arg_terms(args@));
    assert(arg_floats(args@).take(i as int) =~= arg_floats(args@));
    (terms, floats)
}

/// The properties that assignments set, in key order.
pub fn assignment_props(args: &Vec<ScalarArg>, bindings: &Bindings) -> (r: Vec<(String, JsonValue)>)
    ensures
        sorted_keys(r@),
        props_view(r@) == assigned(args@),
{
    let (terms, floats) = split_args(args);
    let ghost ts = terms@;
    let ghost fs = floats@;
    let r = match assignments_to_json(terms, bindings, floats) {
        Ok(p) => p,
        Err(_) => Vec::new(),
    };
    proof {
        lemma_assigned(args@, bindings@);
        lemma_props_view(r@);
        assert forall|k: Seq<char>| #[trigger] props_view(r@).dom().contains(k) implies props_view(r@)[k] == assigned(args@)[k] by {
            lemma_last_term_bounds(ts, k);
            assert(prop_map(r@).dom().contains(k));
            assert(last_term(ts, k) is Some);
            let j = last_term(ts, k)->0;
            assert(is_scalar_value(prop_map(r@)[k], ts[j].value@, fs[j]));
            assert(ts[j] == QueryTerm { key: args@[j].key, value: args@[j].value });
            assert(fs[j] == args@[j].float_reading);
            lemma_scalar_view(prop_map(r@)[k], ts[j].value@, fs[j]);
            assert(assigned(args@).dom().contains(k));
        }
        assert(props_view(r@) =~= assigned(args@));
    }
    r
}

/// The filters that arguments set, in key order, endpoints resolved.
pub fn filter_props(args: &Vec<ScalarArg>, bindings: &Bindings) -> (r: Vec<(String, JsonValue)>)
    ensures
        sorted_keys(r@),
        props_view(r@) == filtered(args@, bindings@),
{
    let (terms, floats) = split_args(args);
    let ghost ts = terms@;
    let ghost fs = floats@;
    let r = match terms_to_json_filters(terms, bindings, true, floats) {
        Ok(p) => p,
        Err(_) => Vec::new(),
    };
    proof {
        lemma_assigned(args@, bindings@);
        lemma_props_view(r@);
        assert forall|k: Seq<char>| #[trigger] props_view(r@).dom().contains(k) implies props_view(r@)[k] == filtered(args@, bindings@)[k] by {
            lemma_last_term_bounds(ts, k);
            assert(prop_map(r@).dom().contains(k));
            assert(last_term(ts, k) is Some);
            let j = last_term(ts, k)->0;
            let v = prop_map(r@)[k];
            assert(is_term_value(v, ts[j], fs[j], bindings@, true));
            assert(ts[j] == QueryTerm { key: args@[j].key, value: args@[j].value });
            assert(fs[j] == args@[j].float_reading);
            assert(filtered(args@, bindings@).dom().contains(k));
            if !((ts[j].key@ == "from"@ || ts[j].key@ == "to"@) && bindings@.dom().contains(ts[j].value@)) {
                lemma_scalar_view(v, ts[j].value@, fs[j]);
            }
        }
        assert(props_view(r@) =~= filtered(args@, bindings@));
    }
    r
}

/// The id an endpoint property gives, or why it gives none.
pub open spec fn endpoint_of(m: Map<Seq<char>, JsonView>, key: Seq<char>, bindings: Map<Seq<char>, i64>) -> Result<i64, Seq<char>> {
    if !m.dom().contains(key) {
        Err(endpoint_required_message(key))
    } else {
        match m[key] {
            JsonView::Str(b) => if bindings.dom().contains(b) {
                Ok(bindings[b])
            } else {
                Err(endpoint_not_id_message(key))
            },
            v => match as_i64_view(v) {
                Some(id) => Ok(id),
                None => Err(endpoint_not_id_message(key)),
            },
        }
    }
}

/// Takes the endpoint property `key` out of properties kept in key order.
pub fn take_endpoint(props: &mut Vec<(String, JsonValue)>, key: &str, bindings: &Bindings) -> (r: Result<i64, GrmError>)
    requires
        sorted_keys(old(props)@),
    ensures
        sorted_keys(final(props)@),
        props_view(final(props)@) == props_view(old(props)@).remove(key@),
        match endpoint_of(props_view(old(props)@), key@, bindings@) {
            Ok(id) => r == Ok::<i64, GrmError>(id),
            Err(m) => r is Err && r->Err_0@ == ErrorView::Constraint(m),
        },
{
    let ghost s = props@;
    proof {
        lemma_find_key_sorted(s, key@);
        lemma_props_view(s);
        if let Some(i) = find_key(s, key@) {
            lemma_remove_sorted(s, i);
            lemma_props_view(s.remove(i));
            let v = s[i].1;
            assert(props_view(s)[key@] == v@);
            assert(as_i64_spec(v) == as_i64_view(v@));
            let t = s.remove(i);
            assert forall|q: Seq<char>| #[trigger] props_view(t).dom().contains(q) == props_view(s).remove(key@).dom().contains(q) by {
                assert(props_view(t).dom().contains(q) == prop_map(t).dom().contains(q));
                assert(props_view(s).dom().contains(q) == prop_map(s).dom().contains(q));
            }
            assert forall|q: Seq<char>| #[trigger] props_view(t).dom().contains(q) implies props_view(t)[q] == props_view(s).remove(key@)[q] by {
                assert(props_view(t)[q] == prop_map(t)[q]@);
                assert(prop_map(s).dom().contains(q));
                assert(props_view(s).dom().contains(q));
                assert(props_view(s)[q] == prop_map(s)[q]@);
            }
            assert(props_view(t) =~= props_view(s).remove(key@));
        } else {
            assert(props_view(s).remove(key@) =~= props_view(s));
        }
    }
    take_required_id_or_binding(props, key, bindings)
}


/// A command of the service-backed session, as the command parser gives it.
#[derive(Debug)]
pub enum ServiceCommand {
    Help,
    Exit,
    Describe { verbose: bool },
    ModelList,
    LinkList,
    ModelDefine { args: Vec<String> },
    LinkDefine { args: Vec<String> },
    NodeCreate { binding: Option<String>, model_name: String, assignments: Vec<ScalarArg> },
    NodeFind { model_name: String, terms: Vec<QueryTerm> },
    NodeUpdate { model_name: String, id: String, assignments: Vec<ScalarArg> },
    NodeDelete { model_name: String, id: String },
    EdgeCreate { model_name: String, assignments: Vec<ScalarArg> },
    EdgeFind { model_name: String, terms: Vec<ScalarArg> },
    EdgeUpdate { model_name: String, id: String, assignments: Vec<ScalarArg> },
    EdgeDelete { model_name: String, id: String },
    ExplainNodeFind { model_name: String, terms: Vec<QueryTerm> },
    ProfileNodeFind { model_name: String, terms: Vec<QueryTerm> },
    ExplainEdgeFind { model_name: String, terms: Vec<ScalarArg> },
    ProfileEdgeFind { model_name: String, terms: Vec<ScalarArg> },
    /// A command the parser does not know.
    Unknown,
    /// A command of local sessions only: save, load, import, export,
    /// autocommit, compact, indexes, transactions, model and link show.
    LocalOnly,
}

/// What the session does next for a command: write lines, stop, or send a
/// request to the workspace service (and then show its reply).
#[derive(Debug)]
pub enum ServiceStep {
    Write(Vec<String>),
    Exit,
    Describe { verbose: bool },
    ListSchema,
    DefineNode(DefineNodeRequest),
    DefineEdge(DefineEdgeRequest),
    CreateNode { binding: Option<String>, model: String, props: Vec<(String, JsonValue)> },
    FindNodes { model: String, terms: Vec<QueryTerm>, format: ServiceOutputFormat },
    UpdateNode { model: String, id: i64, props: Vec<(String, JsonValue)> },
    DeleteNode { model: String, id: i64 },
    CreateEdge { model: String, from: i64, to: i64, props: Vec<(String, JsonValue)> },
    FindEdges { model: String, filters: Vec<(String, JsonValue)>, format: ServiceOutputFormat },
    UpdateEdge { model: String, id: i64, props: Vec<(String, JsonValue)> },
    DeleteEdge { model: String, id: i64 },
    ExplainNodes { model: String, terms: Vec<QueryTerm> },
    ProfileNodes { model: String, terms: Vec<QueryTerm> },
    ExplainEdges { model: String, filters: Vec<(String, JsonValue)> },
    ProfileEdges { model: String, filters: Vec<(String, JsonValue)> },
}

/// The id an argument gives: a bound name's id, or the number it writes.
pub open spec fn id_of(raw: Seq<char>, name: Seq<char>, bindings: Map<Seq<char>, i64>) -> Result<i64, Seq<char>> {
    if bindings.dom().contains(raw) {
        Ok(bindings[raw])
    } else {
        match parse_i64_spec(raw) {
            Some(v) => Ok(v),
            None => Err(not_integer_message(name)),
        }
    }
}

/// A property list in key order with the given plain values.
pub open spec fn props_are(p: Seq<(String, JsonValue)>, m: Map<Seq<char>, JsonView>) -> bool {
    sorted_keys(p) && props_view(p) == m
}

/// The endpoints and remaining properties of an `edge.create`.
pub open spec fn edge_create_spec(args: Seq<ScalarArg>, bindings: Map<Seq<char>, i64>) -> Result<(i64, i64, Map<Seq<char>, JsonView>), Seq<char>> {
    let m0 = assigned(args);
    match endpoint_of(m0, "from"@, bindings) {
        Err(e) => Err(e),
        Ok(f) => {
            let m1 = m0.remove("from"@);
            match endpoint_of(m1, "to"@, bindings) {
                Err(e) => Err(e),
                Ok(t) => Ok((f, t, m1.remove("to"@))),
            }
        },
    }
}

/// Why `format=graph` is refused for a node find.
pub open spec fn node_graph_message() -> Seq<char> {
    "format=graph is not supported in gRPC CLI mode because the service response does not currently include traversal path rows"@
}

/// Why `format=graph` is refused for an edge find.
pub open spec fn edge_graph_message() -> Seq<char> {
    "format=graph is only supported for graph-shaped node.find results and is not available in gRPC CLI mode"@
}

/// The message of a local-only command.
pub open spec fn local_only_message() -> Seq<char> {
    "command is local-only or not supported in gRPC service CLI mode yet"@
}

/// Whether `r` is what the session does for `cmd`, given its bindings,
/// whether a script is running (`fail_fast`), the command line and the
/// colours.
pub open spec fn planned(
    cmd: ServiceCommand,
    bindings: Map<Seq<char>, i64>,
    fail_fast: bool,
    line: Seq<char>,
    colors: CliColors,
    r: Result<ServiceStep, GrmError>,
) -> bool {
    match cmd {
        ServiceCommand::Help => r matches Ok(ServiceStep::Write(ls)) && texts(ls@) == service_help_text(colors),
        ServiceCommand::Exit => r matches Ok(ServiceStep::Exit),
        ServiceCommand::Describe { verbose } => r matches Ok(ServiceStep::Describe { verbose: v }) && v == verbose,
        ServiceCommand::ModelList => r matches Ok(ServiceStep::ListSchema),
        ServiceCommand::LinkList => r matches Ok(ServiceStep::ListSchema),
        ServiceCommand::ModelDefine { args } => {
            &&& args@.len() < 2 ==> (r matches Err(e) && e@ == ErrorView::Constraint(
                "usage: model.define <Name> <id_field> [field:type:required|optional ...]"@,
            ))
            &&& args@.len() >= 2 ==> match field_args_spec(arg_texts(args@).skip(2)) {
                Ok(fs) => r matches Ok(ServiceStep::DefineNode(q)) && q.name@ == args@[0]@ && q.id_field@
                    == args@[1]@ && q.fields@.map_values(|f: RuntimeField| field_view(f)) == fs,
                Err(m) => r matches Err(e) && e@ == ErrorView::Constraint(m),
            }
        },
        ServiceCommand::LinkDefine { args } => {
            &&& args@.len() < 4 ==> (r matches Err(e) && e@ == ErrorView::Constraint(
                "usage: link.define <Name> <from_model> <to_model> <id_field> [field:type:required|optional ...]"@,
            ))
            &&& args@.len() >= 4 ==> match field_args_spec(arg_texts(args@).skip(4)) {
                Ok(fs) => r matches Ok(ServiceStep::DefineEdge(q)) && q.name@ == args@[0]@ && q.from_model@
                    == args@[1]@ && q.to_model@ == args@[2]@ && q.id_field@ == args@[3]@ && q.fields@.map_values(
                    |f: RuntimeField| field_view(f),
                ) == fs,
                Err(m) => r matches Err(e) && e@ == ErrorView::Constraint(m),
            }
        },
        ServiceCommand::NodeCreate { binding, model_name, assignments } => match binding {
            Some(b) if bindings.dom().contains(b@) => r matches Err(e) && e@ == ErrorView::Constraint(
                binding_taken_message(b@),
            ),
            _ => r matches Ok(ServiceStep::CreateNode { binding: bd, model, props }) && bd == binding && model
                == model_name && props_are(props@, assigned(assignments@)),
        },
        ServiceCommand::NodeFind { model_name, terms } => match output_format_spec(terms@) {
            Err(m) => r matches Err(e) && e@ == ErrorView::Constraint(m),
            Ok(ServiceOutputFormat::Graph) => r matches Err(e) && e@ == ErrorView::NotSupported(node_graph_message()),
            Ok(f) => r matches Ok(ServiceStep::FindNodes { model, terms: ts, format }) && model == model_name && ts
                == terms && format == f,
        },
        ServiceCommand::NodeUpdate { model_name, id, assignments } => match id_of(id@, "node id"@, bindings) {
            Err(m) => r matches Err(e) && e@ == ErrorView::Constraint(m),
            Ok(n) => r matches Ok(ServiceStep::UpdateNode { model, id: i, props }) && model == model_name && i == n
                && props_are(props@, assigned(assignments@)),
        },
        ServiceCommand::NodeDelete { model_name, id } => match id_of(id@, "node id"@, bindings) {
            Err(m) => r matches Err(e) && e@ == ErrorView::Constraint(m),
            Ok(n) => r matches Ok(ServiceStep::DeleteNode { model, id: i }) && model == model_name && i == n,
        },
        ServiceCommand::EdgeCreate { model_name, assignments } => match edge_create_spec(assignments@, bindings) {
            Err(m) => r matches Err(e) && e@ == ErrorView::Constraint(m),
            Ok((f, t, m)) => r matches Ok(ServiceStep::CreateEdge { model, from, to, props }) && model == model_name
                && from == f && to == t && props_are(props@, m),
        },
        ServiceCommand::EdgeFind { model_name, terms } => match output_format_spec(arg_terms(terms@)) {
            Err(m) => r matches Err(e) && e@ == ErrorView::Constraint(m),
            Ok(ServiceOutputFormat::Graph) => r matches Err(e) && e@ == ErrorView::NotSupported(edge_graph_message()),
            Ok(f) => r matches Ok(ServiceStep::FindEdges { model, filters, format }) && model == model_name
                && format == f && props_are(filters@, filtered(terms@, bindings)),
        },
        ServiceCommand::EdgeUpdate { model_name, id, assignments } => match id_of(id@, "edge id"@, bindings) {
            Err(m) => r matches Err(e) && e@ == ErrorView::Constraint(m),
            Ok(n) => r matches Ok(ServiceStep::UpdateEdge { model, id: i, props }) && model == model_name && i == n
                && props_are(props@, assigned(assignments@)),
        },
        ServiceCommand::EdgeDelete { model_name, id } => match id_of(id@, "edge id"@, bindings) {
            Err(m) => r matches Err(e) && e@ == ErrorView::Constraint(m),
            Ok(n) => r matches Ok(ServiceStep::DeleteEdge { model, id: i }) && model == model_name && i == n,
        },
        ServiceCommand::ExplainNodeFind { model_name, terms } => r matches Ok(
            ServiceStep::ExplainNodes { model, terms: ts },
        ) && model == model_name && ts == terms,
        ServiceCommand::ProfileNodeFind { model_name, terms } => r matches Ok(
            ServiceStep::ProfileNodes { model, terms: ts },
        ) && model == model_name && ts == terms,
        ServiceCommand::ExplainEdgeFind { model_name, terms } => r matches Ok(
            ServiceStep::ExplainEdges { model, filters },
        ) && model == model_name && props_are(filters@, filtered(terms@, bindings)),
        ServiceCommand::ProfileEdgeFind { model_name, terms } => r matches Ok(
            ServiceStep::ProfileEdges { model, filters },
        ) && model == model_name && props_are(filters@, filtered(terms@, bindings)),
        ServiceCommand::Unknown => if fail_fast {
            r matches Err(e) && e@ == ErrorView::Constraint("unknown command: "@ + line)
        } else {
            r matches Ok(ServiceStep::Write(ls)) && texts(ls@) == seq!["Unknown command: "@ + line]
        },
        ServiceCommand::LocalOnly => if fail_fast {
            r matches Err(e) && e@ == ErrorView::NotSupported(local_only_message())
        } else {
            r matches Ok(ServiceStep::Write(ls)) && texts(ls@) == seq![
                "Command is local-only or not supported in gRPC service CLI mode yet"@,
            ]
        },
    }
}

/// Decides what the session does for a command.
pub fn plan_service_command(
    cmd: ServiceCommand,
    bindings: &Bindings,
    fail_fast: bool,
    line: &str,
    colors: &CliColors,
) -> (r: Result<ServiceStep, GrmError>)
    ensures
        planned(cmd, bindings@, fail_fast, line@, *colors, r),
{
    match cmd {
        ServiceCommand::Help => Ok(ServiceStep::Write(service_help_lines(colors))),
        ServiceCommand::Exit => Ok(ServiceStep::Exit),
        ServiceCommand::Describe { verbose } => Ok(ServiceStep::Describe { verbose }),
        ServiceCommand::ModelList => Ok(ServiceStep::ListSchema),
        ServiceCommand::LinkList => Ok(ServiceStep::ListSchema),
        ServiceCommand::ModelDefine { args } => match parse_model_define_args(args) {
            Ok(q) => Ok(ServiceStep::DefineNode(q)),
            Err(e) => Err(e),
        },
        ServiceCommand::LinkDefine { args } => match parse_link_define_args(args) {
            Ok(q) => Ok(ServiceStep::DefineEdge(q)),
            Err(e) => Err(e),
        },
        ServiceCommand::NodeCreate { binding, model_name, assignments } => {
            match &binding {
                Some(b) => {
                    match ensure_binding_available(bindings, b.as_str()) {
                        Ok(()) => {},
                        Err(e) => {
                            return Err(e);
                        },
                    }
                },
                None => {},
            }
            let props = assignment_props(&assignments, bindings);
            Ok(ServiceStep::CreateNode { binding, model: model_name, props })
        },
        ServiceCommand::NodeFind { model_name, terms } => {
            let format = match service_output_format(&terms) {
                Ok(f) => f,
                Err(e) => {
                    return Err(e);
                },
            };
            if format == ServiceOutputFormat::Graph {
                return Err(GrmError::NotSupported(String::from_str(
                    "format=graph is not supported in gRPC CLI mode because the service response does not currently include traversal path rows",
                )));
            }
            Ok(ServiceStep::FindNodes { model: model_name, terms, format })
        },
        ServiceCommand::NodeUpdate { model_name, id, assignments } => {
            let n = match parse_i64_or_binding(id.as_str(), "node id", bindings) {
                Ok(n) => n,
                Err(e) => {
                    return Err(e);
                },
            };
            let props = assignment_props(&assignments, bindings);
            Ok(ServiceStep::UpdateNode { model: model_name, id: n, props })
        },
        ServiceCommand::NodeDelete { model_name, id } => {
            let n = match parse_i64_or_binding(id.as_str(), "node id", bindings) {
                Ok(n) => n,
                Err(e) => {
                    return Err(e);
                },
            };
            Ok(ServiceStep::DeleteNode { model: model_name, id: n })
        },
        ServiceCommand::EdgeCreate { model_name, assignments } => {
            let mut props = assignment_props(&assignments, bindings);
            let from = match take_endpoint(&mut props, "from", bindings) {
                Ok(v) => v,
                Err(e) => {
                    return Err(e);
                },
            };
            let to = match take_endpoint(&mut props, "to", bindings) {
                Ok(v) => v,
                Err(e) => {
                    return Err(e);
                },
            };
            Ok(ServiceStep::CreateEdge { model: model_name, from, to, props })
        },
        ServiceCommand::EdgeFind { model_name, terms } => {
            let (ts, _floats) = split_args(&terms);
            let format = match service_output_format(&ts) {
                Ok(f) => f,
                Err(e) => {
                    return Err(e);
                },
            };
            if format == ServiceOutputFormat::Graph {
                return Err(GrmError::NotSupported(String::from_str(
                    "format=graph is only supported for graph-shaped node.find results and is not available in gRPC CLI mode",
                )));
            }
            let filters = filter_props(&terms, bindings);
            Ok(ServiceStep::FindEdges { model: model_name, filters, format })
        },
        ServiceCommand::EdgeUpdate { model_name, id, assignments } => {
            let n = match parse_i64_or_binding(id.as_str(), "edge id", bindings) {
                Ok(n) => n,
                Err(e) => {
                    return Err(e);
                },
            };
            let props = assignment_props(&assignments, bindings);
            Ok(ServiceStep::UpdateEdge { model: model_name, id: n, props })
        },
        ServiceCommand::EdgeDelete { model_name, id } => {
            let n = match parse_i64_or_binding(id.as_str(), "edge id", bindings) {
                Ok(n) => n,
                Err(e) => {
                    return Err(e);
                },
            };
            Ok(ServiceStep::DeleteEdge { model: model_name, id: n })
        },
        ServiceCommand::ExplainNodeFind { model_name, terms } => Ok(ServiceStep::ExplainNodes { model: model_name, terms }),
        ServiceCommand::ProfileNodeFind { model_name, terms } => Ok(ServiceStep::ProfileNodes { model: model_name, terms }),
        ServiceCommand::ExplainEdgeFind { model_name, terms } => {
            let filters = filter_props(&terms, bindings);
            Ok(ServiceStep::ExplainEdges { model: model_name, filters })
        },
        ServiceCommand::ProfileEdgeFind { model_name, terms } => {
            let filters = filter_props(&terms, bindings);
            Ok(ServiceStep::ProfileEdges { model: model_name, filters })
        },
        ServiceCommand::Unknown => {
            if fail_fast {
                Err(GrmError::Constraint(concat("unknown command: ", line)))
            } else {
                let mut ls: Vec<String> = Vec::new();
                ls.push(concat("Unknown command: ", line));
                assert(texts(ls@) =~= seq!["Unknown command: "@ + line@]);
                Ok(ServiceStep::Write(ls))
            }
        },
        ServiceCommand::LocalOnly => {
            if fail_fast {
                Err(GrmError::NotSupported(String::from_str("command is local-only or not supported in gRPC service CLI mode yet")))
            } else {
                let mut ls: Vec<String> = Vec::new();
                ls.push(String::from_str("Command is local-only or not supported in gRPC service CLI mode yet"));
                assert(texts(ls@) =~= seq!["Command is local-only or not supported in gRPC service CLI mode yet"@]);
                Ok(ServiceStep::Write(ls))
            }
        },
    }
}

} // verus!
