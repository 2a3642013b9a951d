//! The flight deck's query bar and schema view: which find a read-only
//! command runs, within which bounds, and the schema as the browser sees it.

use vstd::prelude::*;
use crate::gateway::{
    bounded_limit, bounded_offset, clamp_spec, reject_edge_return, edge_return_message, schema_fields,
    value_type_label_spec, FlightDeckSchemaField, QueryShape, DEFAULT_MODEL_LIMIT,
};
use crate::query::{QueryTerm, TraversalReturn};
use crate::schema::RuntimeField;
use crate::snapshot::partial_reason;

verus! {

/// A find request as the command parser read it: the model, the command's
/// `key=value` terms (filters, traversal, order and endpoints, kept as
/// written), the row limit and offset asked for, and, for a node find, what
/// it returns.
#[derive(Debug, Clone)]
pub struct FindBounds {
    pub model: String,
    pub terms: Vec<QueryTerm>,
    pub limit: Option<usize>,
    pub offset: Option<usize>,
    pub return_mode: Option<TraversalReturn>,
}

/// A query-bar command as the command parser read it.
#[derive(Debug, Clone)]
pub enum ReadOnlyCommand {
    NodeFind(FindBounds),
    EdgeFind(FindBounds),
    ExplainNodeFind(FindBounds),
    ExplainEdgeFind(FindBounds),
    ProfileNodeFind(FindBounds),
    ProfileEdgeFind(FindBounds),
    /// Any other command of the session language.
    Other,
}

/// Whether a query returns rows, the plan, or the plan as it ran.
#[derive(Debug, Clone, Copy, PartialEq, Eq, Structural)]
pub enum FlightDeckQueryKind {
    Query,
    Explain,
    Profile,
}

/// The name a query's kind goes by in a response.
pub fn query_kind_name(kind: FlightDeckQueryKind) -> (r: &'static str)
    ensures
        r@ == match kind {
            FlightDeckQueryKind::Query => "query"@,
            FlightDeckQueryKind::Explain => "explain"@,
            FlightDeckQueryKind::Profile => "profile"@,
        },
{
    match kind {
        FlightDeckQueryKind::Query => "query",
        FlightDeckQueryKind::Explain => "explain",
        FlightDeckQueryKind::Profile => "profile",
    }
}

/// A query-bar command ready to run: the command text, its kind, the find
/// it runs and that find's bounds.
#[derive(Debug, Clone)]
pub struct ParsedFlightDeckQuery {
    pub command: String,
    pub kind: FlightDeckQueryKind,
    pub shape: QueryShape,
    pub request: FindBounds,
}

/// The kind, find and bounds of a supported command.
pub open spec fn command_parts(c: ReadOnlyCommand) -> Option<(FlightDeckQueryKind, QueryShape, FindBounds)> {
    match c {
        ReadOnlyCommand::NodeFind(b) => Some((FlightDeckQueryKind::Query, QueryShape::NodeFind, b)),
        ReadOnlyCommand::EdgeFind(b) => Some((FlightDeckQueryKind::Query, QueryShape::EdgeFind, b)),
        ReadOnlyCommand::ExplainNodeFind(b) => Some((FlightDeckQueryKind::Explain, QueryShape::NodeFind, b)),
        ReadOnlyCommand::ExplainEdgeFind(b) => Some((FlightDeckQueryKind::Explain, QueryShape::EdgeFind, b)),
        ReadOnlyCommand::ProfileNodeFind(b) => Some((FlightDeckQueryKind::Profile, QueryShape::NodeFind, b)),
        ReadOnlyCommand::ProfileEdgeFind(b) => Some((FlightDeckQueryKind::Profile, QueryShape::EdgeFind, b)),
        ReadOnlyCommand::Other => None,
    }
}

/// The answer to a command the query bar does not run.
pub open spec fn unsupported_read_only_message() -> Seq<char> {
    "unsupported read-only command; use node.find, edge.find, session.explain, or session.profile"@
}

/// An offset capped at 100 000.
pub open spec fn capped_offset(offset: Option<usize>) -> Option<usize> {
    match offset {
        Some(n) => Some(if n <= 100_000 { n } else { 100_000usize }),
        None => None,
    }
}

/// `b` with its limit defaulted and kept within 1 to 1000, and its offset
/// capped.
pub open spec fn bounded_request(b: FindBounds, default_limit: usize) -> (Option<usize>, Option<usize>) {
    (
        Some(
            clamp_spec(
                match b.limit {
                    Some(n) => n as int,
                    None => default_limit as int,
                },
                1,
                1000,
            ) as usize,
        ),
        capped_offset(b.offset),
    )
}

/// Plans a query-bar command that passed the text checks (`command` is the
/// trimmed text, `parsed` what the command parser made of it): a find, an
/// explained find or a profiled find runs with its limit defaulted to
/// `default_limit` and kept within 1 to 1000 and its offset capped at
/// 100 000; a node find that returns edges is refused, and so is every other
/// command.
pub fn plan_read_only_query(command: String, parsed: ReadOnlyCommand, default_limit: usize) -> (r: Result<
    ParsedFlightDeckQuery,
    String,
>)
    ensures
        match command_parts(parsed) {
            None => r matches Err(m) && m@ == unsupported_read_only_message(),
            Some((kind, shape, b)) => if shape == QueryShape::NodeFind && b.return_mode == Some(TraversalReturn::Edge) {
                r matches Err(m) && m@ == edge_return_message()
            } else {
                r matches Ok(q) && q.command@ == command@ && q.kind == kind && q.shape == shape
                    && q.request.model@ == b.model@ && q.request.terms@ == b.terms@ && (q.request.limit, q.request.offset) == bounded_request(
                    b,
                    default_limit,
                ) && q.request.return_mode == b.return_mode
            },
        },
{
    let (kind, shape, b) = match parsed {
        ReadOnlyCommand::NodeFind(b) => (FlightDeckQueryKind::Query, QueryShape::NodeFind, b),
        ReadOnlyCommand::EdgeFind(b) => (FlightDeckQueryKind::Query, QueryShape::EdgeFind, b),
        ReadOnlyCommand::ExplainNodeFind(b) => (FlightDeckQueryKind::Explain, QueryShape::NodeFind, b),
        ReadOnlyCommand::ExplainEdgeFind(b) => (FlightDeckQueryKind::Explain, QueryShape::EdgeFind, b),
        ReadOnlyCommand::ProfileNodeFind(b) => (FlightDeckQueryKind::Profile, QueryShape::NodeFind, b),
        ReadOnlyCommand::ProfileEdgeFind(b) => (FlightDeckQueryKind::Profile, QueryShape::EdgeFind, b),
        ReadOnlyCommand::Other => {
            return Err(String::from_str(
                "unsupported read-only command; use node.find, edge.find, session.explain, or session.profile",
            ));
        },
    };
    let limit = bounded_limit(b.limit, default_limit);
    let offset = bounded_offset(b.offset);
    if shape == QueryShape::NodeFind {
        reject_edge_return(b.return_mode)?;
    }
    Ok(ParsedFlightDeckQuery {
        command,
        kind,
        shape,
        request: FindBounds { model: b.model, terms: b.terms, limit: Some(limit), offset, return_mode: b.return_mode },
    })
}

/// Why a query result is partial: only an edge find, whose endpoints are
/// looked up one by one, reports the edges it left out.
pub fn query_partial_reason(shape: QueryShape, omitted_edges: usize) -> (r: Option<&'static str>)
    ensures
        shape == QueryShape::NodeFind ==> r is None,
        shape == QueryShape::EdgeFind && omitted_edges == 0 ==> r is None,
        shape == QueryShape::EdgeFind && omitted_edges > 0 ==> (r matches Some(m) && m@
            == "some edge endpoints were unavailable from the bounded typed query result"@),
{
    match shape {
        QueryShape::NodeFind => None,
        QueryShape::EdgeFind => partial_reason(omitted_edges),
    }
}

impl ParsedFlightDeckQuery {
    /// The model limit a query result reports: the find's limit, or
    /// `DEFAULT_MODEL_LIMIT` when it has none.
    pub fn model_limit(&self) -> (r: usize)
        ensures
            r == match self.request.limit {
                Some(n) => n,
                None => DEFAULT_MODEL_LIMIT,
            },
    {
        match self.request.limit {
            Some(n) => n,
            None => DEFAULT_MODEL_LIMIT,
        }
    }
}

/// A node model of the schema the service lists.
#[derive(Debug, Clone)]
pub struct SchemaNodeModel {
    pub name: String,
    pub id_field_name: String,
    pub fields: Vec<RuntimeField>,
}

/// A link model of the schema the service lists.
#[derive(Debug, Clone)]
pub struct SchemaEdgeModel {
    pub name: String,
    pub from_model: String,
    pub to_model: String,
    pub id_field_name: String,
    pub fields: Vec<RuntimeField>,
}

/// A node model as the flight deck shows it.
#[derive(Debug, Clone)]
pub struct FlightDeckSchemaNodeModel {
    pub name: String,
    pub id_field: String,
    pub fields: Vec<FlightDeckSchemaField>,
}

/// A link model as the flight deck shows it.
#[derive(Debug, Clone)]
pub struct FlightDeckSchemaEdgeModel {
    pub name: String,
    pub from_model: String,
    pub to_model: String,
    pub id_field: String,
    pub fields: Vec<FlightDeckSchemaField>,
}

/// A link model as an arrow between two node models.
#[derive(Debug, Clone)]
pub struct FlightDeckSchemaEdge {
    pub model: String,
    pub from_model: String,
    pub to_model: String,
}

/// The schema part of a snapshot or query result.
#[derive(Debug, Clone)]
pub struct FlightDeckSchema {
    pub node_models: Vec<String>,
    pub edge_models: Vec<String>,
    pub schema_node_models: Vec<FlightDeckSchemaNodeModel>,
    pub schema_edge_models: Vec<FlightDeckSchemaEdgeModel>,
    pub schema_edges: Vec<FlightDeckSchemaEdge>,
}

/// Whether `shown` is the flight-deck form of the fields `fields`, in order.
pub open spec fn shows_fields(shown: Seq<FlightDeckSchemaField>, fields: Seq<RuntimeField>) -> bool {
    &&& shown.len() == fields.len()
    &&& forall|i: int|
        0 <= i < shown.len() ==> (#[trigger] shown[i]).name@ == fields[i].name@ && shown[i].value_type@
            == value_type_label_spec(fields[i].value_type) && shown[i].required == fields[i].required
}

/// Whether `shown` is the flight-deck form of the node model `m`.
pub open spec fn shows_node_model(shown: FlightDeckSchemaNodeModel, m: SchemaNodeModel) -> bool {
    &&& shown.name@ == m.name@
    &&& shown.id_field@ == m.id_field_name@
    &&& shows_fields(shown.fields@, m.fields@)
}

/// Whether `shown` is the flight-deck form of the link model `m`.
pub open spec fn shows_edge_model(shown: FlightDeckSchemaEdgeModel, m: SchemaEdgeModel) -> bool {
    &&& shown.name@ == m.name@
    &&& shown.from_model@ == m.from_model@
    &&& shown.to_model@ == m.to_model@
    &&& shown.id_field@ == m.id_field_name@
    &&& shows_fields(shown.fields@, m.fields@)
}

/// The flight deck's view of the schema: the model names, each model with
/// its fields, and each link model as an arrow, all in the order listed.
pub fn flight_deck_schema(nodes: &Vec<SchemaNodeModel>, edges: &Vec<SchemaEdgeModel>) -> (r: FlightDeckSchema)
    ensures
        r.node_models@.len() == nodes@.len(),
        r.schema_node_models@.len() == nodes@.len(),
        forall|i: int|
            0 <= i < nodes@.len() ==> (#[trigger] r.node_models@[i])@ == nodes@[i].name@ && shows_node_model(
                r.schema_node_models@[i],
                nodes@[i],
            ),
        r.edge_models@.len() == edges@.len(),
        r.schema_edge_models@.len() == edges@.len(),
        r.schema_edges@.len() == edges@.len(),
        forall|i: int|
            0 <= i < edges@.len() ==> (#[trigger] r.edge_models@[i])@ == edges@[i].name@ && shows_edge_model(
                r.schema_edge_models@[i],
                edges@[i],
            ) && r.schema_edges@[i].model@ == edges@[i].name@ && r.schema_edges@[i].from_model@
                == edges@[i].from_model@ && r.schema_edges@[i].to_model@ == edges@[i].to_model@,
{
    let mut node_models: Vec<String> = Vec::new();
    let mut schema_node_models: Vec<FlightDeckSchemaNodeModel> = Vec::new();
    let mut i: usize = 0;
    while i < nodes.len()
        invariant
            i <= nodes@.len(),
            node_models@.len() == i,
            schema_node_models@.len() == i,
            forall|k: int|
                0 <= k < i ==> (#[trigger] node_models@[k])@ == nodes@[k].name@ && shows_node_model(
                    schema_node_models@[k],
                    nodes@[k],
                ),
        decreases nodes.len() - i,
    {
        let m = &nodes[i];
        node_models.push(m.name.clone());
        let fields = schema_fields(&m.fields);
        schema_node_models.push(
            FlightDeckSchemaNodeModel { name: m.name.clone(), id_field: m.id_field_name.clone(), fields },
        );
        i = i + 1;
    }
    let mut edge_models: Vec<String> = Vec::new();
    let mut schema_edge_models: Vec<FlightDeckSchemaEdgeModel> = Vec::new();
    let mut schema_edges: Vec<FlightDeckSchemaEdge> = Vec::new();
    let mut j: usize = 0;
    while j < edges.len()
        invariant
            j <= edges@.len(),
            edge_models@.len() == j,
            schema_edge_models@.len() == j,
            schema_edges@.len() == j,
            forall|k: int|
                0 <= k < j ==> (#[trigger] edge_models@[k])@ == edges@[k].name@ && shows_edge_model(
                    schema_edge_models@[k],
                    edges@[k],
                ) && schema_edges@[k].model@ == edges@[k].name@ && schema_edges@[k].from_model@
                    == edges@[k].from_model@ && schema_edges@[k].to_model@ == edges@[k].to_model@,
        decreases edges.len() - j,
    {
        let m = &edges[j];
        edge_models.push(m.name.clone());
        let fields = schema_fields(&m.fields);
        schema_edge_models.push(
            FlightDeckSchemaEdgeModel {
                name: m.name.clone(),
                from_model: m.from_model.clone(),
                to_model: m.to_model.clone(),
                id_field: m.id_field_name.clone(),
                fields,
            },
        );
        schema_edges.push(
            FlightDeckSchemaEdge {
                model: m.name.clone(),
                from_model: m.from_model.clone(),
                to_model: m.to_model.clone(),
            },
        );
        j = j + 1;
    }
    FlightDeckSchema { node_models, edge_models, schema_node_models, schema_edge_models, schema_edges }
}

} // verus!
