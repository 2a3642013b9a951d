//! Mode-dependent behaviour of the MCP server: which surfaces each backend
//! serves, resource routing, startup instructions and status counts.

use vstd::prelude::*;
use crate::error::{GrmError, ErrorView};
use crate::text::{str_eq, concat, trim, trim_str};

verus! {

/// The backend the server runs against.
#[derive(Debug, Clone, Copy, PartialEq, Eq, Structural)]
pub enum BackendMode {
    /// An in-process graph session.
    Local,
    /// Neo4j stores the graph; the runtime schema is session-local.
    Neo4j,
    /// A gRPC workspace service.
    Service,
}

/// The list of tools both restricted backends support, as their refusals
/// quote it.
pub open spec fn supported_tools_sentence() -> Seq<char> {
    "supported tools are grm_schema_list, grm_schema_define_node, grm_schema_define_edge, grm_batch for schema/node/edge create/update/delete, grm_node_create, grm_node_update, grm_node_delete, grm_edge_create, grm_edge_update, grm_edge_delete, simple grm_node_find, and simple grm_edge_find"@
}

/// The refusal of `tool` in Neo4j mode; none in other modes.
pub open spec fn unsupported_in_neo4j_spec(mode: BackendMode, tool: Seq<char>) -> Option<Seq<char>> {
    if mode == BackendMode::Neo4j {
        Some(tool + " is not supported in Neo4j MCP mode yet; "@ + supported_tools_sentence())
    } else {
        None
    }
}

/// The refusal of `tool` in gRPC mode; none in other modes.
pub open spec fn unsupported_in_service_spec(mode: BackendMode, tool: Seq<char>) -> Option<Seq<char>> {
    if mode == BackendMode::Service {
        Some(tool + " is not supported in gRPC MCP mode yet; "@ + supported_tools_sentence())
    } else {
        None
    }
}

/// The error a tool gets in Neo4j mode, if it is not supported there.
pub fn unsupported_in_neo4j(mode: BackendMode, tool: &str) -> (r: Option<String>)
    ensures
        match unsupported_in_neo4j_spec(mode, tool@) {
            Some(m) => r matches Some(x) && x@ == m,
            None => r is None,
        },
{
    if mode == BackendMode::Neo4j {
        Some(
            concat(
                concat(tool, " is not supported in Neo4j MCP mode yet; ").as_str(),
                "supported tools are grm_schema_list, grm_schema_define_node, grm_schema_define_edge, grm_batch for schema/node/edge create/update/delete, grm_node_create, grm_node_update, grm_node_delete, grm_edge_create, grm_edge_update, grm_edge_delete, simple grm_node_find, and simple grm_edge_find",
            ),
        )
    } else {
        None
    }
}

/// The error a tool gets in gRPC mode, if it is not supported there.
pub fn unsupported_in_service(mode: BackendMode, tool: &str) -> (r: Option<String>)
    ensures
        match unsupported_in_service_spec(mode, tool@) {
            Some(m) => r matches Some(x) && x@ == m,
            None => r is None,
        },
{
    if mode == BackendMode::Service {
        Some(
            concat(
                concat(tool, " is not supported in gRPC MCP mode yet; ").as_str(),
                "supported tools are grm_schema_list, grm_schema_define_node, grm_schema_define_edge, grm_batch for schema/node/edge create/update/delete, grm_node_create, grm_node_update, grm_node_delete, grm_edge_create, grm_edge_update, grm_edge_delete, simple grm_node_find, and simple grm_edge_find",
            ),
        )
    } else {
        None
    }
}

/// A resource the server publishes.
#[derive(Debug, Clone, Copy, PartialEq, Eq, Structural)]
pub enum Resource {
    Schema,
    GraphExport,
    GraphSummary,
    BackendStatus,
    AgentGuide,
    QueryLanguage,
    ToolHelp,
}

/// The resource a URI names.
pub open spec fn resource_named(uri: Seq<char>) -> Option<Resource> {
    if uri == "grm://schema"@ {
        Some(Resource::Schema)
    } else if uri == "grm://graph/export"@ {
        Some(Resource::GraphExport)
    } else if uri == "grm://graph/summary"@ {
        Some(Resource::GraphSummary)
    } else if uri == "grm://backend/status"@ {
        Some(Resource::BackendStatus)
    } else if uri == "grm://docs/agent-guide"@ {
        Some(Resource::AgentGuide)
    } else if uri == "grm://docs/query-language"@ {
        Some(Resource::QueryLanguage)
    } else if uri == "grm://docs/tool-help"@ {
        Some(Resource::ToolHelp)
    } else {
        None
    }
}

/// Why a resource read is refused.
#[derive(Debug, Clone)]
pub enum ResourceRefusal {
    /// No resource has that URI.
    NotFound,
    /// The resource exists but this backend does not serve it.
    Unsupported(String),
}

/// What reading `uri` in `mode` serves or why it is refused: the export is
/// not served by the gRPC and Neo4j backends, the summary not by the gRPC
/// backend (the gRPC refusal is checked first).
pub open spec fn read_resource_spec(mode: BackendMode, uri: Seq<char>) -> Result<Resource, Option<Seq<char>>> {
    match resource_named(uri) {
        None => Err(None),
        Some(Resource::GraphExport) => match unsupported_in_service_spec(mode, uri) {
            Some(m) => Err(Some(m)),
            None => match unsupported_in_neo4j_spec(mode, uri) {
                Some(m) => Err(Some(m)),
                None => Ok(Resource::GraphExport),
            },
        },
        Some(Resource::GraphSummary) => match unsupported_in_service_spec(mode, uri) {
            Some(m) => Err(Some(m)),
            None => Ok(Resource::GraphSummary),
        },
        Some(r) => Ok(r),
    }
}

pub open spec fn refusal_view(r: ResourceRefusal) -> Option<Seq<char>> {
    match r {
        ResourceRefusal::NotFound => None,
        ResourceRefusal::Unsupported(m) => Some(m@),
    }
}

/// Decides which resource a read serves.
pub fn route_resource(mode: BackendMode, uri: &str) -> (r: Result<Resource, ResourceRefusal>)
    ensures
        match read_resource_spec(mode, uri@) {
            Ok(x) => r == Ok::<Resource, ResourceRefusal>(x),
            Err(m) => r matches Err(e) && refusal_view(e) == m,
        },
{
    let resource = if str_eq(uri, "grm://schema") {
        Resource::Schema
    } else if str_eq(uri, "grm://graph/export") {
        Resource::GraphExport
    } else if str_eq(uri, "grm://graph/summary") {
        Resource::GraphSummary
    } else if str_eq(uri, "grm://backend/status") {
        Resource::BackendStatus
    } else if str_eq(uri, "grm://docs/agent-guide") {
        Resource::AgentGuide
    } else if str_eq(uri, "grm://docs/query-language") {
        Resource::QueryLanguage
    } else if str_eq(uri, "grm://docs/tool-help") {
        Resource::ToolHelp
    } else {
        return Err(ResourceRefusal::NotFound);
    };
    assert(resource_named(uri@) == Some(resource));
    match resource {
        Resource::GraphExport => {
            if let Some(m) = unsupported_in_service(mode, uri) {
                return Err(ResourceRefusal::Unsupported(m));
            }
            if let Some(m) = unsupported_in_neo4j(mode, uri) {
                return Err(ResourceRefusal::Unsupported(m));
            }
            Ok(resource)
        },
        Resource::GraphSummary => {
            if let Some(m) = unsupported_in_service(mode, uri) {
                return Err(ResourceRefusal::Unsupported(m));
            }
            Ok(resource)
        },
        _ => Ok(resource),
    }
}

/// The URIs and names of the published resources, in the order they are
/// listed.
pub fn resource_list() -> (r: Vec<(&'static str, &'static str)>)
    ensures
        r@.len() == 7,
        forall|i: int| 0 <= i < 7 ==> resource_named((#[trigger] r@[i]).0@) is Some,
{
    let mut r: Vec<(&'static str, &'static str)> = Vec::new();
    r.push(("grm://schema", "schema"));
    r.push(("grm://graph/export", "graph export"));
    r.push(("grm://graph/summary", "graph summary"));
    r.push(("grm://backend/status", "backend status"));
    r.push(("grm://docs/agent-guide", "agent guide"));
    r.push(("grm://docs/query-language", "query language"));
    r.push(("grm://docs/tool-help", "tool help"));
    proof {
        reveal_strlit("grm://schema");
        reveal_strlit("grm://graph/export");
        reveal_strlit("grm://graph/summary");
        reveal_strlit("grm://backend/status");
        reveal_strlit("grm://docs/agent-guide");
        reveal_strlit("grm://docs/query-language");
        reveal_strlit("grm://docs/tool-help");
    }
    r
}

/// Size of the session-local runtime schema as the Neo4j status reports it:
/// the number of models, and whether there are none.
pub fn runtime_schema_counts(node_count: usize, edge_count: usize) -> (r: (usize, bool))
    requires
        node_count + edge_count <= usize::MAX,
    ensures
        r.0 == node_count + edge_count,
        r.1 == (node_count == 0 && edge_count == 0),
{
    (node_count + edge_count, node_count == 0 && edge_count == 0)
}

/// The tools the Neo4j backend serves, in the order its status lists them.
pub open spec fn neo4j_tool_names() -> Seq<Seq<char>> {
    seq![
        "grm_schema_list"@,
        "grm_schema_define_node"@,
        "grm_schema_define_edge"@,
        "grm_batch"@,
        "grm_node_create"@,
        "grm_node_update"@,
        "grm_node_delete"@,
        "grm_edge_create"@,
        "grm_edge_update"@,
        "grm_edge_delete"@,
        "grm_node_find"@,
        "grm_edge_find"@,
    ]
}

/// What the Neo4j backend's status resource reports.
#[derive(Debug, Clone)]
pub struct Neo4jStatus {
    pub mode: &'static str,
    pub runtime_schema_model_count: usize,
    pub runtime_schema_empty: bool,
    /// Whether the runtime schema was recovered from the schema file.
    pub schema_template_loaded: bool,
    /// Whether schema definitions are kept in a local schema file.
    pub schema_template_persistence_enabled: bool,
    pub schema_template_source: Option<String>,
    pub supported_tools: Vec<&'static str>,
}

/// The Neo4j backend's status from the size of the runtime schema and the
/// schema file it was started with.
pub fn neo4j_backend_status(
    node_count: usize,
    edge_count: usize,
    schema_template_source: Option<String>,
    schema_template_loaded: bool,
) -> (r: Neo4jStatus)
    requires
        node_count + edge_count <= usize::MAX,
    ensures
        r.mode@ == "neo4j"@,
        r.runtime_schema_model_count == node_count + edge_count,
        r.runtime_schema_empty == (node_count == 0 && edge_count == 0),
        r.schema_template_loaded == schema_template_loaded,
        r.schema_template_persistence_enabled == schema_template_source is Some,
        r.schema_template_source == schema_template_source,
        r.supported_tools@.map_values(|t: &'static str| t@) == neo4j_tool_names(),
{
    let (count, empty) = runtime_schema_counts(node_count, edge_count);
    let enabled = schema_template_source.is_some();
    let mut tools: Vec<&'static str> = Vec::new();
    tools.push("grm_schema_list");
    tools.push("grm_schema_define_node");
    tools.push("grm_schema_define_edge");
    tools.push("grm_batch");
    tools.push("grm_node_create");
    tools.push("grm_node_update");
    tools.push("grm_node_delete");
    tools.push("grm_edge_create");
    tools.push("grm_edge_update");
    tools.push("grm_edge_delete");
    tools.push("grm_node_find");
    tools.push("grm_edge_find");
    assert(tools@.map_values(|t: &'static str| t@) =~= neo4j_tool_names());
    Neo4jStatus {
        mode: "neo4j",
        runtime_schema_model_count: count,
        runtime_schema_empty: empty,
        schema_template_loaded,
        schema_template_persistence_enabled: enabled,
        schema_template_source,
        supported_tools: tools,
    }
}

/// A path taken from an optional environment variable: unset is none, a
/// blank value is refused.
pub fn optional_path_value(name: &str, value: Option<String>) -> (r: Result<Option<String>, GrmError>)
    ensures
        match value {
            None => r matches Ok(x) && x is None,
            Some(v) => if trim(v@).len() == 0 {
                r matches Err(e) && e@ == ErrorView::Constraint(name@ + " must not be empty when set"@)
            } else {
                r matches Ok(Some(x)) && x@ == v@
            },
        },
{
    match value {
        None => Ok(None),
        Some(v) => {
            let t = trim_str(v.as_str());
            if t.as_str().unicode_len() == 0 {
                Err(GrmError::Constraint(concat(name, " must not be empty when set")))
            } else {
                Ok(Some(v))
            }
        },
    }
}

/// The error for a required environment variable that is not set.
pub fn required_env_error(name: &str) -> (e: GrmError)
    ensures
        e@ == ErrorView::Constraint(name@ + " must be set for this MCP backend mode"@),
{
    GrmError::Constraint(concat(name, " must be set for this MCP backend mode"))
}


/// The instructions the server announces to its clients for each backend.
pub open spec fn instructions_text(mode: BackendMode) -> Seq<char> {
    match mode {
        BackendMode::Service => "Use GRM tools against the configured gRPC workspace service. On startup call grm_schema_list, then inspect grm://backend/status. gRPC MCP mode supports schema define/list, grm_batch for schema/node/edge create/update/delete, node_create, node_update, node_delete, edge_create, edge_update, edge_delete, traversal-capable node_find for node or edge results, edge_find, grm_explain, and grm_profile through ExecuteWorkspace. Direct service RPC families, import/export, and free-form query parity are not supported yet."@,
        BackendMode::Neo4j => "Use GRM tools to inspect session-local runtime schema and write supported schema-aware operations directly to Neo4j. On startup call grm_schema_list, then inspect grm://backend/status and grm://graph/summary; if schema_template_loaded is true, verify the recovered models before writing. If schema_template_persistence_enabled is true and schema_template_loaded is false, this server started with fresh local schema memory. If runtime schema is empty, ask whether to define or reconstruct schema before grm_batch writes. Neo4j mode supports schema define/list/checkpoint, grm_batch for schema/node/edge create/update/delete, node_create, node_update, node_delete, edge_create, edge_update, edge_delete, simple node/edge find, and graph summary counts for the current session-local runtime schema."@,
        BackendMode::Local => "Use GRM tools to inspect and mutate the local runtime graph session. Prefer structured tools over raw CLI commands when possible."@,
    }
}

/// The instructions the server announces to its clients.
pub fn server_instructions(mode: BackendMode) -> (r: &'static str)
    ensures
        r@ == instructions_text(mode),
{
    match mode {
        BackendMode::Service => "Use GRM tools against the configured gRPC workspace service. On startup call grm_schema_list, then inspect grm://backend/status. gRPC MCP mode supports schema define/list, grm_batch for schema/node/edge create/update/delete, node_create, node_update, node_delete, edge_create, edge_update, edge_delete, traversal-capable node_find for node or edge results, edge_find, grm_explain, and grm_profile through ExecuteWorkspace. Direct service RPC families, import/export, and free-form query parity are not supported yet.",
        BackendMode::Neo4j => "Use GRM tools to inspect session-local runtime schema and write supported schema-aware operations directly to Neo4j. On startup call grm_schema_list, then inspect grm://backend/status and grm://graph/summary; if schema_template_loaded is true, verify the recovered models before writing. If schema_template_persistence_enabled is true and schema_template_loaded is false, this server started with fresh local schema memory. If runtime schema is empty, ask whether to define or reconstruct schema before grm_batch writes. Neo4j mode supports schema define/list/checkpoint, grm_batch for schema/node/edge create/update/delete, node_create, node_update, node_delete, edge_create, edge_update, edge_delete, simple node/edge find, and graph summary counts for the current session-local runtime schema.",
        BackendMode::Local => "Use GRM tools to inspect and mutate the local runtime graph session. Prefer structured tools over raw CLI commands when possible.",
    }
}

} // verus!
