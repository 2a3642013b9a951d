//! Parameters of the MCP tools and the conversion of their JSON values.

use vstd::prelude::*;
use crate::error::{GrmError, ErrorView};
use crate::value::{JsonValue, JsonNumber, number_text, number_to_text, copy_value};
use crate::text::{str_eq, concat};

verus! {

/// Value type of a runtime schema field.
#[derive(Debug, Clone, Copy, PartialEq, Eq, Structural)]
pub enum RuntimeValueType {
    String,
    Int,
    Float,
    Bool,
}

/// The value type a field keyword names: `string`, `int`, `float` or `bool`.
pub open spec fn value_type_keyword(k: Seq<char>) -> Option<RuntimeValueType> {
    if k == "string"@ {
        Some(RuntimeValueType::String)
    } else if k == "int"@ {
        Some(RuntimeValueType::Int)
    } else if k == "float"@ {
        Some(RuntimeValueType::Float)
    } else if k == "bool"@ {
        Some(RuntimeValueType::Bool)
    } else {
        None
    }
}

impl RuntimeValueType {
    /// The value type a field keyword names.
    pub fn parse_keyword(k: &str) -> (r: Option<RuntimeValueType>)
        ensures
            r == value_type_keyword(k@),
    {
        if str_eq(k, "string") {
            Some(RuntimeValueType::String)
        } else if str_eq(k, "int") {
            Some(RuntimeValueType::Int)
        } else if str_eq(k, "float") {
            Some(RuntimeValueType::Float)
        } else if str_eq(k, "bool") {
            Some(RuntimeValueType::Bool)
        } else {
            None
        }
    }

    /// The keyword of a value type.
    pub fn keyword(self) -> (k: &'static str)
        ensures
            value_type_keyword(k@) == Some(self),
    {
        proof {
            reveal_strlit("string");
            reveal_strlit("int");
            reveal_strlit("float");
            reveal_strlit("bool");
            assert("int"@.len() != "string"@.len());
            assert("float"@.len() != "string"@.len());
            assert("float"@.len() != "int"@.len());
            assert("bool"@.len() != "string"@.len());
            assert("bool"@.len() != "int"@.len());
            assert("bool"@.len() != "float"@.len());
        }
        match self {
            RuntimeValueType::String => "string",
            RuntimeValueType::Int => "int",
            RuntimeValueType::Float => "float",
            RuntimeValueType::Bool => "bool",
        }
    }
}

/// A field of a runtime node or edge model.
#[derive(Debug, Clone)]
pub struct RuntimeField {
    pub name: String,
    pub value_type: RuntimeValueType,
    pub required: bool,
}

/// A field definition as a tool receives it.
#[derive(Debug, Clone)]
pub struct FieldParam {
    pub name: String,
    pub value_type: String,
    pub required: bool,
}

/// `grm_schema_define_node` arguments.
#[derive(Debug, Clone)]
pub struct DefineNodeParams {
    pub name: String,
    pub id_field: String,
    pub fields: Vec<FieldParam>,
}

/// `grm_schema_define_edge` arguments.
#[derive(Debug, Clone)]
pub struct DefineEdgeParams {
    pub name: String,
    pub from_model: String,
    pub to_model: String,
    pub id_field: String,
    pub fields: Vec<FieldParam>,
}

/// Property or filter values by name, in key order.
pub type ValueMap = Vec<(String, JsonValue)>;

/// `grm_node_create` arguments.
#[derive(Debug, Clone)]
pub struct NodeCreateParams {
    pub model: String,
    pub props: ValueMap,
}

/// A `node_create` operation of a batch, with an optional batch-local name.
#[derive(Debug, Clone)]
pub struct BatchNodeCreateParams {
    pub model: String,
    pub props: ValueMap,
    pub local_ref: Option<String>,
}

/// `grm_node_update` arguments.
#[derive(Debug, Clone)]
pub struct NodeUpdateParams {
    pub model: String,
    pub id: i64,
    pub props: ValueMap,
}

/// `grm_node_delete` arguments.
#[derive(Debug, Clone)]
pub struct NodeDeleteParams {
    pub model: String,
    pub id: i64,
}

/// `grm_node_find` arguments.
#[derive(Debug, Clone)]
pub struct NodeFindParams {
    pub model: String,
    pub filters: ValueMap,
}

/// `grm_edge_create` arguments.
#[derive(Debug, Clone)]
pub struct EdgeCreateParams {
    pub model: String,
    pub from: i64,
    pub to: i64,
    pub props: ValueMap,
}

/// An edge endpoint in a batch: a node id or a batch-local name.
#[derive(Debug, Clone)]
pub enum BatchEndpoint {
    Id(i64),
    Ref(String),
}

/// An `edge_create` operation of a batch.
#[derive(Debug, Clone)]
pub struct BatchEdgeCreateParams {
    pub model: String,
    pub from: BatchEndpoint,
    pub to: BatchEndpoint,
    pub props: ValueMap,
}

/// `grm_edge_update` arguments.
#[derive(Debug, Clone)]
pub struct EdgeUpdateParams {
    pub model: String,
    pub id: i64,
    pub props: ValueMap,
}

/// `grm_edge_delete` arguments.
#[derive(Debug, Clone)]
pub struct EdgeDeleteParams {
    pub model: String,
    pub id: i64,
}

/// `grm_edge_find` arguments.
#[derive(Debug, Clone)]
pub struct EdgeFindParams {
    pub model: String,
    pub filters: ValueMap,
}

/// `grm_query` arguments.
#[derive(Debug, Clone)]
pub struct QueryParams {
    pub command: String,
}

/// Encoding of a session file named by a tool.
#[derive(Debug, Clone, Copy, PartialEq, Eq, Structural)]
pub enum FileFormat {
    Json,
    Binary,
}

/// `grm_save` / `grm_load` arguments.
#[derive(Debug, Clone)]
pub struct FileFormatParams {
    pub format: FileFormat,
    pub path: String,
}

/// `grm_import` arguments.
#[derive(Debug, Clone)]
pub struct PathParams {
    pub path: String,
}

/// `grm_export` arguments.
#[derive(Debug, Clone)]
pub struct ExportParams {
    pub path: Option<String>,
}

/// `grm_tool_help` arguments.
#[derive(Debug, Clone)]
pub struct ToolHelpParams {
    pub tool: String,
}

/// How much a batch reply reports.
#[derive(Debug, Clone, Copy, PartialEq, Eq, Structural)]
pub enum BatchResponse {
    Summary,
    Detailed,
}

/// Batches are atomic unless the request says otherwise.
pub fn default_atomic() -> (b: bool)
    ensures
        b,
{
    true
}

/// Batch replies are summaries unless the request says otherwise.
pub fn default_batch_response() -> (r: BatchResponse)
    ensures
        r == BatchResponse::Summary,
{
    BatchResponse::Summary
}

/// The keyword of a batch reply mode.
pub open spec fn batch_response_text(r: BatchResponse) -> Seq<char> {
    match r {
        BatchResponse::Summary => "summary"@,
        BatchResponse::Detailed => "detailed"@,
    }
}

impl BatchResponse {
    /// The keyword of the reply mode.
    pub fn keyword(self) -> (k: &'static str)
        ensures
            k@ == batch_response_text(self),
    {
        match self {
            BatchResponse::Summary => "summary",
            BatchResponse::Detailed => "detailed",
        }
    }
}

/// The defaults a `grm_batch` request has when it leaves them out, as its
/// help advertises them: atomic, deletes refused, summary replies.
pub fn batch_defaults() -> (r: (bool, bool, &'static str))
    ensures
        r.0 == true,
        r.1 == false,
        r.2@ == batch_response_text(BatchResponse::Summary),
{
    let atomic = default_atomic();
    let response = default_batch_response();
    (atomic, false, response.keyword())
}

/// One operation of a `grm_batch` request.
#[derive(Debug, Clone)]
pub enum BatchOp {
    SchemaDefineNode(DefineNodeParams),
    SchemaDefineEdge(DefineEdgeParams),
    NodeCreate(BatchNodeCreateParams),
    NodeUpdate(NodeUpdateParams),
    NodeDelete(NodeDeleteParams),
    EdgeCreate(BatchEdgeCreateParams),
    EdgeUpdate(EdgeUpdateParams),
    EdgeDelete(EdgeDeleteParams),
}

/// The `op` tag of each operation.
pub open spec fn op_name_spec(op: BatchOp) -> Seq<char> {
    match op {
        BatchOp::SchemaDefineNode(_) => "schema_define_node"@,
        BatchOp::SchemaDefineEdge(_) => "schema_define_edge"@,
        BatchOp::NodeCreate(_) => "node_create"@,
        BatchOp::NodeUpdate(_) => "node_update"@,
        BatchOp::NodeDelete(_) => "node_delete"@,
        BatchOp::EdgeCreate(_) => "edge_create"@,
        BatchOp::EdgeUpdate(_) => "edge_update"@,
        BatchOp::EdgeDelete(_) => "edge_delete"@,
    }
}

/// The `op` tags a batch accepts, in the order the help lists them.
pub open spec fn batch_op_tags() -> Seq<Seq<char>> {
    seq![
        "schema_define_node"@,
        "schema_define_edge"@,
        "node_create"@,
        "node_update"@,
        "node_delete"@,
        "edge_create"@,
        "edge_update"@,
        "edge_delete"@,
    ]
}

/// The `op` tags a batch accepts: every operation's tag is listed.
pub fn batch_op_names() -> (r: Vec<&'static str>)
    ensures
        r@.map_values(|t: &'static str| t@) == batch_op_tags(),
        forall|op: BatchOp| batch_op_tags().contains(#[trigger] op_name_spec(op)),
{
    let mut r: Vec<&'static str> = Vec::new();
    r.push("schema_define_node");
    r.push("schema_define_edge");
    r.push("node_create");
    r.push("node_update");
    r.push("node_delete");
    r.push("edge_create");
    r.push("edge_update");
    r.push("edge_delete");
    assert(r@.map_values(|t: &'static str| t@) =~= batch_op_tags());
    assert forall|op: BatchOp| batch_op_tags().contains(#[trigger] op_name_spec(op)) by {
        let t = batch_op_tags();
        match op {
            BatchOp::SchemaDefineNode(_) => assert(t[0] == op_name_spec(op)),
            BatchOp::SchemaDefineEdge(_) => assert(t[1] == op_name_spec(op)),
            BatchOp::NodeCreate(_) => assert(t[2] == op_name_spec(op)),
            BatchOp::NodeUpdate(_) => assert(t[3] == op_name_spec(op)),
            BatchOp::NodeDelete(_) => assert(t[4] == op_name_spec(op)),
            BatchOp::EdgeCreate(_) => assert(t[5] == op_name_spec(op)),
            BatchOp::EdgeUpdate(_) => assert(t[6] == op_name_spec(op)),
            BatchOp::EdgeDelete(_) => assert(t[7] == op_name_spec(op)),
        }
    }
    r
}

/// Whether an operation deletes a node or an edge.
pub open spec fn is_delete_spec(op: BatchOp) -> bool {
    op is NodeDelete || op is EdgeDelete
}

impl BatchOp {
    /// The `op` tag of the operation.
    pub fn op_name(&self) -> (n: &'static str)
        ensures
            n@ == op_name_spec(*self),
    {
        match self {
            BatchOp::SchemaDefineNode(_) => "schema_define_node",
            BatchOp::SchemaDefineEdge(_) => "schema_define_edge",
            BatchOp::NodeCreate(_) => "node_create",
            BatchOp::NodeUpdate(_) => "node_update",
            BatchOp::NodeDelete(_) => "node_delete",
            BatchOp::EdgeCreate(_) => "edge_create",
            BatchOp::EdgeUpdate(_) => "edge_update",
            BatchOp::EdgeDelete(_) => "edge_delete",
        }
    }

    /// Whether the operation deletes a node or an edge.
    pub fn is_delete(&self) -> (b: bool)
        ensures
            b == is_delete_spec(*self),
    {
        match self {
            BatchOp::NodeDelete(_) | BatchOp::EdgeDelete(_) => true,
            _ => false,
        }
    }
}

/// `grm_batch` arguments.
#[derive(Debug, Clone)]
pub struct BatchParams {
    pub atomic: bool,
    pub allow_deletes: bool,
    pub response: BatchResponse,
    pub ops: Vec<BatchOp>,
}

/// The graph value stored for a JSON value, or the message refusing it.
pub open spec fn raw_value_spec(v: JsonValue) -> Result<Seq<char>, Seq<char>> {
    match v {
        JsonValue::String(s) => Ok(s@),
        JsonValue::Bool(b) => Ok(
            if b {
                "true"@
            } else {
                "false"@
            },
        ),
        JsonValue::Number(n) => Ok(number_text(n)),
        JsonValue::Null => Err("null is not a supported graph value; omit the field instead"@),
        _ => Err("graph values must be strings, numbers, or booleans"@),
    }
}

/// The text of a JSON scalar as a graph value; null, arrays and objects are
/// refused.
pub fn value_to_raw(value: JsonValue) -> (r: Result<String, GrmError>)
    ensures
        match raw_value_spec(value) {
            Ok(t) => r matches Ok(s) && s@ == t,
            Err(m) => r matches Err(e) && e@ == ErrorView::Constraint(m),
        },
{
    match value {
        JsonValue::String(s) => Ok(s),
        JsonValue::Bool(b) => Ok(
            if b {
                String::from_str("true")
            } else {
                String::from_str("false")
            },
        ),
        JsonValue::Number(n) => Ok(number_to_text(&n)),
        JsonValue::Null => Err(
            GrmError::Constraint(String::from_str("null is not a supported graph value; omit the field instead")),
        ),
        _ => Err(GrmError::Constraint(String::from_str("graph values must be strings, numbers, or booleans"))),
    }
}

/// Raw values of every entry, or the refusal of the first entry that has
/// none.
pub open spec fn raw_map_spec(m: Seq<(String, JsonValue)>) -> Result<Seq<(Seq<char>, Seq<char>)>, Seq<char>>
    decreases m.len(),
{
    if m.len() == 0 {
        Ok(Seq::empty())
    } else {
        match raw_map_spec(m.drop_last()) {
            Err(e) => Err(e),
            Ok(done) => match raw_value_spec(m.last().1) {
                Ok(t) => Ok(done.push((m.last().0@, t))),
                Err(e) => Err(e),
            },
        }
    }
}

pub open spec fn pair_texts(v: Seq<(String, String)>) -> Seq<(Seq<char>, Seq<char>)> {
    v.map_values(|p: (String, String)| (p.0@, p.1@))
}

/// Once a prefix of the entries is refused, so is every longer one.
proof fn lemma_raw_map_error_persists(m: Seq<(String, JsonValue)>, k: int)
    requires
        0 <= k <= m.len(),
        raw_map_spec(m.take(k)) is Err,
    ensures
        raw_map_spec(m) == raw_map_spec(m.take(k)),
    decreases m.len() - k,
{
    if k == m.len() {
        assert(m.take(k) =~= m);
    } else {
        let t = m.drop_last();
        assert(t.take(k) =~= m.take(k));
        lemma_raw_map_error_persists(t, k);
    }
}

/// Converts every value of a property or filter map to its graph text.
pub fn value_map_to_raw(values: ValueMap) -> (r: Result<Vec<(String, String)>, GrmError>)
    ensures
        match raw_map_spec(values@) {
            Ok(t) => r matches Ok(v) && pair_texts(v@) == t,
            Err(m) => r matches Err(e) && e@ == ErrorView::Constraint(m),
        },
{
    let ghost all = values@;
    let mut out: Vec<(String, String)> = Vec::new();
    let n = values.len();
    let mut i: usize = 0;
    assert(pair_texts(out@) =~= Seq::<(Seq<char>, Seq<char>)>::empty());
    assert(all.take(0) =~= Seq::<(String, JsonValue)>::empty());
    while i < n
        invariant
            n == all.len(),
            values@ == all,
            i <= n,
            raw_map_spec(all.take(i as int)) == Ok::<Seq<(Seq<char>, Seq<char>)>, Seq<char>>(pair_texts(out@)),
        decreases n - i,
    {
        let key = values[i].0.clone();
        let value = copy_value(&values[i].1);
        proof {
            assert(all.take(i + 1).drop_last() =~= all.take(i as int));
            assert(all.take(i + 1).last() == all[i as int]);
        }
        let raw = match value_to_raw(value) {
            Ok(t) => t,
            Err(e) => {
                proof {
                    lemma_raw_map_error_persists(all, i + 1);
                }
                return Err(e);
            },
        };
        let ghost before = out@;
        out.push((key, raw));
        assert(pair_texts(out@) =~= pair_texts(before).push((key@, raw@)));
        i = i + 1;
    }
    assert(all.take(n as int) =~= all);
    Ok(out)
}

/// Field specification of the typed request layer; same shape as a runtime
/// field.
pub type FieldSpec = RuntimeField;

/// The message refusing an unknown field type keyword.
pub open spec fn unsupported_type_message(k: Seq<char>) -> Seq<char> {
    "unsupported field type '"@ + k + "', expected one of: string, int, float, bool"@
}

/// A field as plain values.
pub open spec fn field_view(f: RuntimeField) -> (Seq<char>, RuntimeValueType, bool) {
    (f.name@, f.value_type, f.required)
}

/// Typed fields for every parameter, or the refusal of the first unknown
/// type keyword.
pub open spec fn fields_spec(fs: Seq<FieldParam>) -> Result<Seq<(Seq<char>, RuntimeValueType, bool)>, Seq<char>>
    decreases fs.len(),
{
    if fs.len() == 0 {
        Ok(Seq::empty())
    } else {
        match fields_spec(fs.drop_last()) {
            Err(e) => Err(e),
            Ok(done) => match value_type_keyword(fs.last().value_type@) {
                Some(t) => Ok(done.push((fs.last().name@, t, fs.last().required))),
                None => Err(unsupported_type_message(fs.last().value_type@)),
            },
        }
    }
}

proof fn lemma_fields_error_persists(m: Seq<FieldParam>, k: int)
    requires
        0 <= k <= m.len(),
        fields_spec(m.take(k)) is Err,
    ensures
        fields_spec(m) == fields_spec(m.take(k)),
    decreases m.len() - k,
{
    if k == m.len() {
        assert(m.take(k) =~= m);
    } else {
        let t = m.drop_last();
        assert(t.take(k) =~= m.take(k));
        lemma_fields_error_persists(t, k);
    }
}

/// Turns tool field definitions into typed runtime fields.
pub fn parse_fields(fields: Vec<FieldParam>) -> (r: Result<Vec<RuntimeField>, GrmError>)
    ensures
        match fields_spec(fields@) {
            Ok(t) => r matches Ok(v) && v@.map_values(|f: RuntimeField| field_view(f)) == t,
            Err(m) => r matches Err(e) && e@ == ErrorView::Constraint(m),
        },
{
    let ghost all = fields@;
    let mut out: Vec<RuntimeField> = Vec::new();
    let n = fields.len();
    let mut i: usize = 0;
    assert(all.take(0) =~= Seq::<FieldParam>::empty());
    assert(out@.map_values(|f: RuntimeField| field_view(f)) =~= Seq::<(Seq<char>, RuntimeValueType, bool)>::empty());
    while i < n
        invariant
            n == all.len(),
            fields@ == all,
            i <= n,
            fields_spec(all.take(i as int)) == Ok::<Seq<(Seq<char>, RuntimeValueType, bool)>, Seq<char>>(
                out@.map_values(|f: RuntimeField| field_view(f)),
            ),
        decreases n - i,
    {
        let field = &fields[i];
        proof {
            assert(all.take(i + 1).drop_last() =~= all.take(i as int));
            assert(all.take(i + 1).last() == all[i as int]);
        }
        match RuntimeValueType::parse_keyword(field.value_type.as_str()) {
            Some(t) => {
                let ghost before = out@;
                out.push(RuntimeField { name: field.name.clone(), value_type: t, required: field.required });
                assert(out@.map_values(|f: RuntimeField| field_view(f)) =~= before.map_values(
                    |f: RuntimeField| field_view(f),
                ).push((field.name@, t, field.required)));
            },
            None => {
                proof {
                    lemma_fields_error_persists(all, i + 1);
                }
                let m = concat(
                    concat("unsupported field type '", field.value_type.as_str()).as_str(),
                    "', expected one of: string, int, float, bool",
                );
                return Err(GrmError::Constraint(m));
            },
        }
        i = i + 1;
    }
    assert(all.take(n as int) =~= all);
    Ok(out)
}

} // verus!
