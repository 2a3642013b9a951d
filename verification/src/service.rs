//! Rules of the gRPC-backed MCP mode: workspace mode and format settings,
//! field types and property values sent to the service, and its errors.

use vstd::prelude::*;
use crate::error::{GrmError, ErrorView};
use crate::text::{str_eq, concat};
use crate::schema::{RuntimeValueType, FieldParam, value_type_keyword};
use crate::value::{JsonValue, JsonNumber};
use crate::query::QueryTerm;

verus! {

/// Whether the service creates the workspace or opens an existing one.
#[derive(Debug, Clone, Copy, PartialEq, Eq, Structural)]
pub enum ServiceWorkspaceMode {
    Create,
    Open,
}

/// The workspace mode a keyword names.
pub open spec fn workspace_mode_spec(raw: Seq<char>) -> Option<ServiceWorkspaceMode> {
    if raw == "create"@ {
        Some(ServiceWorkspaceMode::Create)
    } else if raw == "open"@ {
        Some(ServiceWorkspaceMode::Open)
    } else {
        None
    }
}

impl ServiceWorkspaceMode {
    /// Reads `GRM_SERVICE_WORKSPACE_MODE`.
    pub fn parse(raw: &str) -> (r: Result<ServiceWorkspaceMode, GrmError>)
        ensures
            match workspace_mode_spec(raw@) {
                Some(m) => r == Ok::<ServiceWorkspaceMode, GrmError>(m),
                None => r matches Err(e) && e@ == ErrorView::Constraint(
                    "unsupported GRM_SERVICE_WORKSPACE_MODE '"@ + raw@ + "'; expected 'create' or 'open'"@,
                ),
            },
    {
        if str_eq(raw, "create") {
            Ok(ServiceWorkspaceMode::Create)
        } else if str_eq(raw, "open") {
            Ok(ServiceWorkspaceMode::Open)
        } else {
            Err(
                GrmError::Constraint(
                    concat(
                        concat("unsupported GRM_SERVICE_WORKSPACE_MODE '", raw).as_str(),
                        "'; expected 'create' or 'open'",
                    ),
                ),
            )
        }
    }

    /// The word shown for the mode.
    pub fn as_str(self) -> (r: &'static str)
        ensures
            r@ == match self {
                ServiceWorkspaceMode::Create => "create"@,
                ServiceWorkspaceMode::Open => "open"@,
            },
    {
        match self {
            ServiceWorkspaceMode::Create => "create",
            ServiceWorkspaceMode::Open => "open",
        }
    }
}

/// Encoding of the service workspace files.
#[derive(Debug, Clone, Copy, PartialEq, Eq, Structural)]
pub enum ServiceWorkspaceFormat {
    Json,
    Binary,
}

/// The workspace format a keyword names.
pub open spec fn workspace_format_spec(raw: Seq<char>) -> Option<ServiceWorkspaceFormat> {
    if raw == "json"@ {
        Some(ServiceWorkspaceFormat::Json)
    } else if raw == "bin"@ || raw == "binary"@ {
        Some(ServiceWorkspaceFormat::Binary)
    } else {
        None
    }
}

/// The keyword of a workspace format.
pub open spec fn workspace_format_text(f: ServiceWorkspaceFormat) -> Seq<char> {
    match f {
        ServiceWorkspaceFormat::Json => "json"@,
        ServiceWorkspaceFormat::Binary => "binary"@,
    }
}

impl ServiceWorkspaceFormat {
    /// Reads `GRM_SERVICE_WORKSPACE_FORMAT`.
    pub fn parse(raw: &str) -> (r: Result<ServiceWorkspaceFormat, GrmError>)
        ensures
            match workspace_format_spec(raw@) {
                Some(f) => r == Ok::<ServiceWorkspaceFormat, GrmError>(f),
                None => r matches Err(e) && e@ == ErrorView::Constraint(
                    "unsupported GRM_SERVICE_WORKSPACE_FORMAT '"@ + raw@ + "'; expected 'json', 'bin', or 'binary'"@,
                ),
            },
    {
        if str_eq(raw, "json") {
            Ok(ServiceWorkspaceFormat::Json)
        } else if str_eq(raw, "bin") || str_eq(raw, "binary") {
            Ok(ServiceWorkspaceFormat::Binary)
        } else {
            Err(
                GrmError::Constraint(
                    concat(
                        concat("unsupported GRM_SERVICE_WORKSPACE_FORMAT '", raw).as_str(),
                        "'; expected 'json', 'bin', or 'binary'",
                    ),
                ),
            )
        }
    }

    /// The keyword of the format.
    pub fn as_str(self) -> (r: &'static str)
        ensures
            r@ == workspace_format_text(self),
    {
        match self {
            ServiceWorkspaceFormat::Json => "json",
            ServiceWorkspaceFormat::Binary => "binary",
        }
    }
}

/// The transport reported in the backend status: mutual TLS, TLS, or plain
/// local gRPC.
pub fn status_transport_label(tls_enabled: bool, client_certificate_configured: bool) -> (r: &'static str)
    ensures
        r@ == if client_certificate_configured {
            "tls-with-client-certificate"@
        } else if tls_enabled {
            "tls"@
        } else {
            "insecure-local-grpc"@
        },
{
    if client_certificate_configured {
        "tls-with-client-certificate"
    } else if tls_enabled {
        "tls"
    } else {
        "insecure-local-grpc"
    }
}

/// Refuses `format=` terms in explain and profile commands.
pub fn reject_introspection_format_terms(terms: &Vec<QueryTerm>) -> (r: Result<(), GrmError>)
    ensures
        (exists|i: int| 0 <= i < terms@.len() && (#[trigger] terms@[i]).key@ == "format"@) ==> (r matches Err(
            e,
        ) && e@ == ErrorView::NotSupported("format= is not supported with session.explain or session.profile"@)),
        !(exists|i: int| 0 <= i < terms@.len() && (#[trigger] terms@[i]).key@ == "format"@) ==> r is Ok,
{
    let mut i: usize = 0;
    while i < terms.len()
        invariant
            i <= terms.len(),
            forall|k: int| 0 <= k < i ==> (#[trigger] terms@[k]).key@ != "format"@,
        decreases terms.len() - i,
    {
        if str_eq(terms[i].key.as_str(), "format") {
            return Err(GrmError::NotSupported(String::from_str("format= is not supported with session.explain or session.profile")));
        }
        i = i + 1;
    }
    Ok(())
}

/// A `usize` as a `u64`, which always fits on the platforms Rust supports
/// with 16-, 32- or 64-bit pointers.
pub fn usize_to_u64(value: usize) -> (r: Result<u64, GrmError>)
    ensures
        r matches Ok(v) && v as int == value as int,
{
    Ok(value as u64)
}

/// A property value as the service protocol carries it; a floating-point
/// value is kept as its JSON text.
#[derive(Debug, Clone)]
pub enum PropertyValue {
    String(String),
    Bool(bool),
    Int(i64),
    Float(String),
}

/// The service form of a JSON property value, or the refusal.
pub open spec fn property_value_spec(v: JsonValue) -> Result<PropertyValue, Seq<char>> {
    match v {
        JsonValue::String(s) => Ok(PropertyValue::String(s)),
        JsonValue::Bool(b) => Ok(PropertyValue::Bool(b)),
        JsonValue::Number(JsonNumber::NegInt(i)) => Ok(PropertyValue::Int(i)),
        JsonValue::Number(JsonNumber::PosInt(u)) => if u <= i64::MAX as u64 {
            Ok(PropertyValue::Int(u as i64))
        } else {
            Err("integer property value is too large for int64"@)
        },
        JsonValue::Number(JsonNumber::Float(t)) => Ok(PropertyValue::Float(t)),
        JsonValue::Null => Err("null is not a supported graph value; omit the field instead"@),
        _ => Err("graph values must be strings, numbers, or booleans"@),
    }
}

/// Converts a JSON property value for the service.
pub fn property_value(value: JsonValue) -> (r: Result<PropertyValue, GrmError>)
    ensures
        match property_value_spec(value) {
            Ok(p) => r == Ok::<PropertyValue, GrmError>(p),
            Err(m) => r matches Err(e) && e@ == ErrorView::Constraint(m),
        },
{
    match value {
        JsonValue::String(s) => Ok(PropertyValue::String(s)),
        JsonValue::Bool(b) => Ok(PropertyValue::Bool(b)),
        JsonValue::Number(JsonNumber::NegInt(i)) => Ok(PropertyValue::Int(i)),
        JsonValue::Number(JsonNumber::PosInt(u)) => if u <= 9223372036854775807u64 {
            Ok(PropertyValue::Int(u as i64))
        } else {
            Err(GrmError::Constraint(String::from_str("integer property value is too large for int64")))
        },
        JsonValue::Number(JsonNumber::Float(t)) => Ok(PropertyValue::Float(t)),
        JsonValue::Null => Err(
            GrmError::Constraint(String::from_str("null is not a supported graph value; omit the field instead")),
        ),
        _ => Err(GrmError::Constraint(String::from_str("graph values must be strings, numbers, or booleans"))),
    }
}

/// The field type of a service field definition.
pub fn proto_field_type(value_type: &str) -> (r: Result<RuntimeValueType, GrmError>)
    ensures
        match value_type_keyword(value_type@) {
            Some(t) => r == Ok::<RuntimeValueType, GrmError>(t),
            None => r matches Err(e) && e@ == ErrorView::Constraint(
                "unsupported field type '"@ + value_type@ + "'; expected string, int, float, or bool"@,
            ),
        },
{
    match RuntimeValueType::parse_keyword(value_type) {
        Some(t) => Ok(t),
        None => Err(
            GrmError::Constraint(
                concat(
                    concat("unsupported field type '", value_type).as_str(),
                    "'; expected string, int, float, or bool",
                ),
            ),
        ),
    }
}

/// Display name of a field type reported by the service; `Unspecified` for a
/// code the adapter does not know.
pub fn field_type_display(value: Option<RuntimeValueType>) -> (r: &'static str)
    ensures
        r@ == match value {
            Some(RuntimeValueType::String) => "String"@,
            Some(RuntimeValueType::Int) => "Int"@,
            Some(RuntimeValueType::Float) => "Float"@,
            Some(RuntimeValueType::Bool) => "Bool"@,
            None => "Unspecified"@,
        },
{
    match value {
        Some(RuntimeValueType::String) => "String",
        Some(RuntimeValueType::Int) => "Int",
        Some(RuntimeValueType::Float) => "Float",
        Some(RuntimeValueType::Bool) => "Bool",
        None => "Unspecified",
    }
}

/// Keyword and display name of an id type reported by the service; the
/// service knows only 64-bit integer ids (`int64 == true`).
pub fn id_type_keyword(int64: bool) -> (r: &'static str)
    ensures
        r@ == if int64 {
            "int"@
        } else {
            "unknown"@
        },
{
    if int64 {
        "int"
    } else {
        "unknown"
    }
}

/// Display name of an id type reported by the service.
pub fn id_type_display(int64: bool) -> (r: &'static str)
    ensures
        r@ == if int64 {
            "Int64"@
        } else {
            "Unspecified"@
        },
{
    if int64 {
        "Int64"
    } else {
        "Unspecified"
    }
}

/// The error for a reply that lacks a required field.
pub fn missing_service_field(field: &str) -> (e: GrmError)
    ensures
        e@ == ErrorView::Backend("gRPC service response missing required field '"@ + field@ + "'"@),
{
    GrmError::Backend(concat(concat("gRPC service response missing required field '", field).as_str(), "'"))
}

/// The error for a failed service call, given the status text.
pub fn service_status_error(status: &str) -> (e: GrmError)
    ensures
        e@ == ErrorView::Backend("gRPC service error: "@ + status@),
{
    GrmError::Backend(concat("gRPC service error: ", status))
}

/// The error for a failed connection, given the client error text.
pub fn service_client_error(error: &str) -> (e: GrmError)
    ensures
        e@ == ErrorView::Backend("gRPC service connection failed: "@ + error@),
{
    GrmError::Backend(concat("gRPC service connection failed: ", error))
}

/// Field definitions for the service, or the refusal of the first unknown
/// type keyword.
pub open spec fn service_fields_spec(fs: Seq<FieldParam>) -> Result<Seq<(Seq<char>, RuntimeValueType, bool)>, Seq<char>>
    decreases fs.len(),
{
    if fs.len() == 0 {
        Ok(Seq::empty())
    } else {
        match service_fields_spec(fs.drop_last()) {
            Err(e) => Err(e),
            Ok(done) => match value_type_keyword(fs.last().value_type@) {
                Some(t) => Ok(done.push((fs.last().name@, t, fs.last().required))),
                None => Err("unsupported field type '"@ + fs.last().value_type@ + "'; expected string, int, float, or bool"@),
            },
        }
    }
}

proof fn lemma_service_fields_error_persists(m: Seq<FieldParam>, k: int)
    requires
        0 <= k <= m.len(),
        service_fields_spec(m.take(k)) is Err,
    ensures
        service_fields_spec(m) == service_fields_spec(m.take(k)),
    decreases m.len() - k,
{
    if k == m.len() {
        assert(m.take(k) =~= m);
    } else {
        let t = m.drop_last();
        assert(t.take(k) =~= m.take(k));
        lemma_service_fields_error_persists(t, k);
    }
}

/// A field definition as sent to the service.
#[derive(Debug, Clone)]
pub struct ServiceFieldSpec {
    pub name: String,
    pub value_type: RuntimeValueType,
    pub required: bool,
}

pub open spec fn service_field_view(f: ServiceFieldSpec) -> (Seq<char>, RuntimeValueType, bool) {
    (f.name@, f.value_type, f.required)
}

/// Field definitions of a schema tool call, typed for the service.
pub fn field_params(fields: Vec<FieldParam>) -> (r: Result<Vec<ServiceFieldSpec>, GrmError>)
    ensures
        match service_fields_spec(fields@) {
            Ok(t) => r matches Ok(v) && v@.map_values(|f: ServiceFieldSpec| service_field_view(f)) == t,
            Err(m) => r matches Err(e) && e@ == ErrorView::Constraint(m),
        },
{
    let ghost all = fields@;
    let mut out: Vec<ServiceFieldSpec> = Vec::new();
    let n = fields.len();
    let mut i: usize = 0;
    assert(all.take(0) =~= Seq::<FieldParam>::empty());
    assert(out@.map_values(|f: ServiceFieldSpec| service_field_view(f)) =~= Seq::<(Seq<char>, RuntimeValueType, bool)>::empty());
    while i < n
        invariant
            n == all.len(),
            fields@ == all,
            i <= n,
            service_fields_spec(all.take(i as int)) == Ok::<Seq<(Seq<char>, RuntimeValueType, bool)>, Seq<char>>(
                out@.map_values(|f: ServiceFieldSpec| service_field_view(f)),
            ),
        decreases n - i,
    {
        let field = &fields[i];
        proof {
            assert(all.take(i + 1).drop_last() =~= all.take(i as int));
            assert(all.take(i + 1).last() == all[i as int]);
        }
        match proto_field_type(field.value_type.as_str()) {
            Ok(t) => {
                let ghost before = out@;
                out.push(ServiceFieldSpec { name: field.name.clone(), value_type: t, required: field.required });
                assert(out@.map_values(|f: ServiceFieldSpec| service_field_view(f)) =~= before.map_values(
                    |f: ServiceFieldSpec| service_field_view(f),
                ).push((field.name@, t, field.required)));
            },
            Err(e) => {
                proof {
                    lemma_service_fields_error_persists(all, i + 1);
                }
                return Err(e);
            },
        }
        i = i + 1;
    }
    assert(all.take(n as int) =~= all);
    Ok(out)
}

} // verus!
